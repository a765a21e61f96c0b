use vstd::prelude::*;
use vstd::slice::slice_subrange;
use vstd::string::StringExecFns;
use crate::common::text::{
    chars_eq, chars_eq_ignoring_case, chars_of, find_char, index_of, leading_len,
    same_ignoring_case, string_of, strip_all,
};
use crate::common::uri::{
    is_delimiter, lemma_segment_end, redact_uri, redact_uri_secrets, segment_end,
};
use crate::relay::transport::{after_open, is_open, opened_state, EndpointState, Role};
use crate::structures::error::{TResult, TransportError};

verus! {

/// An endpoint URI taken apart.
#[derive(Debug, PartialEq, Eq)]
pub struct EndpointUri {
    /// The scheme in front of `://`, or nothing where the URI has none.
    pub protocol: String,
    /// The remote host of a caller; the wildcard `0.0.0.0` for a listener.
    pub host: String,
    pub port: u16,
    pub role: Role,
    /// The query as it stands behind the first `?`.
    pub query: String,
}

/// The plain values of an [`EndpointUri`].
pub struct EndpointUriView {
    pub protocol: Seq<char>,
    pub host: Seq<char>,
    pub port: u16,
    pub role: Role,
    pub query: Seq<char>,
}

impl EndpointUriView {
    /// Whether the parts fit together: a listener has the wildcard host,
    /// and a caller has a host to reach.
    pub open spec fn wf(self) -> bool {
        match self.role {
            Role::Listener => self.host == wildcard_host(),
            Role::Caller => self.host.len() > 0,
        }
    }
}

impl View for EndpointUri {
    type V = EndpointUriView;

    open spec fn view(&self) -> EndpointUriView {
        EndpointUriView {
            protocol: self.protocol@,
            host: self.host@,
            port: self.port,
            role: self.role,
            query: self.query@,
        }
    }
}

/// What parts a scheme from the rest of a URI: `://`.
pub open spec fn scheme_mark() -> Seq<char> {
    seq![':', '/', '/']
}

/// The host that marks a listener: `@`.
pub open spec fn listener_marker() -> Seq<char> {
    seq!['@']
}

/// The host that a listener binds to: `0.0.0.0`, every local address.
pub open spec fn wildcard_host() -> Seq<char> {
    seq!['0', '.', '0', '.', '0', '.', '0']
}

/// The name of the parameter that sets the role: `mode`.
pub open spec fn mode_key() -> Seq<char> {
    seq!['m', 'o', 'd', 'e']
}

/// The value of `mode` that asks for a listener: `listener`.
pub open spec fn listener_value() -> Seq<char> {
    seq!['l', 'i', 's', 't', 'e', 'n', 'e', 'r']
}

/// Where the first `://` at or after `from` begins, or the length of `s`
/// where there is none.
pub open spec fn scheme_end(s: Seq<char>, from: int) -> int
    decreases s.len() - from,
{
    if from < 0 || from + 3 > s.len() {
        s.len() as int
    } else if s.subrange(from, from + 3) == scheme_mark() {
        from
    } else {
        scheme_end(s, from + 1)
    }
}

/// The scheme of a URI: what stands in front of its first `://`, and
/// nothing where it has none.
pub open spec fn scheme_of(uri: Seq<char>) -> Seq<char> {
    if scheme_end(uri, 0) < uri.len() {
        uri.take(scheme_end(uri, 0))
    } else {
        Seq::empty()
    }
}

/// A URI without its scheme: what stands behind its first `://`, and all
/// of it where it has none.
pub open spec fn after_scheme(uri: Seq<char>) -> Seq<char> {
    if scheme_end(uri, 0) < uri.len() {
        uri.skip(scheme_end(uri, 0) + 3)
    } else {
        uri
    }
}

/// The host and port of a URI without scheme: what stands in front of the
/// first `?`, and all of it where there is none.
pub open spec fn host_port_of(rest: Seq<char>) -> Seq<char> {
    rest.take(index_of(rest, '?', 0))
}

/// The query of a URI without scheme: what stands behind the first `?`, to
/// the end. Its parameters are parted by `&` and by `#`.
pub open spec fn query_of(rest: Seq<char>) -> Seq<char> {
    if index_of(rest, '?', 0) < rest.len() {
        rest.skip(index_of(rest, '?', 0) + 1)
    } else {
        Seq::empty()
    }
}

/// How long the host is in `hp`: up to the first `:`, or, for a host in
/// square brackets, up to and with the closing bracket.
pub open spec fn host_len(hp: Seq<char>) -> int {
    if hp.len() > 0 && hp[0] == '[' {
        if index_of(hp, ']', 0) < hp.len() {
            index_of(hp, ']', 0) + 1
        } else {
            hp.len() as int
        }
    } else {
        index_of(hp, ':', 0)
    }
}

/// The host in `hp`.
pub open spec fn host_of(hp: Seq<char>) -> Seq<char> {
    hp.take(host_len(hp))
}

/// The text of the port in `hp`: what stands behind the `:` that follows
/// the host, if one follows.
pub open spec fn port_text_of(hp: Seq<char>) -> Option<Seq<char>> {
    if 0 <= host_len(hp) < hp.len() && hp[host_len(hp)] == ':' {
        Some(hp.skip(host_len(hp) + 1))
    } else {
        None
    }
}

/// Whether `c` is a decimal digit.
pub open spec fn is_digit(c: char) -> bool {
    '0' <= c && c <= '9'
}

/// Whether `s` holds decimal digits and nothing else.
pub open spec fn all_digits(s: Seq<char>) -> bool {
    forall|i: int| 0 <= i < s.len() ==> is_digit(#[trigger] s[i])
}

/// The number that the decimal digits `s` write.
pub open spec fn digits_value(s: Seq<char>) -> nat
    decreases s.len(),
{
    if s.len() == 0 {
        0
    } else {
        digits_value(s.drop_last()) * 10 + (s.last() as u8 - '0' as u8) as nat
    }
}

/// The digits of a number text: the text without the `+` that may lead it.
pub open spec fn number_digits(text: Seq<char>) -> Seq<char> {
    if text.len() > 0 && text[0] == '+' {
        text.skip(1)
    } else {
        text
    }
}

/// The number that `text` writes, if it is no more than `max`: one or more
/// decimal digits, with or without a `+` in front.
pub open spec fn parse_number(text: Seq<char>, max: nat) -> Option<nat> {
    parse_digits(number_digits(text), max)
}

/// The number that the digits `text` write, if it is no more than `max`:
/// one or more decimal digits and nothing else.
pub open spec fn parse_digits(text: Seq<char>, max: nat) -> Option<nat> {
    if text.len() > 0 && all_digits(text) && digits_value(text) <= max {
        Some(digits_value(text))
    } else {
        None
    }
}

/// The port that the digits `text` write: one or more decimal digits and
/// nothing else, of a value up to 65535.
pub open spec fn parse_port_digits(text: Seq<char>) -> Option<u16> {
    match parse_digits(text, u16::MAX as nat) {
        Some(v) => Some(v as u16),
        None => None,
    }
}

/// The port that `text` writes: one or more decimal digits, with or
/// without a `+` in front, of a value up to 65535.
pub open spec fn parse_port(text: Seq<char>) -> Option<u16> {
    match parse_number(text, u16::MAX as nat) {
        Some(v) => Some(v as u16),
        None => None,
    }
}

/// Whether the parameter `pair` asks for a listener: its name is `mode`,
/// in any case of ASCII letters, and its value is `listener`, letter for
/// letter as written here. `MODE=listener` asks for a listener, and
/// `mode=Listener` does not.
pub open spec fn is_listener_pair(pair: Seq<char>) -> bool {
    let eq = index_of(pair, '=', 0);
    &&& eq < pair.len()
    &&& same_ignoring_case(pair.take(eq), mode_key())
    &&& pair.skip(eq + 1) == listener_value()
}

/// Whether one of the parameters of `q` from `from` on asks for a
/// listener. A parameter ends at the next `&` or `#`, or at the end.
pub open spec fn has_listener_mode(q: Seq<char>, from: int) -> bool
    decreases q.len() - from,
{
    if from < 0 || from > q.len() {
        false
    } else {
        let to = segment_end(q, from);
        is_listener_pair(q.subrange(from, to)) || (from <= to < q.len() && has_listener_mode(
            q,
            to + 1,
        ))
    }
}

/// The role that a URI without scheme asks for: listener where its host is
/// the marker `@` or its query holds the parameter `mode=listener`, and
/// caller otherwise. Where both a marker and `mode=caller` stand, the
/// marker wins.
///
/// The host is the marker only where it is `@` and nothing more: `@:9000`
/// has it, and `@foo:9000` names the host `@foo`. What stands in front of
/// the first `?` has no say in where the query begins, whatever it holds.
pub open spec fn role_of(rest: Seq<char>) -> Role {
    if host_of(host_port_of(rest)) == listener_marker() || has_listener_mode(query_of(rest), 0) {
        Role::Listener
    } else {
        Role::Caller
    }
}

/// What a URI without scheme resolves to under the protocol `protocol`.
///
/// A listener needs a port and gets the wildcard host. A caller needs a
/// host and a port. Everything else is no endpoint.
pub open spec fn resolve_rest(protocol: Seq<char>, rest: Seq<char>) -> Option<EndpointUriView> {
    let hp = host_port_of(rest);
    match port_text_of(hp) {
        Some(text) => match parse_port(text) {
            Some(port) => if role_of(rest) == Role::Listener {
                Some(
                    EndpointUriView {
                        protocol,
                        host: wildcard_host(),
                        port,
                        role: Role::Listener,
                        query: query_of(rest),
                    },
                )
            } else if host_of(hp).len() > 0 {
                Some(
                    EndpointUriView {
                        protocol,
                        host: host_of(hp),
                        port,
                        role: Role::Caller,
                        query: query_of(rest),
                    },
                )
            } else {
                None
            },
            None => None,
        },
        None => None,
    }
}

/// The remote host and port that a URI without scheme names: a host that
/// is not the listener marker, and a port written in digits alone, without
/// a sign. The query has no say in it.
pub open spec fn remote_address(rest: Seq<char>) -> Option<(Seq<char>, u16)> {
    let hp = host_port_of(rest);
    match port_text_of(hp) {
        Some(text) => match parse_port_digits(text) {
            Some(port) => if host_of(hp).len() > 0 && host_of(hp) != listener_marker() {
                Some((host_of(hp), port))
            } else {
                None
            },
            None => None,
        },
        None => None,
    }
}

/// What a URI resolves to: its scheme is the protocol, and the rest gives
/// role, host, port and query.
pub open spec fn resolve_spec(uri: Seq<char>) -> Option<EndpointUriView> {
    resolve_rest(scheme_of(uri), after_scheme(uri))
}

/// Where the first `://` of `v` begins, or the length of `v`.
pub fn find_scheme_end(v: &[char]) -> (r: usize)
    ensures
        r == scheme_end(v@, 0),
        r <= v@.len(),
        r < v@.len() ==> r + 3 <= v@.len(),
{
    let mut i: usize = 0;
    while i < v.len() && v.len() - i >= 3
        invariant
            i <= v@.len(),
            scheme_end(v@, i as int) == scheme_end(v@, 0),
        decreases v@.len() - i,
    {
        if v[i] == ':' && v[i + 1] == '/' && v[i + 2] == '/' {
            assert(v@.subrange(i as int, i + 3) =~= scheme_mark());
            return i;
        }
        assert(v@.subrange(i as int, i + 3) != scheme_mark()) by {
            let w = v@.subrange(i as int, i + 3);
            assert(w[0] == v@[i as int] && w[1] == v@[i + 1] && w[2] == v@[i + 2]);
            assert(scheme_mark()[0] == ':' && scheme_mark()[1] == '/' && scheme_mark()[2] == '/');
        }
        i += 1;
    }
    v.len()
}

/// How long the host is in `hp`.
pub fn find_host_len(hp: &[char]) -> (r: usize)
    ensures
        r == host_len(hp@),
        r <= hp@.len(),
{
    if hp.len() > 0 && hp[0] == '[' {
        let close = find_char(hp, ']', 0);
        if close < hp.len() {
            close + 1
        } else {
            hp.len()
        }
    } else {
        find_char(hp, ':', 0)
    }
}

/// The digits of a longer text write no smaller a number than its first
/// digits do.
proof fn lemma_digits_value_grows(s: Seq<char>, n: int)
    requires
        0 <= n <= s.len(),
    ensures
        digits_value(s.take(n)) <= digits_value(s),
    decreases s.len() - n,
{
    if n < s.len() {
        lemma_digits_value_grows(s, n + 1);
        assert(s.take(n + 1).drop_last() =~= s.take(n));
    } else {
        assert(s.take(n) =~= s);
    }
}

/// Reads a number of at most `max` from digits alone: one or more decimal
/// digits and nothing else.
pub fn read_digits(d: &[char], max: u64) -> (r: Option<u64>)
    ensures
        match r {
            Some(v) => parse_digits(d@, max as nat) == Some(v as nat),
            None => parse_digits(d@, max as nat) is None,
        },
{
    if d.len() == 0 {
        return None;
    }
    let mut value: u64 = 0;
    let mut i: usize = 0;
    while i < d.len()
        invariant
            i <= d@.len(),
            all_digits(d@.take(i as int)),
            value == digits_value(d@.take(i as int)),
            value <= max,
        decreases d@.len() - i,
    {
        let c = d[i];
        if !(c >= '0' && c <= '9') {
            assert(!is_digit(d@[i as int]));
            return None;
        }
        let digit: u64 = (c as u8 - '0' as u8) as u64;
        proof {
            assert(d@.take(i + 1).drop_last() =~= d@.take(i as int));
            assert(d@.take(i + 1).last() == c);
            assert(digits_value(d@.take(i + 1)) == value * 10 + digit);
            assert forall|j: int| 0 <= j < i + 1 implies is_digit(#[trigger] d@.take(i + 1)[j]) by {
                if j < i {
                    assert(d@.take(i as int)[j] == d@.take(i + 1)[j]);
                }
            }
            lemma_digits_value_grows(d@, i + 1);
        }
        if digit > max || value > (max - digit) / 10 {
            return None;
        }
        value = value * 10 + digit;
        i += 1;
    }
    assert(d@.take(d@.len() as int) =~= d@);
    Some(value)
}

/// Reads a number of at most `max`: one or more decimal digits, with or
/// without a `+` in front.
pub fn read_number(text: &[char], max: u64) -> (r: Option<u64>)
    ensures
        match r {
            Some(v) => parse_number(text@, max as nat) == Some(v as nat),
            None => parse_number(text@, max as nat) is None,
        },
{
    if text.len() > 0 && text[0] == '+' {
        read_digits(slice_subrange(text, 1, text.len()), max)
    } else {
        read_digits(text, max)
    }
}

/// Reads a port: one or more decimal digits, with or without a `+` in
/// front, of a value up to 65535.
pub fn read_port(text: &[char]) -> (r: Option<u16>)
    ensures
        r == parse_port(text@),
{
    match read_number(text, 65535) {
        Some(v) => Some(v as u16),
        None => None,
    }
}

/// Whether the parameter `pair` asks for a listener.
pub fn pair_asks_listener(pair: &[char]) -> (r: bool)
    ensures
        r == is_listener_pair(pair@),
{
    let eq = find_char(pair, '=', 0);
    if eq >= pair.len() {
        return false;
    }
    let mode: Vec<char> = vec!['m', 'o', 'd', 'e'];
    let listener: Vec<char> = vec!['l', 'i', 's', 't', 'e', 'n', 'e', 'r'];
    assert(mode@ =~= mode_key());
    assert(listener@ =~= listener_value());
    let name = slice_subrange(pair, 0, eq);
    let value = slice_subrange(pair, eq + 1, pair.len());
    chars_eq_ignoring_case(name, mode.as_slice()) && chars_eq(value, listener.as_slice())
}

/// Where the parameter of `q` that begins at `from` ends: at the next `&`
/// or `#`, or at the end.
pub fn find_parameter_end(q: &[char], from: usize) -> (r: usize)
    ensures
        r == segment_end(q@, from as int),
        r <= q@.len(),
        from <= q@.len() ==> from <= r,
{
    if from > q.len() {
        return q.len();
    }
    let mut i = from;
    while i < q.len() && q[i] != '&' && q[i] != '#'
        invariant
            from <= i <= q@.len(),
            segment_end(q@, i as int) == segment_end(q@, from as int),
        decreases q@.len() - i,
    {
        i += 1;
    }
    i
}

/// Whether one of the parameters of the query `q` asks for a listener.
pub fn query_asks_listener(q: &[char]) -> (r: bool)
    ensures
        r == has_listener_mode(q@, 0),
{
    let mut from: usize = 0;
    loop
        invariant
            from <= q@.len(),
            has_listener_mode(q@, from as int) == has_listener_mode(q@, 0),
        decreases q@.len() - from,
    {
        let to = find_parameter_end(q, from);
        if pair_asks_listener(slice_subrange(q, from, to)) {
            return true;
        }
        if to >= q.len() {
            return false;
        }
        from = to + 1;
    }
}

/// The role that a URI without scheme asks for.
pub fn role_of_rest(rest: &[char]) -> (r: Role)
    ensures
        r == role_of(rest@),
{
    let q = find_char(rest, '?', 0);
    let hp = slice_subrange(rest, 0, q);
    let h = find_host_len(hp);
    if h == 1 && hp[0] == '@' {
        assert(host_of(hp@) =~= listener_marker());
        return Role::Listener;
    }
    assert(host_of(hp@) != listener_marker()) by {
        if host_of(hp@) == listener_marker() {
            assert(host_of(hp@).len() == 1);
            assert(host_of(hp@)[0] == '@');
        }
    }
    if q < rest.len() {
        let query = slice_subrange(rest, q + 1, rest.len());
        if query_asks_listener(query) {
            Role::Listener
        } else {
            Role::Caller
        }
    } else {
        assert(!has_listener_mode(Seq::<char>::empty(), 0)) by {
            let e = Seq::<char>::empty();
            assert(index_of(e, '&', 0) == 0);
            assert(e.subrange(0, 0) =~= e);
            assert(index_of(e, '=', 0) == 0);
        }
        Role::Caller
    }
}

/// Resolves a URI without scheme under the protocol `protocol`.
pub fn resolve_after_scheme(protocol: &[char], rest: &[char]) -> (r: Option<EndpointUri>)
    ensures
        match r {
            Some(e) => resolve_rest(protocol@, rest@) == Some(e@),
            None => resolve_rest(protocol@, rest@) is None,
        },
{
    let q = find_char(rest, '?', 0);
    let hp = slice_subrange(rest, 0, q);
    let h = find_host_len(hp);
    if h >= hp.len() || hp[h] != ':' {
        return None;
    }
    let port = match read_port(slice_subrange(hp, h + 1, hp.len())) {
        Some(p) => p,
        None => {
            return None;
        },
    };
    let query = if q < rest.len() {
        string_of(slice_subrange(rest, q + 1, rest.len()))
    } else {
        String::new()
    };
    match role_of_rest(rest) {
        Role::Listener => {
            let wildcard: Vec<char> = vec!['0', '.', '0', '.', '0', '.', '0'];
            assert(wildcard@ =~= wildcard_host());
            Some(
                EndpointUri {
                    protocol: string_of(protocol),
                    host: string_of(wildcard.as_slice()),
                    port,
                    role: Role::Listener,
                    query,
                },
            )
        },
        Role::Caller => {
            if h == 0 {
                return None;
            }
            Some(
                EndpointUri {
                    protocol: string_of(protocol),
                    host: string_of(slice_subrange(hp, 0, h)),
                    port,
                    role: Role::Caller,
                    query,
                },
            )
        },
    }
}

/// The remote host and port that a URI without scheme names.
pub fn remote_of_rest(rest: &[char]) -> (r: Option<(String, u16)>)
    ensures
        match remote_address(rest@) {
            Some(a) => r matches Some(hp) && hp.0@ == a.0 && hp.1 == a.1,
            None => r is None,
        },
{
    let q = find_char(rest, '?', 0);
    let hp = slice_subrange(rest, 0, q);
    let h = find_host_len(hp);
    if h >= hp.len() || hp[h] != ':' {
        return None;
    }
    let port = match read_digits(slice_subrange(hp, h + 1, hp.len()), 65535) {
        Some(p) => p as u16,
        None => {
            return None;
        },
    };
    if h == 0 || (h == 1 && hp[0] == '@') {
        proof {
            if h == 1 {
                assert(host_of(hp@) =~= listener_marker());
            }
        }
        return None;
    }
    assert(host_of(hp@) != listener_marker()) by {
        if host_of(hp@) == listener_marker() {
            assert(host_of(hp@).len() == 1);
            assert(host_of(hp@)[0] == '@');
        }
    }
    Some((string_of(slice_subrange(hp, 0, h)), port))
}

/// Resolves an endpoint URI: its scheme, its role, and the address that
/// the role needs. A URI that gives no such address is refused as
/// `InvalidUri`, with the URI.
pub fn resolve(uri: &str) -> (r: TResult<EndpointUri>)
    ensures
        match r {
            Ok(e) => resolve_spec(uri@) == Some(e@),
            Err(err) => resolve_spec(uri@) is None && err.is_invalid_uri(uri@),
        },
{
    let v = chars_of(uri);
    let s = find_scheme_end(v.as_slice());
    let resolved = if s < v.len() {
        resolve_after_scheme(
            slice_subrange(v.as_slice(), 0, s),
            slice_subrange(v.as_slice(), s + 3, v.len()),
        )
    } else {
        let none: Vec<char> = Vec::new();
        resolve_after_scheme(none.as_slice(), v.as_slice())
    };
    match resolved {
        Some(e) => Ok(e),
        None => Err(TransportError::InvalidUri(String::from_str(uri))),
    }
}

/// The role of an endpoint is decided by its URI alone: whatever `resolve`
/// answers carries the role that the URI asks for, with an address that
/// fits the role, the scheme of the URI as protocol and its query.
pub proof fn lemma_role_is_decided(uri: Seq<char>)
    ensures
        resolve_spec(uri) matches Some(e) ==> e.role == role_of(after_scheme(uri)) && e.wf()
            && e.protocol == scheme_of(uri) && e.query == query_of(after_scheme(uri)),
{
}

/// A URI with a sign of a listener, the marker `@` as host or
/// `mode=listener` in the query, resolves to a listener on the wildcard
/// host, so long as it names a port. A `mode=caller` beside the marker
/// changes nothing.
pub proof fn lemma_listener_signs_give_listener(uri: Seq<char>)
    requires
        host_of(host_port_of(after_scheme(uri))) == listener_marker() || has_listener_mode(
            query_of(after_scheme(uri)),
            0,
        ),
        port_text_of(host_port_of(after_scheme(uri))) matches Some(text) && parse_port(text) is Some,
    ensures
        resolve_spec(uri) matches Some(e) && e.role == Role::Listener && e.host == wildcard_host()
            && Some(e.port) == parse_port(port_text_of(host_port_of(after_scheme(uri)))->0),
{
}

/// A URI without a sign of a listener that names a host and a port
/// resolves to a caller of that host and port.
pub proof fn lemma_plain_address_gives_caller(uri: Seq<char>)
    requires
        host_of(host_port_of(after_scheme(uri))) != listener_marker(),
        !has_listener_mode(query_of(after_scheme(uri)), 0),
        host_of(host_port_of(after_scheme(uri))).len() > 0,
        port_text_of(host_port_of(after_scheme(uri))) matches Some(text) && parse_port(text) is Some,
    ensures
        resolve_spec(uri) matches Some(e) && e.role == Role::Caller && e.host == host_of(
            host_port_of(after_scheme(uri)),
        ) && Some(e.port) == parse_port(port_text_of(host_port_of(after_scheme(uri)))->0),
{
}

/// The query begins at the first `?` and nowhere else: whatever stands in
/// front of it, be it a `#`, is host and port, and all that stands behind
/// it is the query.
pub proof fn lemma_query_begins_at_first_question_mark(hp: Seq<char>, q: Seq<char>)
    requires
        forall|i: int| 0 <= i < hp.len() ==> hp[i] != '?',
    ensures
        host_port_of(hp + seq!['?'] + q) == hp,
        query_of(hp + seq!['?'] + q) == q,
{
    let rest = hp + seq!['?'] + q;
    lemma_first_question_mark(rest, hp.len() as int, 0);
    assert(rest.take(hp.len() as int) =~= hp);
    assert(rest.skip(hp.len() as int + 1) =~= q);
}

/// The first `?` at or after `from` is at `at`, where none stands before.
proof fn lemma_first_question_mark(s: Seq<char>, at: int, from: int)
    requires
        0 <= from <= at < s.len(),
        s[at] == '?',
        forall|i: int| from <= i < at ==> s[i] != '?',
    ensures
        index_of(s, '?', from) == at,
    decreases at - from,
{
    if from < at {
        lemma_first_question_mark(s, at, from + 1);
    }
}

/// A query asks for a listener wherever one of its parameters does: a
/// parameter begins at the start and behind every `&` and `#`.
pub proof fn lemma_listener_parameter_anywhere(q: Seq<char>, from: int, p: int)
    requires
        0 <= from <= p <= q.len(),
        p == from || is_delimiter(q[p - 1]),
        is_listener_pair(q.subrange(p, segment_end(q, p))),
    ensures
        has_listener_mode(q, from),
    decreases p - from,
{
    if from < p {
        lemma_segment_end(q, from);
        let to = segment_end(q, from);
        assert(to <= p - 1);
        lemma_listener_parameter_anywhere(q, to + 1, p);
    }
}

/// A URI whose query holds the parameter `mode=listener` asks for a
/// listener, whatever its host and port are.
pub proof fn lemma_listener_mode_gives_listener(hp: Seq<char>, q: Seq<char>, p: int)
    requires
        forall|i: int| 0 <= i < hp.len() ==> hp[i] != '?',
        0 <= p <= q.len(),
        p == 0 || is_delimiter(q[p - 1]),
        is_listener_pair(q.subrange(p, segment_end(q, p))),
    ensures
        role_of(hp + seq!['?'] + q) == Role::Listener,
{
    lemma_query_begins_at_first_question_mark(hp, q);
    lemma_listener_parameter_anywhere(q, 0, p);
}

/// A remote address is an address that the URI resolves to: whatever
/// names a remote host and port resolves, with that port, and as a caller
/// with that host. A URI that asks for a listener by its `mode` names the
/// same remote address as it would without.
pub proof fn lemma_remote_address_resolves(protocol: Seq<char>, rest: Seq<char>)
    ensures
        remote_address(rest) matches Some(a) ==> (resolve_rest(protocol, rest) matches Some(e)
            && e.port == a.1 && (e.role == Role::Caller ==> e.host == a.0)),
{
    if remote_address(rest) is Some {
        let text = port_text_of(host_port_of(rest))->0;
        assert(number_digits(text) == text) by {
            if text.len() > 0 && text[0] == '+' {
                assert(is_digit(text[0]));
            }
        }
    }
}

/// How long a receive waits for a datagram before it reports a timeout,
/// milliseconds.
pub const RECV_POLL_MS: u64 = 20;

/// The state machine of one endpoint: the URI that it was made from, the
/// address that it binds or reaches, the role that it plays, and where it
/// stands in its life cycle.
#[derive(Debug, PartialEq, Eq)]
pub struct Endpoint {
    /// The URI as it was given.
    pub uri: String,
    /// The host to reach; the wildcard for an endpoint that binds.
    pub host: String,
    pub port: u16,
    pub role: Role,
    pub state: EndpointState,
}

/// What an endpoint does with its socket when it opens.
#[derive(Debug, PartialEq, Eq)]
pub enum SocketPlan {
    /// Bind the wildcard host on `port` and wait for datagrams.
    Bind { port: u16 },
    /// Bind any free local port and take `host` and `port` as the peer.
    Connect { host: String, port: u16 },
}

/// What a receive has come to, as the socket reports it.
#[derive(Debug, PartialEq, Eq)]
pub enum Polled {
    /// So many bytes arrived.
    Data(usize),
    /// The socket failed, with the text of the error.
    Failed(String),
    /// The poll interval ran out.
    Elapsed,
}

/// The description of a URI under the label `prefix`: the label, `=`, and
/// the URI with its secrets masked.
pub open spec fn describe_spec(prefix: Seq<char>, uri: Seq<char>) -> Seq<char> {
    prefix + seq!['='] + redact_uri(uri)
}

/// Describes a URI under the label `prefix`, with its secrets masked.
pub fn describe_with(prefix: &str, uri: &str) -> (r: String)
    ensures
        r@ == describe_spec(prefix@, uri@),
{
    let masked = redact_uri_secrets(uri);
    proof {
        reveal_strlit("=");
        assert("="@ =~= seq!['=']);
    }
    String::from_str(prefix).concat("=").concat(masked.as_str())
}

impl Endpoint {
    /// Whether the endpoint is what its life cycle allows: it stands in
    /// `Init`, in the open state of its role, or in `Closed`, and an
    /// endpoint that binds has the wildcard host, and one that reaches out
    /// has a host to reach.
    pub open spec fn wf(&self) -> bool {
        &&& self.state is Init || self.state == opened_state(self.role) || self.state is Closed
        &&& match self.role {
            Role::Listener => self.host@ == wildcard_host(),
            Role::Caller => self.host@.len() > 0,
        }
    }

    /// The endpoint that receives under the URI `uri`: it binds the
    /// wildcard host on the port of the URI. `scheme` is stripped from the
    /// front of the URI, and `tag` names the protocol.
    pub fn for_input(uri: &str, scheme: &str, tag: &str) -> (r: TResult<Endpoint>)
        ensures
            match resolve_rest(tag@, strip_all(uri@, scheme@)) {
                Some(a) => r matches Ok(e) && e.uri@ == uri@ && e.host@ == wildcard_host() && e.port
                    == a.port && e.role == Role::Listener && e.state == EndpointState::Init,
                None => r matches Err(err) && err.is_invalid_uri(uri@),
            },
            r matches Ok(e) ==> e.wf(),
    {
        let v = chars_of(uri);
        let s = chars_of(scheme);
        let t = chars_of(tag);
        let k = leading_len(v.as_slice(), s.as_slice());
        match resolve_after_scheme(t.as_slice(), slice_subrange(v.as_slice(), k, v.len())) {
            Some(a) => {
                let wildcard: Vec<char> = vec!['0', '.', '0', '.', '0', '.', '0'];
                assert(wildcard@ =~= wildcard_host());
                Ok(
                    Endpoint {
                        uri: String::from_str(uri),
                        host: string_of(wildcard.as_slice()),
                        port: a.port,
                        role: Role::Listener,
                        state: EndpointState::Init,
                    },
                )
            },
            None => Err(TransportError::InvalidUri(String::from_str(uri))),
        }
    }

    /// The endpoint that sends under the URI `uri`: it reaches the remote
    /// host and port that the URI names, whatever role the URI asks for.
    /// `scheme` is stripped from the front of the URI. A URI that names no
    /// remote host or no port is refused as `InvalidUri`.
    pub fn for_output(uri: &str, scheme: &str) -> (r: TResult<Endpoint>)
        ensures
            match remote_address(strip_all(uri@, scheme@)) {
                Some(a) => r matches Ok(e) && e.uri@ == uri@ && e.host@ == a.0 && e.port == a.1
                    && e.role == Role::Caller && e.state == EndpointState::Init,
                None => r matches Err(err) && err.is_invalid_uri(uri@),
            },
            r matches Ok(e) ==> e.wf(),
    {
        let v = chars_of(uri);
        let s = chars_of(scheme);
        let k = leading_len(v.as_slice(), s.as_slice());
        match remote_of_rest(slice_subrange(v.as_slice(), k, v.len())) {
            Some(a) => Ok(
                Endpoint {
                    uri: String::from_str(uri),
                    host: a.0,
                    port: a.1,
                    role: Role::Caller,
                    state: EndpointState::Init,
                },
            ),
            None => Err(TransportError::InvalidUri(String::from_str(uri))),
        }
    }

    /// What the endpoint does with its socket when it opens: a listener
    /// binds the wildcard host on its port, and a caller binds any free
    /// local port and takes its host and port as the peer.
    pub fn socket_plan(&self) -> (r: SocketPlan)
        ensures
            match self.role {
                Role::Listener => r == (SocketPlan::Bind { port: self.port }),
                Role::Caller => r matches SocketPlan::Connect { host, port } && host@ == self.host@
                    && port == self.port,
            },
    {
        match self.role {
            Role::Listener => SocketPlan::Bind { port: self.port },
            Role::Caller => SocketPlan::Connect { host: self.host.clone(), port: self.port },
        }
    }

    /// Opens the endpoint: from `Init` it goes to the open state of its
    /// role. A closed endpoint answers `Closed`, an open one `Other`, and
    /// both stay as they are.
    pub fn open(&mut self) -> (r: TResult<()>)
        ensures
            final(self).state == after_open(old(self).role, old(self).state),
            final(self).role == old(self).role,
            final(self).uri == old(self).uri,
            final(self).host == old(self).host,
            final(self).port == old(self).port,
            r is Ok <==> old(self).state is Init,
            r matches Err(e) ==> if old(self).state is Closed {
                e is Closed
            } else {
                e is Other
            },
            old(self).wf() ==> final(self).wf(),
    {
        match self.state {
            EndpointState::Init => {
                self.state = match self.role {
                    Role::Listener => EndpointState::Listening,
                    Role::Caller => EndpointState::Connected,
                };
                Ok(())
            },
            EndpointState::Closed => Err(TransportError::Closed),
            _ => Err(TransportError::Other(String::from_str("endpoint is already open"))),
        }
    }

    /// Closes the endpoint, whatever its state.
    pub fn close(&mut self)
        ensures
            final(self).state is Closed,
            final(self).role == old(self).role,
            final(self).uri == old(self).uri,
            final(self).host == old(self).host,
            final(self).port == old(self).port,
            old(self).wf() ==> final(self).wf(),
    {
        self.state = EndpointState::Closed;
    }

    /// Whether the endpoint can receive or send: `Closed` is the answer
    /// for an endpoint that is not open.
    pub fn ensure_open(&self) -> (r: TResult<()>)
        ensures
            r is Ok <==> is_open(self.state),
            r matches Err(e) ==> e is Closed,
    {
        match self.state {
            EndpointState::Listening | EndpointState::Connected => Ok(()),
            _ => Err(TransportError::Closed),
        }
    }

    /// What a receive answers after the socket has reported `polled`: the
    /// number of bytes, `Timeout` where the poll interval ran out, `Io`
    /// where the socket failed, and `Closed`, whatever the socket says,
    /// where the endpoint is not open.
    pub fn received(&self, polled: Polled) -> (r: TResult<usize>)
        ensures
            !is_open(self.state) ==> (r matches Err(e) && e is Closed),
            is_open(self.state) ==> match polled {
                Polled::Data(n) => r == Ok::<usize, TransportError>(n),
                Polled::Failed(m) => r matches Err(e) && e == TransportError::Io(m),
                Polled::Elapsed => r matches Err(e) && e is Timeout,
            },
    {
        match self.ensure_open() {
            Ok(()) => {},
            Err(e) => {
                return Err(e);
            },
        }
        match polled {
            Polled::Data(n) => Ok(n),
            Polled::Failed(m) => Err(TransportError::Io(m)),
            Polled::Elapsed => Err(TransportError::Timeout),
        }
    }

    /// What a send answers after the socket has reported `outcome`: the
    /// number of bytes that went out, be they fewer than were given, `Io`
    /// where the socket failed, and `Closed` where the endpoint is not
    /// open.
    pub fn sent(&self, outcome: Result<usize, String>) -> (r: TResult<usize>)
        ensures
            !is_open(self.state) ==> (r matches Err(e) && e is Closed),
            is_open(self.state) ==> match outcome {
                Ok(n) => r == Ok::<usize, TransportError>(n),
                Err(m) => r matches Err(e) && e == TransportError::Io(m),
            },
    {
        match self.ensure_open() {
            Ok(()) => {},
            Err(e) => {
                return Err(e);
            },
        }
        match outcome {
            Ok(n) => Ok(n),
            Err(m) => Err(TransportError::Io(m)),
        }
    }

    /// Describes the endpoint under the label `prefix`, with the secrets of
    /// its URI masked.
    pub fn describe(&self, prefix: &str) -> (r: String)
        ensures
            r@ == describe_spec(prefix@, self.uri@),
    {
        describe_with(prefix, self.uri.as_str())
    }
}

} // verus!
