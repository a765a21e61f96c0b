use vstd::prelude::*;
use vstd::slice::slice_subrange;
use vstd::string::StringExecFns;
use url::Url;
use crate::common::parsed_url::{
    all_kept, decoded_key_of, fragment_of, parse_url, parsed_text, query_fits, query_text_of,
    segment_key,
    url_as_str, url_fragment, url_query, url_set_fragment, url_set_query, url_text,
    with_fragment, with_query, MAX_URL_BYTES,
};
use crate::common::text::{
    append_range, chars_eq_ignoring_case, chars_of, find_char, index_of, lower,
    same_ignoring_case, string_of,
};

verus! {

/// What stands in place of a secret value.
pub open spec fn mask() -> Seq<char> {
    seq!['*', '*', '*']
}

/// The names of the parameters whose values are secret, in lower case.
pub open spec fn secret_keys() -> Seq<Seq<char>> {
    seq![
        seq!['p', 's', 'k'],
        seq!['t', 'o', 'k', 'e', 'n'],
        seq!['p', 'a', 's', 's'],
        seq!['p', 'a', 's', 's', 'w', 'o', 'r', 'd'],
        seq!['s', 'e', 'c', 'r', 'e', 't'],
        seq!['k', 'e', 'y'],
    ]
}

/// Whether `key` names a secret parameter: it is one of `psk`, `token`,
/// `pass`, `password`, `secret` and `key`, in any case of ASCII letters.
pub open spec fn is_secret(key: Seq<char>) -> bool {
    exists|j: int| 0 <= j < secret_keys().len() && same_ignoring_case(key, #[trigger] secret_keys()[j])
}

/// Whether a character ends a value: `&` and `#` do.
pub open spec fn is_delimiter(c: char) -> bool {
    c == '&' || c == '#'
}

/// Whether the `j`-th secret name stands in `s` at `i`, in any case of
/// ASCII letters, with `=` right behind it.
pub open spec fn key_at(s: Seq<char>, i: int, j: int) -> bool {
    let w = secret_keys()[j];
    &&& 0 <= i
    &&& i + w.len() < s.len()
    &&& same_ignoring_case(s.subrange(i, i + w.len()), w)
    &&& s[i + w.len()] == '='
}

/// The length of the secret name that stands in `s` at `i` with `=` right
/// behind it, if there is one.
#[verifier::opaque]
pub open spec fn key_len_at(s: Seq<char>, i: int) -> Option<int> {
    if key_at(s, i, 0) {
        Some(3)
    } else if key_at(s, i, 1) {
        Some(5)
    } else if key_at(s, i, 2) {
        Some(4)
    } else if key_at(s, i, 3) {
        Some(8)
    } else if key_at(s, i, 4) {
        Some(6)
    } else if key_at(s, i, 5) {
        Some(3)
    } else {
        None
    }
}

/// Whether a parameter begins in `s` at `p`: at the start of the text, or
/// right behind `&`, `#` or `?`.
pub open spec fn starts_parameter(s: Seq<char>, p: int) -> bool {
    p == 0 || (0 < p <= s.len() && (is_delimiter(s[p - 1]) || s[p - 1] == '?'))
}

/// The length of the key of the secret parameter that begins in `s` at `p`,
/// if one does: a parameter begins there, and its key, all that stands in
/// front of its `=`, is a secret name. A secret name at the end of a
/// longer key is no such key.
pub open spec fn secret_len_at(s: Seq<char>, p: int) -> Option<int> {
    if starts_parameter(s, p) {
        key_len_at(s, p)
    } else {
        None
    }
}

/// The end of the stretch without `&` and `#` that starts at `from`: the
/// place of the first delimiter at or after `from`, or the length of `s`.
pub open spec fn segment_end(s: Seq<char>, from: int) -> int
    decreases s.len() - from,
{
    if from >= s.len() {
        s.len() as int
    } else if is_delimiter(s[from]) {
        from
    } else {
        segment_end(s, from + 1)
    }
}

/// Where the value begins of the first secret parameter that begins in `s`
/// at or after `from` and before `to`: the place right behind its `=`.
pub open spec fn secret_value_start(s: Seq<char>, from: int, to: int) -> Option<int>
    decreases to - from,
{
    if from >= to {
        None
    } else {
        match secret_len_at(s, from) {
            Some(k) => Some(from + k + 1),
            None => secret_value_start(s, from + 1, to),
        }
    }
}

/// The stretch of `s` from `from` to `to` with its secret value masked: up
/// to the `=` of its first secret parameter it stays as it is, and the mask
/// stands for all that follows. Without a secret parameter it stays whole.
pub open spec fn redact_segment(s: Seq<char>, from: int, to: int) -> Seq<char> {
    match secret_value_start(s, from, to) {
        Some(e) => s.subrange(from, e) + mask(),
        None => s.subrange(from, to),
    }
}

/// `s` from `from` on, with every secret value masked.
///
/// The text is taken stretch by stretch, each ending before the next `&` or
/// `#`; the delimiters stay in place.
pub open spec fn redact_from(s: Seq<char>, from: int) -> Seq<char>
    decreases s.len() - from,
{
    if from < 0 || from > s.len() {
        Seq::empty()
    } else {
        let to = segment_end(s, from);
        if from <= to < s.len() {
            redact_segment(s, from, to) + seq![s[to]] + redact_from(s, to + 1)
        } else {
            redact_segment(s, from, to)
        }
    }
}

/// `s` with every secret value masked: wherever a parameter begins whose
/// key is a secret name, what follows its `=` up to the next `&` or `#`, or
/// to the end, becomes `***`. A parameter begins at the start of the text
/// and behind `&`, `#` and `?`; all other parameters stay as they are.
pub open spec fn redact_kv(s: Seq<char>) -> Seq<char> {
    redact_from(s, 0)
}

/// The secret names as executable data.
fn secret_key_list() -> (keys: Vec<Vec<char>>)
    ensures
        keys@.len() == secret_keys().len(),
        forall|j: int| 0 <= j < keys@.len() ==> (#[trigger] keys@[j])@ == secret_keys()[j],
{
    let mut keys: Vec<Vec<char>> = Vec::new();
    keys.push(vec!['p', 's', 'k']);
    keys.push(vec!['t', 'o', 'k', 'e', 'n']);
    keys.push(vec!['p', 'a', 's', 's']);
    keys.push(vec!['p', 'a', 's', 's', 'w', 'o', 'r', 'd']);
    keys.push(vec!['s', 'e', 'c', 'r', 'e', 't']);
    keys.push(vec!['k', 'e', 'y']);
    assert(keys@[0]@ =~= secret_keys()[0]);
    assert(keys@[1]@ =~= secret_keys()[1]);
    assert(keys@[2]@ =~= secret_keys()[2]);
    assert(keys@[3]@ =~= secret_keys()[3]);
    assert(keys@[4]@ =~= secret_keys()[4]);
    assert(keys@[5]@ =~= secret_keys()[5]);
    keys
}

/// Whether `key` names a secret parameter.
pub fn is_secret_key(key: &str) -> (r: bool)
    ensures
        r == is_secret(key@),
{
    let k = chars_of(key);
    let keys = secret_key_list();
    let mut j: usize = 0;
    while j < keys.len()
        invariant
            j <= keys@.len(),
            k@ == key@,
            keys@.len() == secret_keys().len(),
            forall|i: int| 0 <= i < keys@.len() ==> (#[trigger] keys@[i])@ == secret_keys()[i],
            forall|i: int| 0 <= i < j ==> !same_ignoring_case(key@, #[trigger] secret_keys()[i]),
        decreases keys@.len() - j,
    {
        if chars_eq_ignoring_case(k.as_slice(), keys[j].as_slice()) {
            assert(same_ignoring_case(key@, secret_keys()[j as int]));
            return true;
        }
        j += 1;
    }
    false
}

/// Whether `c` is an ASCII letter.
pub open spec fn is_letter(c: char) -> bool {
    ('a' <= c && c <= 'z') || ('A' <= c && c <= 'Z')
}

/// Every secret name is made of lower-case letters, and is 3 to 8 long.
proof fn lemma_secret_keys_are_letters()
    ensures
        secret_keys().len() == 6,
        secret_keys()[0].len() == 3,
        secret_keys()[1].len() == 5,
        secret_keys()[2].len() == 4,
        secret_keys()[3].len() == 8,
        secret_keys()[4].len() == 6,
        secret_keys()[5].len() == 3,
        forall|j: int, k: int|
            0 <= j < 6 && 0 <= k < secret_keys()[j].len() ==> 'a' <= #[trigger] secret_keys()[j][k]
                <= 'z',
{
    let keys = secret_keys();
    assert forall|j: int, k: int| 0 <= j < 6 && 0 <= k < keys[j].len() implies 'a'
        <= #[trigger] keys[j][k] <= 'z' by {
        if j == 0 {
            assert(keys[0] =~= seq!['p', 's', 'k']);
        } else if j == 1 {
            assert(keys[1] =~= seq!['t', 'o', 'k', 'e', 'n']);
        } else if j == 2 {
            assert(keys[2] =~= seq!['p', 'a', 's', 's']);
        } else if j == 3 {
            assert(keys[3] =~= seq!['p', 'a', 's', 's', 'w', 'o', 'r', 'd']);
        } else if j == 4 {
            assert(keys[4] =~= seq!['s', 'e', 'c', 'r', 'e', 't']);
        } else {
            assert(keys[5] =~= seq!['k', 'e', 'y']);
        }
    }
}

/// Where a secret name stands with `=` behind it, letters stand, and then
/// the `=`.
proof fn lemma_key_at_is_letters(s: Seq<char>, i: int, j: int)
    requires
        0 <= j < 6,
        key_at(s, i, j),
    ensures
        0 <= i,
        i + secret_keys()[j].len() < s.len(),
        forall|p: int| i <= p < i + secret_keys()[j].len() ==> is_letter(#[trigger] s[p]),
        s[i + secret_keys()[j].len()] == '=',
{
    lemma_secret_keys_are_letters();
    let w = secret_keys()[j];
    let window = s.subrange(i, i + w.len());
    assert forall|p: int| i <= p < i + w.len() implies is_letter(#[trigger] s[p]) by {
        assert(window[p - i] == s[p]);
        assert(lower(window[p - i]) == lower(w[p - i]));
        assert('a' <= w[p - i] <= 'z');
    }
}

/// `key_len_at` names a length only where a name of that length stands with
/// `=` behind it: letters, then `=`.
proof fn lemma_key_len_at(s: Seq<char>, i: int)
    ensures
        key_len_at(s, i) matches Some(k) ==> {
            &&& 0 <= i
            &&& 3 <= k <= 8
            &&& i + k < s.len()
            &&& s[i + k] == '='
            &&& forall|p: int| i <= p < i + k ==> is_letter(#[trigger] s[p])
        },
{
    reveal(key_len_at);
    lemma_secret_keys_are_letters();
    if key_at(s, i, 0) {
        lemma_key_at_is_letters(s, i, 0);
    } else if key_at(s, i, 1) {
        lemma_key_at_is_letters(s, i, 1);
    } else if key_at(s, i, 2) {
        lemma_key_at_is_letters(s, i, 2);
    } else if key_at(s, i, 3) {
        lemma_key_at_is_letters(s, i, 3);
    } else if key_at(s, i, 4) {
        lemma_key_at_is_letters(s, i, 4);
    } else if key_at(s, i, 5) {
        lemma_key_at_is_letters(s, i, 5);
    }
}

/// `segment_end` lies between `from` and the length, names a delimiter
/// where it lies inside, and passes over none.
pub(crate) proof fn lemma_segment_end(s: Seq<char>, from: int)
    requires
        0 <= from <= s.len(),
    ensures
        from <= segment_end(s, from) <= s.len(),
        segment_end(s, from) < s.len() ==> is_delimiter(s[segment_end(s, from)]),
        forall|p: int| from <= p < segment_end(s, from) ==> !is_delimiter(#[trigger] s[p]),
    decreases s.len() - from,
{
    if from < s.len() && !is_delimiter(s[from]) {
        lemma_segment_end(s, from + 1);
    }
}

/// The value of a secret parameter that starts inside a stretch without
/// delimiters begins inside that stretch or at its end, and no secret
/// parameter starts before it.
proof fn lemma_secret_value_start(s: Seq<char>, from: int, to: int)
    requires
        0 <= from <= to <= s.len(),
        to == segment_end(s, from),
    ensures
        secret_value_start(s, from, to) matches Some(e) ==> {
            &&& from + 4 <= e <= to
            &&& s[e - 1] == '='
            &&& exists|p: int|
                from <= p < e && secret_len_at(s, p) == Some(e - 1 - p) && forall|q: int|
                    from <= q < p ==> secret_len_at(s, q) is None
        },
        secret_value_start(s, from, to) is None ==> forall|q: int|
            from <= q < to ==> secret_len_at(s, q) is None,
    decreases to - from,
{
    if from < to {
        lemma_segment_end(s, from);
        match secret_len_at(s, from) {
            Some(k) => {
                lemma_key_len_at(s, from);
                // the name and its `=` hold no delimiter, so they end before `to`
                if from + k >= to {
                    if to < s.len() {
                        assert(is_delimiter(s[to]));
                        if to < from + k {
                            assert(is_letter(s[to]));
                        }
                    }
                    assert(false);
                }
                assert(secret_len_at(s, from) == Some(from + k + 1 - 1 - from));
            },
            None => {
                assert(segment_end(s, from + 1) == to);
                lemma_secret_value_start(s, from + 1, to);
                match secret_value_start(s, from + 1, to) {
                    Some(e) => {
                        let p = choose|p: int|
                            from + 1 <= p < e && secret_len_at(s, p) == Some(e - 1 - p) && forall|q: int|
                                from + 1 <= q < p ==> secret_len_at(s, q) is None;
                        assert(forall|q: int| from <= q < p ==> secret_len_at(s, q) is None);
                    },
                    None => {},
                }
            },
        }
    }
}

/// The length of the secret name that stands in `v` at `i` with `=` right
/// behind it, if there is one.
fn find_key_len_at(v: &[char], i: usize, keys: &Vec<Vec<char>>) -> (r: Option<usize>)
    requires
        i <= v@.len(),
        keys@.len() == secret_keys().len(),
        forall|j: int| 0 <= j < keys@.len() ==> (#[trigger] keys@[j])@ == secret_keys()[j],
    ensures
        match r {
            Some(k) => key_len_at(v@, i as int) == Some(k as int),
            None => key_len_at(v@, i as int) is None,
        },
{
    proof {
        lemma_secret_keys_are_letters();
    }
    let mut j: usize = 0;
    while j < keys.len()
        invariant
            j <= keys@.len(),
            i <= v@.len(),
            keys@.len() == 6,
            secret_keys().len() == 6,
            forall|q: int| 0 <= q < keys@.len() ==> (#[trigger] keys@[q])@ == secret_keys()[q],
            forall|q: int| 0 <= q < j ==> !key_at(v@, i as int, q),
        decreases keys@.len() - j,
    {
        let w = keys[j].as_slice();
        if w.len() < v.len() - i {
            let window = slice_subrange(v, i, i + w.len());
            if chars_eq_ignoring_case(window, w) && v[i + w.len()] == '=' {
                proof {
                    reveal(key_len_at);
                    lemma_secret_keys_are_letters();
                }
                assert(key_at(v@, i as int, j as int));
                return Some(w.len());
            }
        }
        assert(!key_at(v@, i as int, j as int));
        j += 1;
    }
    proof {
        reveal(key_len_at);
    }
    None
}

/// The end of the stretch without `&` and `#` that starts at `from`.
fn find_segment_end(v: &[char], from: usize) -> (r: usize)
    requires
        from <= v@.len(),
    ensures
        r == segment_end(v@, from as int),
        from <= r <= v@.len(),
{
    let mut i = from;
    while i < v.len() && v[i] != '&' && v[i] != '#'
        invariant
            from <= i <= v@.len(),
            segment_end(v@, i as int) == segment_end(v@, from as int),
        decreases v@.len() - i,
    {
        i += 1;
    }
    i
}

/// Where the value begins of the first secret parameter that starts at or
/// after `from` and before `to`.
fn find_secret_value_start(v: &[char], from: usize, to: usize, keys: &Vec<Vec<char>>) -> (r: Option<
    usize,
>)
    requires
        from <= to <= v@.len(),
        to == segment_end(v@, from as int),
        keys@.len() == secret_keys().len(),
        forall|j: int| 0 <= j < keys@.len() ==> (#[trigger] keys@[j])@ == secret_keys()[j],
    ensures
        match r {
            Some(e) => secret_value_start(v@, from as int, to as int) == Some(e as int) && from < e
                <= to,
            None => secret_value_start(v@, from as int, to as int) is None,
        },
{
    let mut i = from;
    while i < to
        invariant
            from <= i <= to <= v@.len(),
            to == segment_end(v@, from as int),
            keys@.len() == secret_keys().len(),
            forall|j: int| 0 <= j < keys@.len() ==> (#[trigger] keys@[j])@ == secret_keys()[j],
            secret_value_start(v@, i as int, to as int) == secret_value_start(
                v@,
                from as int,
                to as int,
            ),
        decreases to - i,
    {
        if i == 0 || v[i - 1] == '&' || v[i - 1] == '#' || v[i - 1] == '?' {
            match find_key_len_at(v, i, keys) {
                Some(k) => {
                    proof {
                        lemma_secret_value_start(v@, from as int, to as int);
                        lemma_key_len_at(v@, i as int);
                    }
                    return Some(i + k + 1);
                },
                None => {},
            }
        }
        i += 1;
    }
    None
}

/// The characters `v` with every secret value masked.
pub fn redact_chars(v: &[char]) -> (out: Vec<char>)
    ensures
        out@ == redact_kv(v@),
{
    let keys = secret_key_list();
    let mut out: Vec<char> = Vec::new();
    let mut from: usize = 0;
    loop
        invariant_except_break
            from <= v@.len(),
            keys@.len() == secret_keys().len(),
            forall|j: int| 0 <= j < keys@.len() ==> (#[trigger] keys@[j])@ == secret_keys()[j],
            out@ + redact_from(v@, from as int) == redact_kv(v@),
        ensures
            out@ == redact_kv(v@),
        decreases v@.len() - from,
    {
        let to = find_segment_end(v, from);
        let ghost before = out@;
        match find_secret_value_start(v, from, to, &keys) {
            Some(e) => {
                append_range(&mut out, v, from, e);
                out.push('*');
                out.push('*');
                out.push('*');
                assert(out@ =~= before + redact_segment(v@, from as int, to as int));
            },
            None => {
                append_range(&mut out, v, from, to);
                assert(out@ =~= before + redact_segment(v@, from as int, to as int));
            },
        }
        if to >= v.len() {
            assert(redact_from(v@, from as int) == redact_segment(v@, from as int, to as int));
            break;
        }
        out.push(v[to]);
        assert(out@ =~= before + (redact_segment(v@, from as int, to as int) + seq![v@[to as int]]));
        assert(before + redact_from(v@, from as int) =~= out@ + redact_from(v@, to + 1));
        from = to + 1;
    }
    out
}

/// `s` with every secret value masked: wherever a parameter begins whose
/// key is a secret name, what follows its `=` up to the next `&` or `#`, or
/// to the end, becomes `***`. A parameter begins at the start of the text
/// and behind `&`, `#` and `?`; all other parameters stay as they are.
pub fn redact_kv_like(s: &str) -> (r: String)
    ensures
        r@ == redact_kv(s@),
{
    let v = chars_of(s);
    let out = redact_chars(v.as_slice());
    string_of(out.as_slice())
}

/// Whether a secret name stands at a place depends on nothing but the
/// characters from that place to the `=`: where `b` at `ib` holds what `a`
/// holds at `ia`, up to and with the `=`, the same name stands in both.
proof fn lemma_key_len_at_transfer(a: Seq<char>, ia: int, b: Seq<char>, ib: int)
    requires
        key_len_at(a, ia) is Some,
        0 <= ib,
        ib + key_len_at(a, ia)->0 < b.len(),
        forall|p: int| ib <= p <= ib + key_len_at(a, ia)->0 ==> #[trigger] b[p] == a[p - ib + ia],
    ensures
        key_len_at(b, ib) == key_len_at(a, ia),
{
    reveal(key_len_at);
    lemma_secret_keys_are_letters();
    lemma_key_len_at(a, ia);
    let k = key_len_at(a, ia)->0;
    assert forall|j: int| 0 <= j < 6 implies key_at(b, ib, j) == key_at(a, ia, j) by {
        let w = secret_keys()[j];
        if w.len() <= k {
            if ia + w.len() < a.len() && ib + w.len() < b.len() {
                assert(a.subrange(ia, ia + w.len()) =~= b.subrange(ib, ib + w.len()));
            }
        } else {
            // the `=` of the shorter name stands where this name wants a letter
            if key_at(a, ia, j) {
                lemma_key_at_is_letters(a, ia, j);
                assert(is_letter(a[ia + k]));
            }
            if key_at(b, ib, j) {
                lemma_key_at_is_letters(b, ib, j);
                assert(is_letter(b[ib + k]));
            }
        }
    }
}

/// A stretch that holds no delimiter and ends at a delimiter, or at the end
/// of the text, ends where `segment_end` says.
proof fn lemma_segment_end_is(s: Seq<char>, from: int, to: int)
    requires
        0 <= from <= to <= s.len(),
        forall|p: int| from <= p < to ==> !is_delimiter(#[trigger] s[p]),
        to < s.len() ==> is_delimiter(s[to]),
    ensures
        segment_end(s, from) == to,
    decreases to - from,
{
    if from < to {
        lemma_segment_end_is(s, from + 1, to);
    }
}

/// The first place in a stretch where a secret parameter begins decides
/// where the secret value starts.
proof fn lemma_secret_value_start_is(s: Seq<char>, from: int, to: int, p: int)
    requires
        from <= p < to,
        secret_len_at(s, p) is Some,
        forall|q: int| from <= q < p ==> secret_len_at(s, q) is None,
    ensures
        secret_value_start(s, from, to) == Some(p + secret_len_at(s, p)->0 + 1),
    decreases p - from,
{
    if from < p {
        lemma_secret_value_start_is(s, from + 1, to, p);
    }
}

/// A stretch in which no secret parameter begins has no secret value.
proof fn lemma_secret_value_start_none(s: Seq<char>, from: int, to: int)
    requires
        forall|q: int| from <= q < to ==> secret_len_at(s, q) is None,
    ensures
        secret_value_start(s, from, to) is None,
    decreases to - from,
{
    if from < to {
        lemma_secret_value_start_none(s, from + 1, to);
    }
}

/// A masked stretch holds no delimiter.
proof fn lemma_redact_segment_has_no_delimiter(s: Seq<char>, from: int)
    requires
        0 <= from <= s.len(),
    ensures
        forall|p: int|
            0 <= p < redact_segment(s, from, segment_end(s, from)).len() ==> !is_delimiter(
                #[trigger] redact_segment(s, from, segment_end(s, from))[p],
            ),
{
    let to = segment_end(s, from);
    lemma_segment_end(s, from);
    lemma_secret_value_start(s, from, to);
    let seg = redact_segment(s, from, to);
    assert forall|p: int| 0 <= p < seg.len() implies !is_delimiter(#[trigger] seg[p]) by {
        match secret_value_start(s, from, to) {
            Some(e) => {
                if p < e - from {
                    assert(seg[p] == s[from + p]);
                } else {
                    assert(seg[p] == mask()[p - (e - from)]);
                }
            },
            None => {
                assert(seg[p] == s[from + p]);
            },
        }
    }
}

/// How much of a masked stretch is copied from the text: all up to the
/// mask, or the whole of it where nothing is masked.
spec fn copied_len(s: Seq<char>, from: int) -> int {
    match secret_value_start(s, from, segment_end(s, from)) {
        Some(e) => e - from,
        None => segment_end(s, from) - from,
    }
}

/// Where `x` holds a masked stretch from `b` on, a parameter beginning
/// there as in the text.
spec fn holds_segment(s: Seq<char>, from: int, x: Seq<char>, b: int) -> bool {
    let seg = redact_segment(s, from, segment_end(s, from));
    &&& 0 <= from <= s.len()
    &&& 0 <= b
    &&& b + seg.len() <= x.len()
    &&& starts_parameter(s, from)
    &&& starts_parameter(x, b)
    &&& forall|p: int| b <= p < b + seg.len() ==> #[trigger] x[p] == seg[p - b]
    &&& b + seg.len() < x.len() ==> is_delimiter(x[b + seg.len()])
}

/// A secret parameter that begins inside a masked stretch begins in the
/// part that was copied from the text, and began in the text at the same
/// place.
proof fn lemma_names_lie_in_copy(s: Seq<char>, from: int, x: Seq<char>, b: int, q: int)
    requires
        holds_segment(s, from, x, b),
        b <= q < b + redact_segment(s, from, segment_end(s, from)).len(),
        secret_len_at(x, q) is Some,
    ensures
        q + secret_len_at(x, q)->0 < b + copied_len(s, from),
        secret_len_at(s, from + q - b) == secret_len_at(x, q),
{
    let to = segment_end(s, from);
    let seg = redact_segment(s, from, to);
    let n = b + seg.len();
    let copied = copied_len(s, from);
    lemma_segment_end(s, from);
    lemma_secret_value_start(s, from, to);
    lemma_key_len_at(x, q);
    let k = key_len_at(x, q)->0;
    assert(0 <= copied <= seg.len());
    if q + k >= b + copied {
        // the place `b + copied` would hold a letter or `=`
        if b + copied < n {
            assert(x[b + copied] == seg[copied]);
            assert(seg[copied] == mask()[0]);
            if q <= b + copied {
                assert(is_letter(x[b + copied]) || x[b + copied] == '=');
            } else {
                // the name would start inside the mask
                assert(x[q] == seg[q - b]);
                assert(seg[q - b] == mask()[q - b - copied]);
                assert(is_letter(x[q]));
            }
        } else {
            assert(is_letter(x[n]) || x[n] == '=');
        }
        assert(false);
    }
    assert forall|p: int| from + q - b <= p <= from + q - b + k implies #[trigger] s[p] == x[p - (
    from + q - b) + q] by {
        assert(x[p - from + b] == seg[p - from]);
        assert(seg[p - from] == s[p]);
    }
    lemma_key_len_at_transfer(x, q, s, from + q - b);
    // a parameter begins at the same place in the text
    if q > b {
        assert(x[q - 1] == seg[q - 1 - b]);
        assert(seg[q - 1 - b] == s[from + q - 1 - b]);
    }
    assert(starts_parameter(s, from + q - b));
}

/// Masking a masked stretch changes nothing, wherever the stretch stands:
/// where `x` holds the masked stretch from `b` on, and behind it ends or
/// holds a delimiter.
proof fn lemma_redact_segment_again(s: Seq<char>, from: int, x: Seq<char>, b: int)
    requires
        holds_segment(s, from, x, b),
    ensures
        segment_end(x, b) == b + redact_segment(s, from, segment_end(s, from)).len(),
        redact_segment(x, b, b + redact_segment(s, from, segment_end(s, from)).len())
            == redact_segment(s, from, segment_end(s, from)),
{
    let to = segment_end(s, from);
    let seg = redact_segment(s, from, to);
    let n = b + seg.len();
    lemma_segment_end(s, from);
    lemma_secret_value_start(s, from, to);
    lemma_redact_segment_has_no_delimiter(s, from);
    lemma_segment_end_is(x, b, n);
    match secret_value_start(s, from, to) {
        Some(e) => {
            let p = choose|p: int|
                from <= p < e && secret_len_at(s, p) == Some(e - 1 - p) && forall|q: int|
                    from <= q < p ==> secret_len_at(s, q) is None;
            let k = e - 1 - p;
            assert forall|i: int| b + p - from <= i <= b + p - from + k implies #[trigger] x[i]
                == s[i - (b + p - from) + p] by {
                assert(x[i] == seg[i - b]);
                assert(seg[i - b] == s[from + (i - b)]);
            }
            lemma_key_len_at_transfer(s, p, x, b + p - from);
            if p > from {
                assert(x[b + p - from - 1] == seg[p - from - 1]);
                assert(seg[p - from - 1] == s[p - 1]);
            }
            assert(starts_parameter(x, b + p - from));
            assert(secret_len_at(x, b + p - from) == Some(k));
            assert forall|q: int| b <= q < b + p - from implies secret_len_at(x, q) is None by {
                if secret_len_at(x, q) is Some {
                    lemma_names_lie_in_copy(s, from, x, b, q);
                    assert(secret_len_at(s, from + q - b) is Some);
                }
            }
            lemma_secret_value_start_is(x, b, n, b + p - from);
            assert(x.subrange(b, b + e - from) =~= s.subrange(from, e));
        },
        None => {
            assert forall|q: int| b <= q < n implies secret_len_at(x, q) is None by {
                if secret_len_at(x, q) is Some {
                    lemma_names_lie_in_copy(s, from, x, b, q);
                    assert(secret_len_at(s, from + q - b) is Some);
                }
            }
            lemma_secret_value_start_none(x, b, n);
            assert(x.subrange(b, n) =~= seg);
        },
    }
}

/// Masking what has been masked changes nothing, where the masked text
/// stands at the start or behind a delimiter, as it did in the text.
proof fn lemma_redact_from_again(s: Seq<char>, from: int, before: Seq<char>)
    requires
        0 <= from <= s.len(),
        from > 0 ==> is_delimiter(s[from - 1]),
        before.len() > 0 ==> is_delimiter(before.last()),
    ensures
        redact_from(before + redact_from(s, from), before.len() as int) == redact_from(s, from),
    decreases s.len() - from,
{
    let to = segment_end(s, from);
    let seg = redact_segment(s, from, to);
    let o = redact_from(s, from);
    let x = before + o;
    let b = before.len() as int;
    lemma_segment_end(s, from);
    assert(starts_parameter(s, from));
    assert(starts_parameter(x, b)) by {
        if b > 0 {
            assert(x[b - 1] == before.last());
        }
    }
    if to < s.len() {
        let rest = redact_from(s, to + 1);
        assert(o == seg + seq![s[to]] + rest);
        assert(x[b + seg.len()] == s[to]);
        assert(holds_segment(s, from, x, b));
        lemma_redact_segment_again(s, from, x, b);
        let before2 = before + seg + seq![s[to]];
        assert(x =~= before2 + rest);
        assert(before2.last() == s[to]);
        lemma_redact_from_again(s, to + 1, before2);
        assert(redact_from(x, b) == redact_segment(x, b, b + seg.len()) + seq![x[b + seg.len()]]
            + redact_from(x, b + seg.len() + 1));
    } else {
        assert(o == seg);
        assert(holds_segment(s, from, x, b));
        lemma_redact_segment_again(s, from, x, b);
    }
}

/// Masking is idempotent: a text that has been masked is left as it is by
/// masking it again.
pub proof fn lemma_redact_kv_idempotent(s: Seq<char>)
    ensures
        redact_kv(redact_kv(s)) == redact_kv(s),
{
    lemma_redact_from_again(s, 0, Seq::empty());
    assert(Seq::<char>::empty() + redact_kv(s) =~= redact_kv(s));
}

/// Whether the parameter `segment` of a query is secret: its name, decoded,
/// is a secret name.
pub open spec fn segment_is_secret(segment: Seq<char>) -> bool {
    decoded_key_of(segment) matches Some(k) && is_secret(k)
}

/// The parameter `segment` of a query with its value masked if it is
/// secret: its name stays as it is written, and `=***` follows. Any other
/// parameter stays as it is.
pub open spec fn masked_segment(segment: Seq<char>) -> Seq<char> {
    if segment_is_secret(segment) {
        segment.take(index_of(segment, '=', 0)) + seq!['='] + mask()
    } else {
        segment
    }
}

/// The query `q` from `from` on with the value of every secret parameter
/// masked. The parameters are parted by `&`, which stays in place.
pub open spec fn masked_query_from(q: Seq<char>, from: int) -> Seq<char>
    decreases q.len() - from,
{
    if from < 0 || from > q.len() {
        Seq::empty()
    } else {
        let to = index_of(q, '&', from);
        if from <= to < q.len() {
            masked_segment(q.subrange(from, to)) + seq!['&'] + masked_query_from(q, to + 1)
        } else {
            masked_segment(q.subrange(from, q.len() as int))
        }
    }
}

/// The query `q` with the value of every secret parameter masked: the
/// parameters keep their order and their names as written, and every
/// parameter that is not secret stays as it is, letter for letter.
pub open spec fn masked_query(q: Seq<char>) -> Seq<char> {
    masked_query_from(q, 0)
}

/// The URL text `text` with the secret values in its query masked, if it
/// has a query with a secret in it and room for the masked query; `None`
/// where the room is missing.
pub open spec fn redact_query(text: Seq<char>) -> Option<Seq<char>> {
    match query_text_of(text) {
        Some(q) => if masked_query(q) == q {
            Some(text)
        } else if query_fits(text, masked_query(q)) {
            Some(with_query(text, masked_query(q)))
        } else {
            None
        },
        None => Some(text),
    }
}

/// The URL text `text` with the secret values in its fragment masked, if it
/// has a fragment.
pub open spec fn redact_fragment(text: Seq<char>) -> Seq<char> {
    match fragment_of(text) {
        Some(f) => with_fragment(text, redact_kv(f)),
        None => text,
    }
}

/// Whether the URL text `out` shows the query of the URL text `text`
/// masked: where `text` has a query whose masked form is made of characters
/// that the URL writer leaves as they are, that masked form is the query
/// of `out`, parameter for parameter; and where `text` has no query, `out`
/// has none.
pub open spec fn shows_masked_query(text: Seq<char>, out: Seq<char>) -> bool {
    match query_text_of(text) {
        Some(q) => all_kept(masked_query(q)) ==> query_text_of(out) == Some(masked_query(q)),
        None => query_text_of(out) is None,
    }
}

/// Whether the URL text `out` shows the fragment of the URL text `text`
/// masked: where `text` has a fragment whose masked form is made of
/// characters that the URL writer leaves as they are, that masked form is
/// the fragment of `out`; and where `text` has no fragment, `out` has none.
pub open spec fn shows_masked_fragment(text: Seq<char>, out: Seq<char>) -> bool {
    match fragment_of(text) {
        Some(f) => all_kept(redact_kv(f)) ==> fragment_of(out) == Some(redact_kv(f)),
        None => fragment_of(out) is None,
    }
}

/// What `redact_uri_secrets` makes of `input`.
///
/// Where `input` parses as a URL, the secret values among the parameters of
/// its query are masked, and then the secret values in its fragment; a URL
/// without a secret in its query keeps its query untouched. Where `input`
/// does not parse, or where the URL has no room for the masked query, the
/// secret values are masked in the text as it stands.
pub open spec fn redact_uri(input: Seq<char>) -> Seq<char> {
    match parsed_text(input) {
        Some(text) => match redact_query(text) {
            Some(masked) => redact_fragment(masked),
            None => redact_kv(input),
        },
        None => redact_kv(input),
    }
}

/// The query `q` with the value of every secret parameter replaced by
/// `***`; names, other parameters and order stay as they are written.
pub fn mask_query(q: &str) -> (r: String)
    ensures
        r@ == masked_query(q@),
{
    let v = chars_of(q);
    let mut out: Vec<char> = Vec::new();
    let mut from: usize = 0;
    loop
        invariant_except_break
            from <= v@.len(),
            out@ + masked_query_from(v@, from as int) == masked_query(v@),
        ensures
            out@ == masked_query(v@),
        decreases v@.len() - from,
    {
        let to = find_char(v.as_slice(), '&', from);
        let segment = slice_subrange(v.as_slice(), from, to);
        let ghost before = out@;
        let text = string_of(segment);
        let secret = match segment_key(text.as_str()) {
            Some(k) => is_secret_key(k.as_str()),
            None => false,
        };
        assert(secret == segment_is_secret(segment@));
        if secret {
            let eq = find_char(segment, '=', 0);
            append_range(&mut out, segment, 0, eq);
            out.push('=');
            out.push('*');
            out.push('*');
            out.push('*');
            assert(out@ =~= before + masked_segment(segment@));
        } else {
            append_range(&mut out, segment, 0, segment.len());
            assert(out@ =~= before + masked_segment(segment@));
        }
        if to >= v.len() {
            break;
        }
        out.push('&');
        assert(before + masked_query_from(v@, from as int) =~= out@ + masked_query_from(
            v@,
            to + 1,
        ));
        from = to + 1;
    }
    string_of(out.as_slice())
}

/// Masks the secret values in the fragment of `u`, if it has a fragment,
/// and hands out the text of the URL.
fn finish_with_fragment(u: Url) -> (r: String)
    ensures
        r@ == redact_fragment(url_text(u)),
        query_text_of(r@) == query_text_of(url_text(u)),
        shows_masked_fragment(url_text(u), r@),
{
    let mut u = u;
    match url_fragment(&u) {
        Some(f) => {
            let masked = redact_kv_like(f.as_str());
            url_set_fragment(&mut u, masked.as_str());
        },
        None => {},
    }
    String::from_str(url_as_str(&u))
}

/// Masks the secret values in the query of `u`, if there are any. Answers
/// `false`, with `u` untouched, where the URL has no room for the masked
/// query.
fn mask_url_query(u: &mut Url) -> (done: bool)
    ensures
        match redact_query(url_text(*old(u))) {
            Some(masked) => done && url_text(*final(u)) == masked,
            None => !done && url_text(*final(u)) == url_text(*old(u)),
        },
        fragment_of(url_text(*final(u))) == fragment_of(url_text(*old(u))),
        done ==> shows_masked_query(url_text(*old(u)), url_text(*final(u))),
{
    match url_query(u) {
        Some(q) => {
            let masked = mask_query(q.as_str());
            if masked == q {
                return true;
            }
            let text_len = url_as_str(u).as_bytes().len();
            let query_len = masked.as_str().as_bytes().len();
            if text_len > MAX_URL_BYTES || query_len > (MAX_URL_BYTES - text_len) / 3 {
                return false;
            }
            url_set_query(u, masked.as_str());
            true
        },
        None => true,
    }
}

/// Masks the secret values in a URI before it is shown or logged.
///
/// Parameters named `psk`, `token`, `pass`, `password`, `secret` or `key`,
/// in any case of letters, get the value `***`, in the query and in the
/// fragment; every other parameter stays as it is. A text that is no URL
/// is masked as it stands. Never fails.
///
/// Of the URL that comes out this much is stated beyond its name: its query
/// is the masked query of the URL that went in, and its fragment the
/// masked fragment, wherever these are made of characters that the URL
/// writer leaves as they are.
pub fn redact_uri_secrets(input: &str) -> (r: String)
    ensures
        r@ == redact_uri(input@),
        parsed_text(input@) matches Some(text) ==> (redact_query(text) is Some
            ==> shows_masked_query(text, r@) && shows_masked_fragment(text, r@)),
{
    match parse_url(input) {
        Ok(u) => {
            let mut u = u;
            if mask_url_query(&mut u) {
                finish_with_fragment(u)
            } else {
                redact_kv_like(input)
            }
        },
        Err(_) => redact_kv_like(input),
    }
}

/// The parameters of a query stay in place: a masked parameter holds no
/// `&`, and is its name as written with `=***` behind, and a parameter
/// that is not secret is left as it is.
pub proof fn lemma_masked_segment_keeps_its_place(segment: Seq<char>)
    requires
        forall|i: int| 0 <= i < segment.len() ==> #[trigger] segment[i] != '&',
    ensures
        forall|i: int|
            0 <= i < masked_segment(segment).len() ==> #[trigger] masked_segment(segment)[i] != '&',
        !segment_is_secret(segment) ==> masked_segment(segment) == segment,
        segment_is_secret(segment) ==> masked_segment(segment) == segment.take(
            index_of(segment, '=', 0),
        ) + seq!['=', '*', '*', '*'],
{
    lemma_index_of_bounds(segment, '=', 0);
    let m = masked_segment(segment);
    let e = index_of(segment, '=', 0);
    if segment_is_secret(segment) {
        assert(m =~= segment.take(e) + seq!['=', '*', '*', '*']);
        assert forall|i: int| 0 <= i < m.len() implies #[trigger] m[i] != '&' by {
            if i < e {
                assert(m[i] == segment[i]);
            }
        }
    }
}

/// `index_of` lies between `from` and the length.
proof fn lemma_index_of_bounds(s: Seq<char>, c: char, from: int)
    requires
        0 <= from <= s.len(),
    ensures
        from <= index_of(s, c, from) <= s.len(),
        index_of(s, c, from) < s.len() ==> s[index_of(s, c, from)] == c,
        forall|i: int| from <= i < index_of(s, c, from) ==> s[i] != c,
    decreases s.len() - from,
{
    if from < s.len() && s[from] != c {
        lemma_index_of_bounds(s, c, from + 1);
    }
}

/// A query without a secret parameter is left as it is.
pub proof fn lemma_masked_query_keeps_plain_query(q: Seq<char>)
    requires
        forall|a: int, b: int| 0 <= a <= b <= q.len() ==> !segment_is_secret(#[trigger] q.subrange(a, b)),
    ensures
        masked_query(q) == q,
{
    lemma_masked_query_from_keeps_plain_query(q, 0);
    assert(q.subrange(0, q.len() as int) =~= q);
}

/// From `from` on, a query without a secret parameter is left as it is.
proof fn lemma_masked_query_from_keeps_plain_query(q: Seq<char>, from: int)
    requires
        0 <= from <= q.len(),
        forall|a: int, b: int| 0 <= a <= b <= q.len() ==> !segment_is_secret(#[trigger] q.subrange(a, b)),
    ensures
        masked_query_from(q, from) == q.subrange(from, q.len() as int),
    decreases q.len() - from,
{
    let to = index_of(q, '&', from);
    lemma_index_of_bounds(q, '&', from);
    if to < q.len() {
        lemma_masked_query_from_keeps_plain_query(q, to + 1);
        assert(!segment_is_secret(q.subrange(from, to)));
        assert(q.subrange(from, to) + seq!['&'] + q.subrange(to + 1, q.len() as int) =~= q.subrange(
            from,
            q.len() as int,
        ));
    } else {
        assert(!segment_is_secret(q.subrange(from, q.len() as int)));
    }
}

/// The test for `&`, as a value.
pub open spec fn ampersand_test() -> spec_fn(char) -> bool {
    |c: char| c == '&'
}

/// The `&` of a query, one for each place where two parameters meet.
pub open spec fn ampersands(q: Seq<char>) -> Seq<char> {
    q.filter(ampersand_test())
}

/// A text without `&` has none.
proof fn lemma_ampersands_of_plain(x: Seq<char>)
    requires
        forall|p: int| 0 <= p < x.len() ==> #[trigger] x[p] != '&',
    ensures
        ampersands(x) == Seq::<char>::empty(),
    decreases x.len(),
{
    reveal(Seq::filter);
    if x.len() > 0 {
        lemma_ampersands_of_plain(x.drop_last());
    }
}

/// An `&` alone is its own `&`.
proof fn lemma_ampersands_of_one()
    ensures
        ampersands(seq!['&']) == seq!['&'],
{
    reveal(Seq::filter);
    let d = seq!['&'];
    let none = Seq::<char>::empty();
    assert(d.len() == 1);
    assert(d.last() == '&');
    assert(d.drop_last() =~= none);
    assert(none.filter(ampersand_test()) =~= none);
    assert(ampersand_test()('&'));
    assert(none.push('&') =~= d);
    assert(d.filter(ampersand_test()) == d.drop_last().filter(ampersand_test()).push(d.last()));
}

/// The `&` of a parameter without `&`, an `&` and a rest are that `&` and
/// the `&` of the rest.
proof fn lemma_ampersands_of_parts(plain: Seq<char>, rest: Seq<char>)
    requires
        forall|p: int| 0 <= p < plain.len() ==> #[trigger] plain[p] != '&',
    ensures
        ampersands(plain + seq!['&'] + rest) == seq!['&'] + ampersands(rest),
{
    let d = seq!['&'];
    lemma_ampersands_of_plain(plain);
    lemma_ampersands_of_one();
    Seq::filter_distributes_over_add(plain, d, ampersand_test());
    assert(ampersands(plain + d) == d) by {
        assert(Seq::<char>::empty() + d =~= d);
    }
    Seq::filter_distributes_over_add(plain + d, rest, ampersand_test());
}

/// From `from` on, masking a query keeps its `&`.
proof fn lemma_masked_query_from_keeps_ampersands(q: Seq<char>, from: int)
    requires
        0 <= from <= q.len(),
    ensures
        ampersands(masked_query_from(q, from)) == ampersands(q.subrange(from, q.len() as int)),
    decreases q.len() - from,
{
    let to = index_of(q, '&', from);
    lemma_index_of_bounds(q, '&', from);
    let plain = q.subrange(from, to);
    assert forall|p: int| 0 <= p < plain.len() implies #[trigger] plain[p] != '&' by {
        assert(plain[p] == q[from + p]);
    }
    let seg = masked_segment(plain);
    lemma_masked_segment_keeps_its_place(plain);
    if to < q.len() {
        let rest = masked_query_from(q, to + 1);
        let tail = q.subrange(to + 1, q.len() as int);
        lemma_masked_query_from_keeps_ampersands(q, to + 1);
        assert(ampersands(rest) == ampersands(tail));
        assert(masked_query_from(q, from) == seg + seq!['&'] + rest);
        lemma_ampersands_of_parts(seg, rest);
        assert(q.subrange(from, q.len() as int) =~= plain + seq!['&'] + tail);
        lemma_ampersands_of_parts(plain, tail);
    } else {
        assert(masked_query_from(q, from) == seg);
        assert(q.subrange(from, q.len() as int) =~= plain);
        lemma_ampersands_of_plain(seg);
        lemma_ampersands_of_plain(plain);
    }
}

/// Masking a query keeps its parameters in their number and order: the
/// masked query has the `&` of the query, each between the same
/// parameters, and of each parameter `lemma_masked_segment_keeps_its_place`
/// says what becomes of it.
pub proof fn lemma_masked_query_keeps_ampersands(q: Seq<char>)
    ensures
        ampersands(masked_query(q)) == ampersands(q),
{
    lemma_masked_query_from_keeps_ampersands(q, 0);
    assert(q.subrange(0, q.len() as int) =~= q);
}

/// A text in which no secret parameter begins is left as it is.
pub proof fn lemma_redact_kv_keeps_plain_text(s: Seq<char>)
    requires
        forall|q: int| 0 <= q < s.len() ==> secret_len_at(s, q) is None,
    ensures
        redact_kv(s) == s,
{
    lemma_redact_from_keeps_plain_text(s, 0);
    assert(s.subrange(0, s.len() as int) =~= s);
}

/// From `from` on, a text in which no secret parameter begins is left as
/// it is.
proof fn lemma_redact_from_keeps_plain_text(s: Seq<char>, from: int)
    requires
        0 <= from <= s.len(),
        forall|q: int| 0 <= q < s.len() ==> secret_len_at(s, q) is None,
    ensures
        redact_from(s, from) == s.subrange(from, s.len() as int),
    decreases s.len() - from,
{
    let to = segment_end(s, from);
    lemma_segment_end(s, from);
    lemma_secret_value_start_none(s, from, to);
    if to < s.len() {
        lemma_redact_from_keeps_plain_text(s, to + 1);
        assert(s.subrange(from, to) + seq![s[to]] + s.subrange(to + 1, s.len() as int)
            =~= s.subrange(from, s.len() as int));
    }
}

/// Every secret value is hidden: where a secret parameter begins in a
/// stretch, the masked stretch keeps the text up to the `=` of the first
/// such parameter and ends in `***`; nothing of the value is left. A
/// stretch in which no secret parameter begins stays whole.
pub proof fn lemma_redact_segment_hides_value(s: Seq<char>, from: int)
    requires
        0 <= from <= s.len(),
    ensures
        match secret_value_start(s, from, segment_end(s, from)) {
            Some(e) => {
                &&& from < e <= segment_end(s, from)
                &&& s[e - 1] == '='
                &&& redact_segment(s, from, segment_end(s, from)) == s.subrange(from, e) + mask()
                &&& redact_segment(s, from, segment_end(s, from)).len() == e - from + 3
            },
            None => redact_segment(s, from, segment_end(s, from)) == s.subrange(
                from,
                segment_end(s, from),
            ),
        },
{
    lemma_segment_end(s, from);
    lemma_secret_value_start(s, from, segment_end(s, from));
}

/// The test for a delimiter, as a value.
pub open spec fn delimiter_test() -> spec_fn(char) -> bool {
    |c: char| is_delimiter(c)
}

/// The delimiters of a text, in their order.
pub open spec fn delimiters(s: Seq<char>) -> Seq<char> {
    s.filter(delimiter_test())
}

/// A text without delimiters has none.
proof fn lemma_delimiters_of_plain(x: Seq<char>)
    requires
        forall|p: int| 0 <= p < x.len() ==> !is_delimiter(#[trigger] x[p]),
    ensures
        delimiters(x) == Seq::<char>::empty(),
    decreases x.len(),
{
    reveal(Seq::filter);
    if x.len() > 0 {
        lemma_delimiters_of_plain(x.drop_last());
    }
}

/// A delimiter alone is its own delimiters.
proof fn lemma_delimiters_of_one(c: char)
    requires
        is_delimiter(c),
    ensures
        delimiters(seq![c]) == seq![c],
{
    reveal(Seq::filter);
    let d = seq![c];
    let none = Seq::<char>::empty();
    assert(d.len() == 1);
    assert(d.last() == c);
    assert(d.drop_last() =~= none);
    assert(none.filter(delimiter_test()) =~= none);
    assert(delimiter_test()(c));
    assert(none.push(c) =~= d);
    assert(d.filter(delimiter_test()) == d.drop_last().filter(delimiter_test()).push(d.last()));
}

/// The delimiters of a stretch without delimiters, a delimiter and a rest
/// are that delimiter and the delimiters of the rest.
proof fn lemma_delimiters_of_parts(plain: Seq<char>, d: char, rest: Seq<char>)
    requires
        forall|p: int| 0 <= p < plain.len() ==> !is_delimiter(#[trigger] plain[p]),
        is_delimiter(d),
    ensures
        delimiters(plain + seq![d] + rest) == seq![d] + delimiters(rest),
{
    lemma_delimiters_of_plain(plain);
    lemma_delimiters_of_one(d);
    Seq::filter_distributes_over_add(plain, seq![d], delimiter_test());
    assert(delimiters(plain + seq![d]) == seq![d]) by {
        assert(Seq::<char>::empty() + seq![d] =~= seq![d]);
    }
    Seq::filter_distributes_over_add(plain + seq![d], rest, delimiter_test());
}

/// From `from` on, masking keeps the delimiters.
proof fn lemma_redact_from_keeps_delimiters(s: Seq<char>, from: int)
    requires
        0 <= from <= s.len(),
    ensures
        delimiters(redact_from(s, from)) == delimiters(s.subrange(from, s.len() as int)),
    decreases s.len() - from,
{
    let to = segment_end(s, from);
    let seg = redact_segment(s, from, to);
    let plain = s.subrange(from, to);
    lemma_segment_end(s, from);
    lemma_redact_segment_has_no_delimiter(s, from);
    assert forall|p: int| 0 <= p < plain.len() implies !is_delimiter(#[trigger] plain[p]) by {
        assert(plain[p] == s[from + p]);
    }
    if to < s.len() {
        let rest = redact_from(s, to + 1);
        let tail = s.subrange(to + 1, s.len() as int);
        lemma_redact_from_keeps_delimiters(s, to + 1);
        assert(delimiters(rest) == delimiters(tail));
        assert(redact_from(s, from) == seg + seq![s[to]] + rest);
        lemma_delimiters_of_parts(seg, s[to], rest);
        assert(s.subrange(from, s.len() as int) =~= plain + seq![s[to]] + tail);
        lemma_delimiters_of_parts(plain, s[to], tail);
    } else {
        assert(redact_from(s, from) == seg);
        assert(s.subrange(from, s.len() as int) =~= plain);
        lemma_delimiters_of_plain(seg);
        lemma_delimiters_of_plain(plain);
    }
}

/// Masking keeps the delimiters of a text: after it the text has as many
/// stretches as before, parted by the same characters in the same order.
/// With what is said of each stretch, every parameter keeps its place, and
/// all but the secret values stay as they are.
pub proof fn lemma_redact_kv_keeps_delimiters(s: Seq<char>)
    ensures
        delimiters(redact_kv(s)) == delimiters(s),
{
    lemma_redact_from_keeps_delimiters(s, 0);
    assert(s.subrange(0, s.len() as int) =~= s);
}

/// Masking a URI twice is masking it once, for every text that is no URL
/// before and after the masking. What masking a URL again gives rests on
/// how the URL is parsed and written, and is not stated here.
pub proof fn lemma_redact_uri_idempotent_on_plain_text(input: Seq<char>)
    requires
        parsed_text(input) is None,
        parsed_text(redact_kv(input)) is None,
    ensures
        redact_uri(redact_uri(input)) == redact_uri(input),
{
    lemma_redact_kv_idempotent(input);
}

} // verus!
