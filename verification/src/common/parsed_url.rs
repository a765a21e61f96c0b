use vstd::prelude::*;
use vstd::utf8::encode_utf8;
use url::{ParseError, Url};

verus! {

/// `url::Url`, a parsed URL.
#[verifier::external_type_specification]
#[verifier::external_body]
pub struct ExUrl(Url);

/// `url::ParseError`, why a text is no URL.
#[verifier::external_type_specification]
#[verifier::external_body]
pub struct ExParseError(ParseError);

/// The text that a `Url` holds: its serialization. Two URLs with the same
/// text are the same URL.
pub uninterp spec fn url_text(u: Url) -> Seq<char>;

/// The text of the URL that `Url::parse` makes of `input`, or `None` where
/// it refuses `input`.
pub uninterp spec fn parsed_text(input: Seq<char>) -> Option<Seq<char>>;

/// The query of the URL with the text `text`, as it stands there, if the
/// URL has one.
pub uninterp spec fn query_text_of(text: Seq<char>) -> Option<Seq<char>>;

/// The text of the URL with the text `text` once `query` has been set as
/// its query.
pub uninterp spec fn with_query(text: Seq<char>, query: Seq<char>) -> Seq<char>;

/// The name of the parameter `segment`, decoded as form data is, or `None`
/// for a segment that holds no parameter.
pub uninterp spec fn decoded_key_of(segment: Seq<char>) -> Option<Seq<char>>;

/// The fragment of the URL with the text `text`, as it stands there.
pub uninterp spec fn fragment_of(text: Seq<char>) -> Option<Seq<char>>;

/// The text of the URL with the text `text` once `fragment` has been set as
/// its fragment.
pub uninterp spec fn with_fragment(text: Seq<char>, fragment: Seq<char>) -> Seq<char>;

/// Whether the URL writer leaves `c` as it is, in a query and in a
/// fragment: a printable ASCII character other than the space and the
/// characters `"`, `#`, `<`, `>`, `'` and `` ` ``, which it may escape.
pub open spec fn kept_by_writer(c: char) -> bool {
    &&& '!' <= c && c <= '~'
    &&& c != '"' && c != '#' && c != '<' && c != '>' && c != '\'' && c != '`'
}

/// Whether the URL writer leaves every character of `s` as it is.
pub open spec fn all_kept(s: Seq<char>) -> bool {
    forall|i: int| 0 <= i < s.len() ==> kept_by_writer(#[trigger] s[i])
}

/// The longest text, in bytes, that a `Url` can hold: its offsets are 32
/// bits wide.
pub const MAX_URL_BYTES: usize = 0xffff_ffff;

/// Whether the URL with the text `text` has room for `query`: written into
/// the URL, each byte of a query may become three.
pub open spec fn query_fits(text: Seq<char>, query: Seq<char>) -> bool {
    encode_utf8(text).len() + 3 * encode_utf8(query).len() <= MAX_URL_BYTES
}

/// Parses `input` as an absolute URL.
///
/// Stands for `Url::parse`. The result depends on `input` alone; what it
/// is goes by the name `parsed_text`.
#[verifier::external_body]
pub(crate) fn parse_url(input: &str) -> (r: Result<Url, ParseError>)
    ensures
        match r {
            Ok(u) => parsed_text(input@) == Some(url_text(u)),
            Err(_) => parsed_text(input@) is None,
        },
{
    Url::parse(input)
}

/// The text of a URL.
///
/// Stands for `Url::as_str`, which hands out the serialization.
#[verifier::external_body]
pub(crate) fn url_as_str(u: &Url) -> (r: &str)
    ensures
        r@ == url_text(*u),
{
    u.as_str()
}

/// The query of a URL, as it stands in its text, if it has one.
///
/// Stands for `Url::query`, which reads it from the serialization.
#[verifier::external_body]
pub(crate) fn url_query(u: &Url) -> (r: Option<String>)
    ensures
        match r {
            Some(q) => query_text_of(url_text(*u)) == Some(q@),
            None => query_text_of(url_text(*u)) is None,
        },
{
    u.query().map(|q| q.to_owned())
}

/// Puts `query` in the place of the query of a URL that has one.
///
/// Stands for `Url::set_query`: the new text depends on the old text and
/// on `query` alone. The crate keeps offsets in 32 bits and panics beyond;
/// the bound keeps the text within. The setter takes the fragment off,
/// writes the query and puts the fragment back, so the fragment stays; and
/// it escapes nothing but what is in its encode set, so a query of
/// characters outside that set is the query of the URL afterwards.
#[verifier::external_body]
pub(crate) fn url_set_query(u: &mut Url, query: &str)
    requires
        query_text_of(url_text(*old(u))) is Some,
        query_fits(url_text(*old(u)), query@),
    ensures
        url_text(*final(u)) == with_query(url_text(*old(u)), query@),
        fragment_of(url_text(*final(u))) == fragment_of(url_text(*old(u))),
        all_kept(query@) ==> query_text_of(url_text(*final(u))) == Some(query@),
{
    u.set_query(Some(query))
}

/// The name of the one parameter that `segment` holds, decoded.
///
/// Stands for `form_urlencoded::parse`, which the `url` crate hands on, and
/// the first item that it yields: the text in front of the first `=`, with
/// `+` and percent escapes decoded. An empty segment yields nothing.
#[verifier::external_body]
pub(crate) fn segment_key(segment: &str) -> (r: Option<String>)
    ensures
        match r {
            Some(k) => decoded_key_of(segment@) == Some(k@),
            None => decoded_key_of(segment@) is None,
        },
{
    url::form_urlencoded::parse(segment.as_bytes()).next().map(|kv| kv.0.into_owned())
}

/// The fragment of a URL, if it has one.
///
/// Stands for `Url::fragment`, which reads it from the serialization.
#[verifier::external_body]
pub(crate) fn url_fragment(u: &Url) -> (r: Option<String>)
    ensures
        match r {
            Some(f) => fragment_of(url_text(*u)) == Some(f@),
            None => fragment_of(url_text(*u)) is None,
        },
{
    u.fragment().map(|f| f.to_owned())
}

/// Puts `fragment` in the place of the fragment of a URL that has one.
///
/// Stands for `Url::set_fragment`: the new text depends on the old text
/// and on `fragment` alone. The setter cuts the text where the old
/// fragment began and writes the new one there, so the query stays; and it
/// escapes nothing but what is in its encode set, so a fragment of
/// characters outside that set is the fragment of the URL afterwards.
#[verifier::external_body]
pub(crate) fn url_set_fragment(u: &mut Url, fragment: &str)
    requires
        fragment_of(url_text(*old(u))) is Some,
    ensures
        url_text(*final(u)) == with_fragment(url_text(*old(u)), fragment@),
        query_text_of(url_text(*final(u))) == query_text_of(url_text(*old(u))),
        all_kept(fragment@) ==> fragment_of(url_text(*final(u))) == Some(fragment@),
{
    u.set_fragment(Some(fragment))
}

} // verus!
