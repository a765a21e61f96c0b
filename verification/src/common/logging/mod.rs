use vstd::prelude::*;
use uuid::Uuid;
use crate::common::text::{chars_of, find_char, index_of, string_of};

pub mod events;

verus! {

/// Whether `c` is a lower-case hexadecimal digit.
pub open spec fn is_hex_digit(c: char) -> bool {
    ('0' <= c && c <= '9') || ('a' <= c && c <= 'f')
}

/// Whether `s` is a UUID in its hyphenated form: 36 characters, hyphens
/// at the places 8, 13, 18 and 23, and lower-case hexadecimal digits
/// everywhere else.
pub open spec fn is_hyphenated_uuid(s: Seq<char>) -> bool {
    &&& s.len() == 36
    &&& forall|i: int|
        0 <= i < 36 ==> if i == 8 || i == 13 || i == 18 || i == 23 {
            #[trigger] s[i] == '-'
        } else {
            is_hex_digit(s[i])
        }
}

/// The first group of an identifier: what stands in front of its first
/// hyphen, and all of it where it has none.
pub open spec fn first_group(id: Seq<char>) -> Seq<char> {
    id.take(index_of(id, '-', 0))
}

/// `uuid::Uuid`, a universally unique identifier.
#[verifier::external_type_specification]
#[verifier::external_body]
pub struct ExUuid(Uuid);

/// A fresh random UUID.
///
/// Stands for `Uuid::new_v4`. Which UUID comes is left to chance, so
/// nothing is said of it. The call panics where the system has no random
/// bytes to give.
#[verifier::external_body]
fn fresh_uuid() -> Uuid {
    Uuid::new_v4()
}

/// A UUID as text.
///
/// Stands for the `Display` of `Uuid`, which writes the hyphenated form in
/// lower case: five groups of 8, 4, 4, 4 and 12 hexadecimal digits.
#[verifier::external_body]
fn uuid_text(id: &Uuid) -> (r: String)
    ensures
        is_hyphenated_uuid(r@),
{
    id.to_string()
}

/// The first group of the identifier `id`: what stands in front of its
/// first hyphen, and all of it where it has none.
pub fn first_group_of(id: &str) -> (r: String)
    ensures
        r@ == first_group(id@),
{
    let v = chars_of(id);
    let end = find_char(v.as_slice(), '-', 0);
    string_of(vstd::slice::slice_subrange(v.as_slice(), 0, end))
}

/// A short identifier for a relay: the first group of a fresh random
/// UUID, eight lower-case hexadecimal digits.
pub fn short_uuid() -> (r: String)
    ensures
        r@.len() == 8,
        forall|i: int| 0 <= i < 8 ==> is_hex_digit(#[trigger] r@[i]),
{
    let id = uuid_text(&fresh_uuid());
    proof {
        lemma_first_group_of_uuid(id@);
    }
    first_group_of(id.as_str())
}

/// The first group of a hyphenated UUID is its first eight characters,
/// all of them hexadecimal digits.
pub proof fn lemma_first_group_of_uuid(id: Seq<char>)
    requires
        is_hyphenated_uuid(id),
    ensures
        first_group(id) == id.take(8),
        first_group(id).len() == 8,
        forall|i: int| 0 <= i < 8 ==> is_hex_digit(#[trigger] first_group(id)[i]),
{
    assert(index_of(id, '-', 0) == 8) by {
        assert(id[8] == '-');
        assert forall|i: int| 0 <= i < 8 implies id[i] != '-' by {
            assert(is_hex_digit(id[i]));
        }
        lemma_index_of_is(id, '-', 0, 8);
    }
    assert forall|i: int| 0 <= i < 8 implies is_hex_digit(#[trigger] first_group(id)[i]) by {
        assert(first_group(id)[i] == id[i]);
    }
}

/// The first place that holds `c`, with none before it, is what `index_of`
/// names.
proof fn lemma_index_of_is(s: Seq<char>, c: char, from: int, at: int)
    requires
        0 <= from <= at < s.len(),
        s[at] == c,
        forall|i: int| from <= i < at ==> s[i] != c,
    ensures
        index_of(s, c, from) == at,
    decreases at - from,
{
    if from < at {
        lemma_index_of_is(s, c, from + 1, at);
    }
}

} // verus!
