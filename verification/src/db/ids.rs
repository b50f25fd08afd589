//! Record identifiers: 128-bit UUID values, kept as plain `u128`. The
//! hyphenated rendering and the parsing go through the `uuid` crate.

use vstd::prelude::*;

verus! {

/// The hyphenated lowercase text the `uuid` crate renders for the UUID with
/// the given 128-bit value.
pub uninterp spec fn uuid_text(id: u128) -> Seq<char>;

/// The 128-bit UUID value the `uuid` crate reads from the given text, or
/// `None` where it rejects the text.
pub uninterp spec fn uuid_of_text(s: Seq<char>) -> Option<u128>;

/// The identifier's hyphenated text is one delimiter-free token and reads
/// back to the identifier; rendering the text once shows this.
pub open spec fn uuid_faithful(id: u128) -> bool {
    &&& uuid_of_text(uuid_text(id)) == Some(id)
    &&& uuid_text(id).len() > 0
    &&& forall|i: int| 0 <= i < uuid_text(id).len() ==> !crate::is_delim(
        #[trigger] uuid_text(id)[i],
    )
}

/// Relies on `uuid::Uuid`: the hyphenated rendering of `from_u128(id)` is a
/// nonempty string of lowercase hex digits and hyphens -- none of which is a
/// delimiter of the on-disk format -- and `parse_str` of that rendering,
/// followed by `as_u128`, returns `id` again.
#[verifier::external_body]
pub(crate) fn uuid_to_string(id: u128) -> (r: String)
    ensures
        r@ == uuid_text(id),
        uuid_of_text(r@) == Some(id),
        r@.len() > 0,
        forall|i: int| 0 <= i < r@.len() ==> !crate::is_delim(#[trigger] r@[i]),
{
    uuid::Uuid::from_u128(id).hyphenated().to_string()
}

/// Relies on `uuid::Uuid::parse_str` and `as_u128`, which depend on the text
/// alone.
#[verifier::external_body]
pub(crate) fn parse_uuid(s: &str) -> (r: Option<u128>)
    ensures
        r == uuid_of_text(s@),
{
    match uuid::Uuid::parse_str(s) {
        Ok(u) => Some(u.as_u128()),
        Err(_) => None,
    }
}

/// Relies on `uuid::Uuid::new_v4`: a random UUID, of which nothing is
/// promised.
#[verifier::external_body]
pub(crate) fn new_v4_u128() -> u128 {
    uuid::Uuid::new_v4().as_u128()
}

} // verus!
