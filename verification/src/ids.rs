//! Fresh identifiers, drawn from the `uuid` crate.
use vstd::prelude::*;

verus! {

/// A lower-case hexadecimal digit.
pub open spec fn is_lower_hex(c: char) -> bool {
    ('0' <= c && c <= '9') || ('a' <= c && c <= 'f')
}

/// Whether `i` is one of the four hyphen positions of the hyphenated UUID form.
pub open spec fn is_uuid_hyphen_pos(i: int) -> bool {
    i == 8 || i == 13 || i == 18 || i == 23
}

/// The hyphenated lower-case text of a UUID: 36 characters, hyphens at
/// positions 8, 13, 18 and 23, hexadecimal digits elsewhere.
pub open spec fn is_hyphenated_uuid(s: Seq<char>) -> bool {
    &&& s.len() == 36
    &&& forall|i: int|
        0 <= i < 36 ==> if is_uuid_hyphen_pos(i) {
            s[i] == '-'
        } else {
            is_lower_hex(#[trigger] s[i])
        }
}

/// A freshly drawn random UUID, as text. Only `new_uuid_string` makes one, so
/// a key in hand was drawn at random.
pub struct FreshKey {
    text: String,
}

impl View for FreshKey {
    type V = Seq<char>;

    closed spec fn view(&self) -> Seq<char> {
        self.text@
    }
}

impl FreshKey {
    /// The text of the key.
    pub fn into_string(self) -> (s: String)
        ensures
            s@ == self@,
    {
        self.text
    }
}

/// Calls `uuid::Uuid::new_v4` and formats the UUID with `Display`.
/// The UUID is random, so nothing is claimed of which one comes back; the claim
/// is the shape of its text, which `Display` writes in the hyphenated lower-case
/// form (`uuid::fmt::format_hyphenated` with `upper == false`).
#[verifier::external_body]
pub(crate) fn new_uuid_string() -> (s: FreshKey)
    ensures
        is_hyphenated_uuid(s@),
{
    FreshKey { text: uuid::Uuid::new_v4().to_string() }
}

} // verus!
