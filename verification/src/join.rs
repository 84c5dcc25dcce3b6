//! The one call into `joinery`.

use crate::text::joined;
use joinery::Joinable;
use vstd::prelude::*;

verus! {

/// Joins `fields` with `delimiter` by `joinery`: `Joinable::join_with` on the
/// iterator over the fields, then the `Display` of the `Join` it returns,
/// rendered by `to_string`.
///
/// Trusted, not proved: that `Display` writes the first item, then for each
/// further item the separator followed by the item, and nothing where there is
/// no item; and a `String` and a `&str` are displayed as the characters they
/// hold. That is [`joined`] on the fields' characters.
#[verifier::external_body]
pub(crate) fn join_fields(fields: &Vec<String>, delimiter: &str) -> (text: String)
    ensures
        text@ == joined(fields.deep_view(), delimiter@),
{
    fields.iter().join_with(delimiter).to_string()
}

} // verus!
