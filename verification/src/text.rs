//! The text model: quoting a field, joining fields with a delimiter, and
//! splitting a text at a delimiter.

use vstd::prelude::*;

verus! {

/// A field wrapped in double quotes. What the field holds is kept as it is:
/// a double quote inside it is not escaped.
pub open spec fn quoted(field: Seq<char>) -> Seq<char> {
    seq!['"'] + field + seq!['"']
}

/// Each field of `fields`, quoted.
pub open spec fn quoted_all(fields: Seq<Seq<char>>) -> Seq<Seq<char>> {
    Seq::new(fields.len(), |i: int| quoted(fields[i]))
}

/// The fields in order with `delimiter` between neighbours: nothing before
/// the first field and nothing after the last.
pub open spec fn joined(fields: Seq<Seq<char>>, delimiter: Seq<char>) -> Seq<char>
    decreases fields.len(),
{
    if fields.len() == 0 {
        Seq::empty()
    } else if fields.len() == 1 {
        fields[0]
    } else {
        fields[0] + delimiter + joined(fields.drop_first(), delimiter)
    }
}

/// A field without its first and its last character: what is left of a
/// quoted field once the quotes are taken off.
pub open spec fn unquoted(field: Seq<char>) -> Seq<char> {
    if field.len() >= 2 {
        field.subrange(1, field.len() - 1)
    } else {
        Seq::empty()
    }
}

/// Each field of `fields`, unquoted.
pub open spec fn unquoted_all(fields: Seq<Seq<char>>) -> Seq<Seq<char>> {
    Seq::new(fields.len(), |i: int| unquoted(fields[i]))
}

/// Whether `pattern` stands in `text` at position `at`.
pub open spec fn occurs_at(text: Seq<char>, pattern: Seq<char>, at: int) -> bool {
    0 <= at && at + pattern.len() <= text.len() && text.subrange(at, at + pattern.len())
        == pattern
}

/// Whether `pattern` stands somewhere in `text`.
pub open spec fn occurs_in(text: Seq<char>, pattern: Seq<char>) -> bool {
    exists|at: int| occurs_at(text, pattern, at)
}

/// The fields that `text` falls into when it is cut at every occurrence of a
/// non-empty `delimiter`, reading from the left: a text without an occurrence
/// is one field, and so is the empty text.
pub open spec fn split(text: Seq<char>, delimiter: Seq<char>) -> Seq<Seq<char>>
    decreases text.len(),
{
    if text.len() == 0 || delimiter.len() == 0 {
        seq![text]
    } else if occurs_at(text, delimiter, 0) {
        seq![Seq::empty()] + split(text.skip(delimiter.len() as int), delimiter)
    } else {
        let rest = split(text.drop_first(), delimiter);
        seq![seq![text[0]] + rest[0]] + rest.drop_first()
    }
}

/// Whether `delimiter` stands in the join of `fields` only where the join put
/// it: no occurrence of it starts inside a field.
pub open spec fn delimiter_only_between(fields: Seq<Seq<char>>, delimiter: Seq<char>) -> bool
    decreases fields.len(),
{
    fields.len() == 0 || {
        &&& forall|at: int|
            0 <= at < fields[0].len() ==> !occurs_at(joined(fields, delimiter), delimiter, at)
        &&& delimiter_only_between(fields.drop_first(), delimiter)
    }
}

/// Wraps `field` in double quotes.
pub fn quote(field: &str) -> (wrapped: String)
    ensures
        wrapped@ == quoted(field@),
{
    let mut wrapped = String::from_str("\"");
    wrapped.append(field);
    wrapped.append("\"");
    proof {
        reveal_strlit("\"");
        assert(wrapped@ =~= quoted(field@));
    }
    wrapped
}

} // verus!
