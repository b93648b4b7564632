use vstd::prelude::*;

use crate::text::{split_fields, split_on, views};

verus! {

/// One manifest entry: the file to fetch and the hash that names its version.
#[derive(Debug, Clone, PartialEq, Eq)]
pub struct Target {
    pub component: String,
    pub hash: String,
}

/// Why a manifest line could not be decoded.
#[derive(Debug, Clone, PartialEq, Eq)]
pub enum DecodeError {
    /// The line, which does not have exactly three `,`-separated fields.
    MalformedLine(String),
}

/// The `,`-separated fields of a manifest line.
pub open spec fn line_fields(line: Seq<char>) -> Seq<Seq<char>> {
    split_on(line, ',')
}

/// Whether `line` is a well-formed manifest line: `component,hash,<ignored>`.
pub open spec fn is_entry(line: Seq<char>) -> bool {
    line_fields(line).len() == 3
}

/// Decodes one manifest line `component,hash,<ignored>` into a target.
pub fn decode(line: &str) -> (r: Result<Target, DecodeError>)
    ensures
        r is Ok <==> is_entry(line@),
        r matches Ok(t) ==> t.component@ == line_fields(line@)[0] && t.hash@
            == line_fields(line@)[1],
        r matches Err(DecodeError::MalformedLine(l)) ==> l@ == line@,
{
    let fields = split_fields(line, ',');
    assert(fields@.len() == views(fields@).len());
    if fields.len() != 3 {
        return Err(DecodeError::MalformedLine(String::from_str(line)));
    }
    assert(views(fields@)[0] == fields@[0]@);
    assert(views(fields@)[1] == fields@[1]@);
    Ok(Target { component: fields[0].clone(), hash: fields[1].clone() })
}

} // verus!
