use vstd::prelude::*;

use crate::text::{lemma_split_nonempty, split_fields, split_on, views};

verus! {

/// Where symbols come from and where their copies go: parsed from one
/// `SRV*<local_root>*<remote_root>` descriptor.
#[derive(Debug, Clone, PartialEq, Eq)]
pub struct Locator {
    pub local_root: String,
    pub remote_root: String,
}

/// Why a descriptor could not be turned into a locator.
#[derive(Debug, Clone, Copy, PartialEq, Eq, Structural)]
pub enum ParseError {
    /// A segment is not of the form `SRV*<local_root>*<remote_root>`.
    InvalidForm,
    /// The descriptor names a number of locators other than one.
    UnsupportedMultiServer,
}

/// The token that opens every supported descriptor segment.
pub open spec fn srv_token() -> Seq<char> {
    seq!['S', 'R', 'V']
}

/// The `*`-separated fields of one descriptor segment.
pub open spec fn segment_fields(s: Seq<char>) -> Seq<Seq<char>> {
    split_on(s, '*')
}

/// Whether `s` is a well-formed segment: three fields, the first `SRV`.
pub open spec fn is_segment(s: Seq<char>) -> bool {
    &&& segment_fields(s).len() == 3
    &&& segment_fields(s)[0] == srv_token()
}

/// The locator that a well-formed segment describes.
pub open spec fn locator_of(l: Locator, s: Seq<char>) -> bool {
    &&& l.local_root@ == segment_fields(s)[1]
    &&& l.remote_root@ == segment_fields(s)[2]
}

/// The `;`-separated segments of a descriptor.
pub open spec fn segments(s: Seq<char>) -> Seq<Seq<char>> {
    split_on(s, ';')
}

/// Whether every segment of the descriptor `s` is well formed.
pub open spec fn all_segments_valid(s: Seq<char>) -> bool {
    forall|k: int| 0 <= k < segments(s).len() ==> #[trigger] is_segment(segments(s)[k])
}

fn is_srv(f: &String) -> (r: bool)
    ensures
        r == (f@ == srv_token()),
{
    let s = f.as_str();
    if s.unicode_len() != 3 {
        return false;
    }
    let r = s.get_char(0) == 'S' && s.get_char(1) == 'R' && s.get_char(2) == 'V';
    if r {
        assert(f@ =~= srv_token());
    }
    r
}

/// Parses one descriptor segment of the form `SRV*<local_root>*<remote_root>`.
pub fn parse(descriptor: &str) -> (r: Result<Locator, ParseError>)
    ensures
        r is Ok <==> is_segment(descriptor@),
        r matches Ok(l) ==> locator_of(l, descriptor@),
        r matches Err(e) ==> e == ParseError::InvalidForm,
{
    let fields = split_fields(descriptor, '*');
    assert(fields@.len() == views(fields@).len());
    if fields.len() != 3 {
        return Err(ParseError::InvalidForm);
    }
    assert(views(fields@)[0] == fields@[0]@);
    if !is_srv(&fields[0]) {
        return Err(ParseError::InvalidForm);
    }
    assert(views(fields@)[1] == fields@[1]@);
    assert(views(fields@)[2] == fields@[2]@);
    Ok(Locator { local_root: fields[1].clone(), remote_root: fields[2].clone() })
}

/// Parses every `;`-separated segment of a descriptor, in order; fails with
/// `InvalidForm` as soon as one segment is malformed.
pub fn parse_servers(srvstr: String) -> (r: Result<Vec<Locator>, ParseError>)
    ensures
        r is Ok <==> all_segments_valid(srvstr@),
        r matches Ok(v) ==> {
            &&& v@.len() == segments(srvstr@).len()
            &&& forall|k: int| 0 <= k < v@.len() ==> locator_of(#[trigger] v@[k], segments(srvstr@)[k])
        },
        r matches Err(e) ==> e == ParseError::InvalidForm,
{
    let parts = split_fields(srvstr.as_str(), ';');
    let mut out: Vec<Locator> = Vec::new();
    let mut k: usize = 0;
    while k < parts.len()
        invariant
            views(parts@) == segments(srvstr@),
            k <= parts@.len(),
            out@.len() == k,
            forall|j: int| 0 <= j < k ==> is_segment(#[trigger] segments(srvstr@)[j]),
            forall|j: int| 0 <= j < k ==> locator_of(#[trigger] out@[j], segments(srvstr@)[j]),
        decreases parts@.len() - k,
    {
        assert(views(parts@)[k as int] == parts@[k as int]@);
        match parse(parts[k].as_str()) {
            Ok(l) => {
                out.push(l);
            },
            Err(e) => {
                return Err(e);
            },
        }
        k = k + 1;
    }
    Ok(out)
}

/// Parses a descriptor that must name exactly one locator: the check made
/// before a run starts.
pub fn parse_descriptor(descriptor: &str) -> (r: Result<Locator, ParseError>)
    ensures
        r is Ok <==> all_segments_valid(descriptor@) && segments(descriptor@).len() == 1,
        r matches Ok(l) ==> locator_of(l, descriptor@),
        r matches Err(e) ==> (e == ParseError::InvalidForm <==> !all_segments_valid(descriptor@)),
{
    proof {
        lemma_split_nonempty(descriptor@, ';');
    }
    let mut all = parse_servers(String::from_str(descriptor))?;
    if all.len() != 1 {
        return Err(ParseError::UnsupportedMultiServer);
    }
    proof {
        lemma_single_segment(descriptor@);
    }
    Ok(all.remove(0))
}

/// A descriptor without `;` is its own single segment.
proof fn lemma_single_segment(s: Seq<char>)
    requires
        segments(s).len() == 1,
    ensures
        segments(s)[0] == s,
    decreases s.len(),
{
    if s.len() > 0 {
        lemma_split_nonempty(s.drop_last(), ';');
        if s.last() != ';' {
            lemma_single_segment(s.drop_last());
            assert(s.drop_last().push(s.last()) =~= s);
        }
    }
}

} // verus!
