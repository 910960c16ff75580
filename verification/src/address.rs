use vstd::prelude::*;

verus! {

/// The address that `url` resolves `input` to, relative to `base` (serialized), or `None`
/// when `base` is no address or `input` does not resolve.
pub uninterp spec fn joined_address(base: Seq<char>, input: Seq<char>) -> Option<Seq<char>>;

/// The segments of the path of the address `url`, or `None` when `url` is no address or
/// cannot have path segments (a cannot-be-a-base address).
pub uninterp spec fn path_segments_of(url: Seq<char>) -> Option<Seq<Seq<char>>>;

/// The last segment of the path of the address `url`, when it has one.
pub open spec fn last_path_segment(url: Seq<char>) -> Option<Seq<char>> {
    match path_segments_of(url) {
        Some(s) => if s.len() > 0 {
            Some(s.last())
        } else {
            None
        },
        None => None,
    }
}

/// `url::Url::parse(base)` then `Url::join(input)`, serialized. The contract names the
/// result and says nothing more of it.
#[verifier::external_body]
pub(crate) fn join_address(base: &str, input: &str) -> (res: Option<String>)
    ensures
        res is Some <==> joined_address(base@, input@) is Some,
        res matches Some(s) ==> joined_address(base@, input@) == Some(s@),
{
    let parsed = url::Url::parse(base).ok()?;
    parsed.join(input).ok().map(|u| u.to_string())
}

/// `url::Url::parse(url)` then `Url::path_segments()`, each segment as a string. The
/// contract names the result and says nothing more of it.
#[verifier::external_body]
fn path_segments(url: &str) -> (res: Option<Vec<String>>)
    ensures
        match (res, path_segments_of(url@)) {
            (Some(v), Some(s)) => v@.map_values(|x: String| x@) == s,
            (None, None) => true,
            _ => false,
        },
{
    let parsed = url::Url::parse(url).ok()?;
    parsed.path_segments().map(|segments| segments.map(|s| s.to_owned()).collect())
}

/// The last segment of the path of the address `url`, when it has one.
pub fn path_file_name(url: &str) -> (res: Option<String>)
    ensures
        res is Some <==> last_path_segment(url@) is Some,
        res matches Some(s) ==> last_path_segment(url@) == Some(s@),
{
    match path_segments(url) {
        Some(v) => {
            if v.len() > 0 {
                let last = v[v.len() - 1].clone();
                assert(v@.map_values(|x: String| x@).last() == v@.last()@);
                Some(last)
            } else {
                None
            }
        },
        None => None,
    }
}

} // verus!
