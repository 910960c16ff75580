use vstd::prelude::*;

verus! {

/// What the `regex` crate finds of `pattern` in `text`: for each match, from the left and
/// without overlap, every capture group in group order, group 0 being the whole match, and
/// `None` for a group that took no part in the match. No match when the pattern does not
/// compile.
pub uninterp spec fn regex_captures(pattern: Seq<char>, text: Seq<char>) -> Seq<
    Seq<Option<Seq<char>>>,
>;

/// The texts of the groups of one match.
pub open spec fn group_views(m: Seq<Option<String>>) -> Seq<Option<Seq<char>>> {
    m.map_values(
        |g: Option<String>|
            match g {
                Some(s) => Some(s@),
                None => None,
            },
    )
}

/// The texts that a list of matches holds.
pub open spec fn captures_view(v: Seq<Vec<Option<String>>>) -> Seq<Seq<Option<Seq<char>>>> {
    v.map_values(|m: Vec<Option<String>>| group_views(m@))
}

/// The text of group `k` of a match; `None` when the match has no such group or the group
/// took no part in it.
pub open spec fn group(m: Seq<Option<Seq<char>>>, k: int) -> Option<Seq<char>> {
    if 0 <= k < m.len() {
        m[k]
    } else {
        None
    }
}

/// `regex::Regex::new(pattern)` and, on success, `Regex::captures_iter(text)`: every group
/// of every match. The contract names the result and says nothing more of it.
#[verifier::external_body]
pub(crate) fn captures_all(pattern: &str, text: &str) -> (res: Vec<Vec<Option<String>>>)
    ensures
        captures_view(res@) == regex_captures(pattern@, text@),
{
    match regex::Regex::new(pattern) {
        Ok(re) => re
            .captures_iter(text)
            .map(|c| c.iter().map(|m| m.map(|m| m.as_str().to_owned())).collect())
            .collect(),
        Err(_) => Vec::new(),
    }
}

/// The text of group `k` of the match `m` (see [`group`]).
pub fn group_at(m: &Vec<Option<String>>, k: usize) -> (res: Option<&str>)
    ensures
        match (res, group(group_views(m@), k as int)) {
            (Some(a), Some(b)) => a@ == b,
            (None, None) => true,
            _ => false,
        },
{
    if k < m.len() {
        match &m[k] {
            Some(s) => Some(s.as_str()),
            None => None,
        }
    } else {
        None
    }
}

} // verus!
