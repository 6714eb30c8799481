//! Matching a line against a regular expression, and picking capture groups
//! out of what was found.

use vstd::prelude::*;

verus! {

/// What the `regex` crate finds when it searches `text` for the expression
/// `pattern`: `None` where `pattern` is no expression that the crate accepts,
/// or where nothing in `text` matches; else the capture groups of the first
/// match, group 0 being the whole match, and a group that took no part in
/// the match being `None`.
pub uninterp spec fn pattern_groups(pattern: Seq<char>, text: Seq<char>) -> Option<
    Seq<Option<Seq<char>>>,
>;

/// Compiles `pattern` with `regex::Regex::new` and searches `text` with
/// `Regex::captures`. Nothing is proved of this function: its contract names
/// what the crate returns, each group copied into a `String` of its own.
#[verifier::external_body]
fn match_groups(pattern: &str, text: &str) -> (r: Option<Vec<Option<String>>>)
    ensures
        r.deep_view() == pattern_groups(pattern@, text@),
{
    let expression = regex::Regex::new(pattern).ok()?;
    let found = expression.captures(text)?;
    Some(found.iter().map(|group| group.map(|part| part.as_str().to_owned())).collect())
}

/// Group `n` took part in the match `found`.
pub open spec fn present(found: Seq<Option<Seq<char>>>, n: usize) -> bool {
    n < found.len() && found[n as int] is Some
}

/// The groups numbered by `order`, in that order, where a match was found
/// and each of them took part in it.
pub open spec fn selected(groups: Option<Seq<Option<Seq<char>>>>, order: Seq<usize>) -> Option<
    Seq<Seq<char>>,
> {
    match groups {
        Some(found) => {
            if forall|k: int| 0 <= k < order.len() ==> present(found, #[trigger] order[k]) {
                Some(Seq::new(order.len(), |k: int| found[order[k] as int]->0))
            } else {
                None
            }
        },
        None => None,
    }
}

/// Picks the groups numbered by `order` out of what a search returned.
pub fn select_groups(groups: Option<Vec<Option<String>>>, order: Vec<usize>) -> (r: Option<
    Vec<String>,
>)
    ensures
        r.deep_view() == selected(groups.deep_view(), order@),
{
    let found = match groups {
        Some(found) => found,
        None => {
            return None;
        },
    };
    let ghost texts = found.deep_view();
    let mut picked: Vec<String> = Vec::new();
    let mut k: usize = 0;
    while k < order.len()
        invariant
            k <= order.len(),
            texts == found.deep_view(),
            groups.deep_view() == Some(texts),
            picked.len() == k,
            forall|m: int| 0 <= m < k ==> present(texts, #[trigger] order[m]),
            forall|m: int| 0 <= m < k ==> (#[trigger] picked[m])@ == texts[order[m] as int]->0,
        decreases order.len() - k,
    {
        let n = order[k];
        if n >= found.len() {
            assert(!present(texts, order[k as int]));
            return None;
        }
        assert(texts[n as int] == found[n as int].deep_view());
        match &found[n] {
            None => {
                assert(!present(texts, order[k as int]));
                return None;
            },
            Some(part) => {
                picked.push(part.clone());
            },
        }
        k += 1;
    }
    assert(picked.deep_view() =~= selected(Some(texts), order@)->0);
    Some(picked)
}

/// Searches `text` for the expression `pattern` and picks the groups
/// numbered by `order` out of the first match. `None` where `pattern` is no
/// expression, where nothing matches, and where one of the groups is missing
/// or took no part in the match.
pub fn find_fields(pattern: &str, text: &str, order: Vec<usize>) -> (r: Option<Vec<String>>)
    ensures
        r.deep_view() == selected(pattern_groups(pattern@, text@), order@),
{
    select_groups(match_groups(pattern, text), order)
}

} // verus!
