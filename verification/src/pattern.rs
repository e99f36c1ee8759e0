//! Matching a line against a regular expression.

use regex::Regex;
use vstd::prelude::*;

verus! {

/// The groups of a match, the whole match left out: for each group in the order
/// of its opening parenthesis the text it took, or `None` where it took no
/// part.
pub type Groups = Seq<Option<Seq<char>>>;

/// What the regular expression `pattern` makes of `haystack`: the message of
/// the compiler where the pattern does not compile; `None` where nothing in the
/// haystack matches; else the leftmost match, as the text of the whole match
/// followed by the text of each group in the order of its opening parenthesis,
/// with `None` for a group that took no part.
pub uninterp spec fn regex_match(pattern: Seq<char>, haystack: Seq<char>) -> Result<
    Option<Seq<Option<Seq<char>>>>,
    Seq<char>,
>;

/// `found` without its first entry, the whole match.
pub open spec fn groups_of(found: Seq<Option<Seq<char>>>) -> Groups {
    if found.len() > 0 {
        found.drop_first()
    } else {
        found
    }
}

/// What the regular expression `pattern` finds in `haystack`: the groups of
/// the leftmost match, or `None` where nothing matches, or the message of the
/// compiler where the pattern does not compile.
pub open spec fn regex_captures(pattern: Seq<char>, haystack: Seq<char>) -> Result<
    Option<Groups>,
    Seq<char>,
> {
    match regex_match(pattern, haystack) {
        Ok(Some(found)) => Ok(Some(groups_of(found))),
        Ok(None) => Ok(None),
        Err(message) => Err(message),
    }
}

/// Compiles `pattern` with `regex::Regex::new` and searches `haystack` with
/// `Regex::captures`. Both depend on their arguments alone, and so does the
/// text of the compiler's error; what they compute is not stated here, only
/// named.
#[verifier::external_body]
fn find(pattern: &str, haystack: &str) -> (r: Result<Option<Vec<Option<String>>>, String>)
    ensures
        match r {
            Ok(found) => regex_match(pattern@, haystack@) == Ok::<_, Seq<char>>(
                found.deep_view(),
            ),
            Err(message) => regex_match(pattern@, haystack@) == Err::<Option<Groups>, _>(
                message@,
            ),
        },
{
    let compiled = Regex::new(pattern).map_err(|e| e.to_string())?;
    Ok(
        compiled.captures(haystack).map(
            |found| found.iter().map(|group| group.map(|m| m.as_str().to_owned())).collect(),
        ),
    )
}

/// The groups that `pattern` finds in `haystack`.
pub fn captures(pattern: &str, haystack: &str) -> (r: Result<
    Option<Vec<Option<String>>>,
    String,
>)
    ensures
        match r {
            Ok(groups) => regex_captures(pattern@, haystack@) == Ok::<_, Seq<char>>(
                groups.deep_view(),
            ),
            Err(message) => regex_captures(pattern@, haystack@) == Err::<Option<Groups>, _>(
                message@,
            ),
        },
{
    match find(pattern, haystack) {
        Ok(Some(found)) => {
            let mut groups = found;
            if groups.len() > 0 {
                let ghost all = groups.deep_view();
                groups.remove(0);
                assert(groups.deep_view() =~= all.drop_first());
            }
            Ok(Some(groups))
        },
        Ok(None) => Ok(None),
        Err(message) => Err(message),
    }
}

/// What is left of `haystack` when every match of the regular expression
/// `pattern` in it, from left to right and none overlapping another, is
/// replaced by `replacement`; or the message of the compiler where the pattern
/// does not compile.
pub uninterp spec fn regex_replaced(
    pattern: Seq<char>,
    haystack: Seq<char>,
    replacement: Seq<char>,
) -> Result<Seq<char>, Seq<char>>;

/// Compiles `pattern` with `regex::Regex::new` and replaces its matches in
/// `haystack` with `Regex::replace_all`. Both depend on their arguments alone;
/// what they compute is not stated here, only named.
#[verifier::external_body]
pub(crate) fn replace_all(pattern: &str, haystack: &str, replacement: &str) -> (r: Result<
    String,
    String,
>)
    ensures
        match r {
            Ok(text) => regex_replaced(pattern@, haystack@, replacement@) == Ok::<_, Seq<char>>(
                text@,
            ),
            Err(message) => regex_replaced(pattern@, haystack@, replacement@) == Err::<
                Seq<char>,
                _,
            >(message@),
        },
{
    let compiled = Regex::new(pattern).map_err(|e| e.to_string())?;
    Ok(compiled.replace_all(haystack, replacement).into_owned())
}

/// The text of group `i`, or `None` where there is no such group or it took no
/// part in the match.
pub open spec fn group(groups: Groups, i: int) -> Option<Seq<char>> {
    if 0 <= i < groups.len() {
        groups[i]
    } else {
        None
    }
}

/// Whether no group took part in the match.
pub open spec fn no_group(groups: Groups) -> bool {
    forall|i: int| 0 <= i < groups.len() ==> #[trigger] groups[i] is None
}

/// The text of group `i`.
pub fn group_at(groups: &Vec<Option<String>>, i: usize) -> (text: Option<&String>)
    ensures
        text.deep_view() == group(groups.deep_view(), i as int),
{
    if i < groups.len() {
        groups[i].as_ref()
    } else {
        None
    }
}

/// Whether no group took part in the match.
pub fn all_groups_absent(groups: &Vec<Option<String>>) -> (absent: bool)
    ensures
        absent == no_group(groups.deep_view()),
{
    let mut i: usize = 0;
    while i < groups.len()
        invariant
            i <= groups.len(),
            forall|k: int| 0 <= k < i ==> #[trigger] groups.deep_view()[k] is None,
        decreases groups.len() - i,
    {
        if groups[i].is_some() {
            assert(groups.deep_view()[i as int] is Some);
            return false;
        }
        assert(groups.deep_view()[i as int] is None);
        i += 1;
    }
    true
}

} // verus!
