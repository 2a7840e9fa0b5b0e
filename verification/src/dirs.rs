use vstd::prelude::*;

use crate::store::{MatchStore, lookup};
use crate::text::chars_of;

verus! {

/// Whether the regular expression `pattern` (regex crate syntax) matches `text`, or
/// `None` where the regex crate refuses the pattern.
pub uninterp spec fn regex_match_of(pattern: Seq<char>, text: Seq<char>) -> Option<bool>;

/// `regex::Regex::new(pattern)`, then `is_match(text)` on the compiled expression.
/// Claimed: the result depends on the two texts alone (it is named, not described).
#[verifier::external_body]
fn regex_is_match(pattern: &str, text: &str) -> (res: Option<bool>)
    ensures
        res == regex_match_of(pattern@, text@),
{
    match regex::Regex::new(pattern) {
        Ok(re) => Some(re.is_match(text)),
        Err(_) => None,
    }
}

/// The pattern of a monthly replay folder's name, such as `2024-05`.
pub open spec fn month_dir_pattern() -> Seq<char> {
    "^\\d{4}-\\d{2}$"@
}

/// The regex crate refused the folder-name pattern.
#[derive(Debug, Clone, Copy, PartialEq, Eq, Structural)]
pub struct PatternError;

/// The position of the last `Some(true)` of `results`.
pub open spec fn last_match(results: Seq<Option<bool>>) -> Option<int>
    decreases results.len(),
{
    if results.len() == 0 {
        None
    } else if results.last() == Some(true) {
        Some(results.len() - 1)
    } else {
        last_match(results.drop_last())
    }
}

/// Whether no entry of `results` is `None`.
pub open spec fn all_decided(results: Seq<Option<bool>>) -> bool {
    forall|i: int| 0 <= i < results.len() ==> (#[trigger] results[i]) is Some
}

/// What the folder-name pattern gives on each of `names`.
pub open spec fn month_dir_matches(names: Seq<String>) -> Seq<Option<bool>> {
    names.map_values(|s: String| regex_match_of(month_dir_pattern(), s@))
}

/// The position of the last name that matched the folder-name pattern, given what the
/// pattern gave on each name; an error where the pattern was refused.
pub fn latest_month_dir_of(results: &Vec<Option<bool>>) -> (res: Result<Option<usize>, PatternError>)
    ensures
        match res {
            Ok(r) => all_decided(results@) && match r {
                Some(i) => last_match(results@) == Some(i as int),
                None => last_match(results@) is None,
            },
            Err(_) => !all_decided(results@),
        },
{
    let mut found: Option<usize> = None;
    let mut i: usize = 0;
    while i < results.len()
        invariant
            i <= results@.len(),
            all_decided(results@.take(i as int)),
            match found {
                Some(j) => last_match(results@.take(i as int)) == Some(j as int),
                None => last_match(results@.take(i as int)) is None,
            },
        decreases results@.len() - i,
    {
        assert(results@.take(i + 1).drop_last() =~= results@.take(i as int));
        match results[i] {
            None => {
                assert(!all_decided(results@)) by {
                    assert(results@[i as int] is None);
                }
                return Err(PatternError);
            },
            Some(true) => {
                found = Some(i);
            },
            Some(false) => {},
        }
        i = i + 1;
        assert(all_decided(results@.take(i as int))) by {
            assert forall|j: int| 0 <= j < i implies (#[trigger] results@.take(i as int)[j]) is Some by {
                if j < i - 1 {
                    assert(results@.take(i as int)[j] == results@.take(i - 1)[j]);
                }
            }
        }
    }
    assert(results@.take(i as int) =~= results@);
    Ok(found)
}

/// Finds the newest monthly replay folder among the entries `names` of the Slippi folder:
/// the last one whose name matches `^\d{4}-\d{2}$`.
pub fn latest_month_dir(names: &Vec<String>) -> (res: Result<Option<usize>, PatternError>)
    ensures
        match res {
            Ok(r) => all_decided(month_dir_matches(names@)) && match r {
                Some(i) => last_match(month_dir_matches(names@)) == Some(i as int),
                None => last_match(month_dir_matches(names@)) is None,
            },
            Err(_) => !all_decided(month_dir_matches(names@)),
        },
{
    let mut results: Vec<Option<bool>> = Vec::new();
    let mut i: usize = 0;
    while i < names.len()
        invariant
            i <= names@.len(),
            results@ == month_dir_matches(names@).take(i as int),
        decreases names@.len() - i,
    {
        let r = regex_is_match("^\\d{4}-\\d{2}$", names[i].as_str());
        results.push(r);
        i = i + 1;
        assert(results@ =~= month_dir_matches(names@).take(i as int));
    }
    assert(month_dir_matches(names@).take(i as int) =~= month_dir_matches(names@));
    latest_month_dir_of(&results)
}

/// The position of the last `.` in `name`.
pub open spec fn last_dot(name: Seq<char>) -> Option<int>
    decreases name.len(),
{
    if name.len() == 0 {
        None
    } else if name.last() == '.' {
        Some(name.len() - 1)
    } else {
        last_dot(name.drop_last())
    }
}

/// The extension of the file name `name`, as `Path::extension` gives it: what follows
/// the last `.`, where that `.` is not the name's first character.
pub open spec fn extension_of(name: Seq<char>) -> Option<Seq<char>> {
    match last_dot(name) {
        Some(j) => if j >= 1 { Some(name.subrange(j + 1, name.len() as int)) } else { None },
        None => None,
    }
}

/// Whether the file name `name` is that of a replay: its extension is `slp`.
pub fn is_replay_file_name(name: &str) -> (res: bool)
    ensures
        res == (extension_of(name@) == Some(seq!['s', 'l', 'p'])),
{
    let cs = chars_of(name);
    let mut j: usize = cs.len();
    assert(cs@.take(j as int) =~= cs@);
    while j > 0
        invariant
            j <= cs@.len(),
            cs@ == name@,
            last_dot(cs@) == last_dot(cs@.take(j as int)),
        ensures
            j > 0 ==> last_dot(cs@) == Some(j - 1),
            j == 0 ==> last_dot(cs@) is None,
        decreases j,
    {
        assert(cs@.take(j as int).drop_last() =~= cs@.take(j - 1));
        if cs[j - 1] == '.' {
            assert(last_dot(cs@.take(j as int)) == Some(j - 1));
            break;
        }
        j = j - 1;
    }
    if j <= 1 {
        return false;
    }
    let ext_len = cs.len() - j;
    if ext_len != 3 {
        assert(cs@.subrange(j as int, cs@.len() as int).len() != 3);
        return false;
    }
    let res = cs[j] == 's' && cs[j + 1] == 'l' && cs[j + 2] == 'p';
    assert(res == (cs@.subrange(j as int, cs@.len() as int) =~= seq!['s', 'l', 'p']));
    res
}

/// Whether a file seen in the replay folder is a new replay to read: its path is not
/// empty and no match is stored under it yet.
pub fn is_new_replay_candidate(path: &str, store: &MatchStore) -> (res: bool)
    ensures
        res == (path@.len() > 0 && lookup(store@, path@) is None),
{
    let n = path.unicode_len();
    n > 0 && !store.contains_key(path)
}

} // verus!
