//! Classification of the corpus's entries by their names.

use vstd::prelude::*;
use vstd::string::StrSliceExecFns;

verus! {

/// `needle` stands in `hay` at position `at`.
pub open spec fn occurs_at(hay: Seq<char>, needle: Seq<char>, at: int) -> bool {
    &&& 0 <= at
    &&& at + needle.len() <= hay.len()
    &&& hay.subrange(at, at + needle.len()) == needle
}

/// `needle` stands somewhere in `hay`.
pub open spec fn contains_text(hay: Seq<char>, needle: Seq<char>) -> bool {
    exists|at: int| occurs_at(hay, needle, at)
}

/// A path of a roster file: it holds `clubs`.
pub open spec fn is_roster_path(path: Seq<char>) -> bool {
    contains_text(path, "clubs"@)
}

/// A path of a league file: it holds neither `clubs` nor `groups`.
pub open spec fn is_league_path(path: Seq<char>) -> bool {
    !contains_text(path, "clubs"@) && !contains_text(path, "groups"@)
}

/// What a file of the corpus is read as.
#[derive(Clone, Copy, Debug, PartialEq, Eq, Structural)]
pub enum FileKind {
    /// A list of clubs.
    Roster,
    /// One competition's matches.
    League,
    /// Left unread.
    Excluded,
}

/// The kind of the file at a path.
pub open spec fn spec_classify(path: Seq<char>) -> FileKind {
    if is_roster_path(path) {
        FileKind::Roster
    } else if is_league_path(path) {
        FileKind::League
    } else {
        FileKind::Excluded
    }
}

/// Whether the first `matched` characters of `needle` stand in `hay` from
/// position `at` on.
spec fn agrees(hay: Seq<char>, needle: Seq<char>, at: int, matched: int) -> bool {
    forall|k: int| 0 <= k < matched ==> hay[at + k] == needle[k]
}

/// Tells whether `needle` stands somewhere in `hay`.
pub fn text_contains(hay: &str, needle: &str) -> (found: bool)
    ensures
        found == contains_text(hay@, needle@),
{
    let n = hay.unicode_len();
    let m = needle.unicode_len();
    if m > n {
        assert forall|at: int| !occurs_at(hay@, needle@, at) by {}
        return false;
    }
    let mut at: usize = 0;
    while at <= n - m
        invariant
            n == hay@.len(),
            m == needle@.len(),
            m <= n,
            at <= n - m + 1,
            forall|p: int| 0 <= p < at ==> !occurs_at(hay@, needle@, p),
        decreases n - m + 1 - at,
    {
        let mut k: usize = 0;
        while k < m && hay.get_char(at + k) == needle.get_char(k)
            invariant
                n == hay@.len(),
                m == needle@.len(),
                at + m <= n,
                k <= m,
                agrees(hay@, needle@, at as int, k as int),
            decreases m - k,
        {
            k += 1;
        }
        if k == m {
            assert(hay@.subrange(at as int, at + m) =~= needle@);
            assert(occurs_at(hay@, needle@, at as int));
            return true;
        }
        assert(!occurs_at(hay@, needle@, at as int)) by {
            if occurs_at(hay@, needle@, at as int) {
                assert(hay@.subrange(at as int, at + m)[k as int] == needle@[k as int]);
            }
        }
        at += 1;
    }
    assert forall|p: int| !occurs_at(hay@, needle@, p) by {}
    false
}

/// Tells whether the file at a path lists clubs.
pub fn is_roster_file(path: &str) -> (roster: bool)
    ensures
        roster == is_roster_path(path@),
{
    text_contains(path, "clubs")
}

/// Tells whether the file at a path holds a league's matches.
pub fn is_league_file(path: &str) -> (league: bool)
    ensures
        league == is_league_path(path@),
{
    !text_contains(path, "clubs") && !text_contains(path, "groups")
}

/// Classifies the file at a path: a roster where the path holds `clubs`;
/// else a league where it does not hold `groups`; else excluded.
pub fn classify(path: &str) -> (kind: FileKind)
    ensures
        kind == spec_classify(path@),
{
    if is_roster_file(path) {
        FileKind::Roster
    } else if is_league_file(path) {
        FileKind::League
    } else {
        FileKind::Excluded
    }
}

/// Whether an entry of the corpus's root is searched for files: a
/// directory other than the version-control metadata.
pub open spec fn is_competition_entry(is_dir: bool, name: Seq<char>) -> bool {
    is_dir && name != ".git"@
}

/// Tells whether an entry of the corpus's root is searched for files,
/// from what it is and the last component of its path.
pub fn is_competition_dir(is_dir: bool, name: &str) -> (searched: bool)
    ensures
        searched == is_competition_entry(is_dir, name@),
{
    is_dir && !text_equal(name, ".git")
}

/// Tells whether two texts are the same.
pub fn text_equal(a: &str, b: &str) -> (same: bool)
    ensures
        same == (a@ == b@),
{
    let n = a.unicode_len();
    if n != b.unicode_len() {
        return false;
    }
    let mut k: usize = 0;
    while k < n
        invariant
            n == a@.len(),
            n == b@.len(),
            k <= n,
            forall|p: int| 0 <= p < k ==> a@[p] == b@[p],
        decreases n - k,
    {
        if a.get_char(k) != b.get_char(k) {
            return false;
        }
        k += 1;
    }
    assert(a@ =~= b@);
    true
}

} // verus!
