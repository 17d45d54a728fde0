//! The registry of teams as a mathematical object: a sequence of teams
//! without repeated names, keyed from 1 in the order of first sight.

use vstd::prelude::*;
use crate::model::{MatchTeamListView, TeamView};

verus! {

/// Some team of the registry has this name.
pub open spec fn knows(teams: Seq<TeamView>, name: Seq<char>) -> bool {
    exists|i: int| 0 <= i < teams.len() && (#[trigger] teams[i]).name == name
}

/// The place of a team of this name in the registry, where it has one.
pub open spec fn place_of(teams: Seq<TeamView>, name: Seq<char>) -> int {
    choose|i: int| 0 <= i < teams.len() && (#[trigger] teams[i]).name == name
}

/// The key of the team of this name, where the registry has one. Names are
/// compared exactly.
pub open spec fn spec_resolve_id(teams: Seq<TeamView>, name: Seq<char>) -> Option<int> {
    if knows(teams, name) {
        Some(teams[place_of(teams, name)].id)
    } else {
        None
    }
}

/// No name stands twice, and the keys count from 1 in the order in which
/// the names were first seen.
pub open spec fn registry_well_formed(teams: Seq<TeamView>) -> bool {
    &&& teams.len() <= i32::MAX
    &&& forall|i: int| 0 <= i < teams.len() ==> (#[trigger] teams[i]).id == i + 1
    &&& forall|i: int, j: int|
        0 <= i < j < teams.len() ==> (#[trigger] teams[i]).name != (#[trigger] teams[j]).name
}

/// The registry after a team of this name and code was offered to it: as
/// before where the name is known, else longer by that team under the next
/// key.
pub open spec fn spec_register(
    teams: Seq<TeamView>,
    name: Seq<char>,
    code: Option<Seq<char>>,
) -> Seq<TeamView> {
    if knows(teams, name) {
        teams
    } else {
        teams.push(TeamView { id: teams.len() as int + 1, name, code })
    }
}

/// The registry after some candidates were offered to it, one after the
/// other. The keys that the candidates bring are not looked at.
pub open spec fn spec_register_all(teams: Seq<TeamView>, candidates: Seq<TeamView>) -> Seq<
    TeamView,
>
    decreases candidates.len(),
{
    if candidates.len() == 0 {
        teams
    } else {
        let last = candidates.last();
        spec_register(spec_register_all(teams, candidates.drop_last()), last.name, last.code)
    }
}

/// The registry after the clubs of some rosters were offered to it, roster
/// after roster.
pub open spec fn spec_load_teams(teams: Seq<TeamView>, rosters: Seq<MatchTeamListView>) -> Seq<
    TeamView,
>
    decreases rosters.len(),
{
    if rosters.len() == 0 {
        teams
    } else {
        spec_register_all(spec_load_teams(teams, rosters.drop_last()), rosters.last().teams)
    }
}

/// How many clubs some rosters list together.
pub open spec fn roster_size(rosters: Seq<MatchTeamListView>) -> nat
    decreases rosters.len(),
{
    if rosters.len() == 0 {
        0
    } else {
        roster_size(rosters.drop_last()) + rosters.last().teams.len()
    }
}

/// Where names are not repeated, a name has one place only.
pub proof fn lemma_place_of_unique(teams: Seq<TeamView>, name: Seq<char>, at: int)
    requires
        registry_well_formed(teams),
        0 <= at < teams.len(),
        teams[at].name == name,
    ensures
        knows(teams, name),
        place_of(teams, name) == at,
        spec_resolve_id(teams, name) == Some(at + 1),
{
    let p = place_of(teams, name);
    if p < at {
        assert(teams[p].name != teams[at].name);
    } else if at < p {
        assert(teams[at].name != teams[p].name);
    }
}

/// Offering a team keeps the registry well formed: names stay unique and
/// keys stay dense.
pub proof fn lemma_register_keeps_well_formed(
    teams: Seq<TeamView>,
    name: Seq<char>,
    code: Option<Seq<char>>,
)
    requires
        registry_well_formed(teams),
        teams.len() < i32::MAX,
    ensures
        registry_well_formed(spec_register(teams, name, code)),
{
    let after = spec_register(teams, name, code);
    if !knows(teams, name) {
        assert forall|i: int, j: int| 0 <= i < j < after.len() implies (#[trigger] after[i]).name
            != (#[trigger] after[j]).name by {
            if j == teams.len() {
                assert(teams[i].name != name);
            } else {
                assert(teams[i].name != teams[j].name);
            }
        }
    }
}

/// The clubs of the first rosters are no more than the clubs of all.
pub proof fn lemma_roster_size_grows(rosters: Seq<MatchTeamListView>, count: int)
    requires
        0 <= count <= rosters.len(),
    ensures
        roster_size(rosters.take(count)) <= roster_size(rosters),
    decreases rosters.len(),
{
    if count == rosters.len() {
        assert(rosters.take(count) =~= rosters);
    } else {
        assert(rosters.drop_last().take(count) =~= rosters.take(count));
        lemma_roster_size_grows(rosters.drop_last(), count);
    }
}

/// Offering a name a second time changes nothing, whatever the code: the
/// registry then holds that name once, with the code that came first.
pub proof fn lemma_register_twice(
    teams: Seq<TeamView>,
    name: Seq<char>,
    first: Option<Seq<char>>,
    second: Option<Seq<char>>,
)
    requires
        registry_well_formed(teams),
        teams.len() < i32::MAX,
    ensures
        spec_register(spec_register(teams, name, first), name, second) == spec_register(
            teams,
            name,
            first,
        ),
        knows(spec_register(teams, name, first), name),
        forall|i: int, j: int|
            #![trigger spec_register(teams, name, first)[i], spec_register(teams, name, first)[j]]
            0 <= i < spec_register(teams, name, first).len() && 0 <= j < spec_register(
                teams,
                name,
                first,
            ).len() && spec_register(teams, name, first)[i].name == name && spec_register(
                teams,
                name,
                first,
            )[j].name == name ==> i == j,
        !knows(teams, name) ==> spec_register(teams, name, first)[place_of(
            spec_register(teams, name, first),
            name,
        )].code == first,
{
    let once = spec_register(teams, name, first);
    lemma_register_keeps_well_formed(teams, name, first);
    if !knows(teams, name) {
        lemma_place_of_unique(once, name, teams.len() as int);
    }
    assert forall|i: int, j: int|
        0 <= i < once.len() && 0 <= j < once.len() && once[i].name == name && once[j].name
            == name implies i == j by {
        if i < j {
            assert(once[i].name != once[j].name);
        } else if j < i {
            assert(once[j].name != once[i].name);
        }
    }
}

/// Keys are stable: offering one more team changes the key of no name
/// that is known, and the offered name is known afterwards.
pub proof fn lemma_register_keeps_keys(
    teams: Seq<TeamView>,
    name: Seq<char>,
    code: Option<Seq<char>>,
    other: Seq<char>,
)
    requires
        registry_well_formed(teams),
        teams.len() < i32::MAX,
    ensures
        knows(spec_register(teams, name, code), name),
        knows(teams, other) ==> spec_resolve_id(spec_register(teams, name, code), other)
            == spec_resolve_id(teams, other),
{
    let after = spec_register(teams, name, code);
    lemma_register_keeps_well_formed(teams, name, code);
    if !knows(teams, name) {
        assert(after[teams.len() as int].name == name);
    }
    if knows(teams, other) {
        let p = place_of(teams, other);
        lemma_place_of_unique(teams, other, p);
        lemma_place_of_unique(after, other, p);
    }
}

/// The registry after any sequence of candidates: no name stands twice
/// and the keys stay dense; the teams that were there stay in front,
/// unchanged; every candidate's name is known; no name is there that was
/// not offered; and a name that is new keeps the code of the first
/// candidate that brought it.
pub proof fn lemma_register_all_dedup(teams: Seq<TeamView>, candidates: Seq<TeamView>)
    requires
        registry_well_formed(teams),
        teams.len() + candidates.len() <= i32::MAX,
    ensures
        registry_well_formed(spec_register_all(teams, candidates)),
        teams.len() <= spec_register_all(teams, candidates).len() <= teams.len()
            + candidates.len(),
        spec_register_all(teams, candidates).take(teams.len() as int) == teams,
        forall|k: int|
            0 <= k < candidates.len() ==> knows(
                spec_register_all(teams, candidates),
                (#[trigger] candidates[k]).name,
            ),
        forall|i: int|
            teams.len() <= i < spec_register_all(teams, candidates).len() ==> exists|k: int|
                0 <= k < candidates.len() && (#[trigger] candidates[k]).name == (
                #[trigger] spec_register_all(teams, candidates)[i]).name,
        forall|k: int|
            0 <= k < candidates.len() && !knows(teams, (#[trigger] candidates[k]).name) && (
            forall|p: int| 0 <= p < k ==> (#[trigger] candidates[p]).name != candidates[k].name)
                ==> spec_register_all(teams, candidates)[place_of(
                spec_register_all(teams, candidates),
                candidates[k].name,
            )].code == candidates[k].code,
    decreases candidates.len(),
{
    let after = spec_register_all(teams, candidates);
    if candidates.len() == 0 {
        assert(after.take(teams.len() as int) =~= teams);
    } else {
        let front = candidates.drop_last();
        let last = candidates.last();
        let mid = spec_register_all(teams, front);
        lemma_register_all_dedup(teams, front);
        lemma_register_keeps_well_formed(mid, last.name, last.code);
        assert forall|k: int| 0 <= k < candidates.len() implies knows(
            after,
            (#[trigger] candidates[k]).name,
        ) by {
            if k < front.len() {
                let i = place_of(mid, front[k].name);
                assert(after[i] == mid[i]);
            } else if !knows(mid, last.name) {
                assert(after[mid.len() as int].name == last.name);
            }
        }
        assert forall|i: int| teams.len() <= i < after.len() implies exists|k: int|
            0 <= k < candidates.len() && (#[trigger] candidates[k]).name == (
            #[trigger] after[i]).name by {
            if i < mid.len() {
                assert(after[i] == mid[i]);
                let k = choose|k: int|
                    0 <= k < front.len() && (#[trigger] front[k]).name == mid[i].name;
                assert(candidates[k] == front[k]);
            } else {
                assert(candidates[candidates.len() - 1].name == after[i].name);
            }
        }
        assert forall|k: int|
            0 <= k < candidates.len() && !knows(teams, (#[trigger] candidates[k]).name) && (
            forall|p: int|
                0 <= p < k ==> (#[trigger] candidates[p]).name
                    != candidates[k].name) implies after[place_of(after, candidates[k].name)].code
            == candidates[k].code by {
            let name = candidates[k].name;
            if k < front.len() {
                assert forall|p: int| 0 <= p < k implies (#[trigger] front[p]).name
                    != front[k].name by {
                    assert(candidates[p] == front[p]);
                }
                let at = place_of(mid, name);
                lemma_place_of_unique(after, name, at);
            } else {
                if knows(mid, name) {
                    let at = place_of(mid, name);
                    if at < teams.len() {
                        assert(mid.take(teams.len() as int)[at] == mid[at]);
                    } else {
                        let earlier = choose|e: int|
                            0 <= e < front.len() && (#[trigger] front[e]).name == mid[at].name;
                        assert(candidates[earlier] == front[earlier]);
                    }
                }
                lemma_place_of_unique(after, name, mid.len() as int);
            }
        }
    }
}

/// Some team of the registry has this key.
pub open spec fn holds_key(teams: Seq<TeamView>, key: int) -> bool {
    exists|i: int| 0 <= i < teams.len() && (#[trigger] teams[i]).id == key
}

/// In a well-formed registry no key stands twice, and the keys are the
/// numbers from 1 to the number of teams, without a gap.
pub proof fn lemma_team_keys_unique_and_dense(teams: Seq<TeamView>)
    requires
        registry_well_formed(teams),
    ensures
        forall|i: int, j: int|
            0 <= i < j < teams.len() ==> (#[trigger] teams[i]).id != (#[trigger] teams[j]).id,
        forall|i: int| 0 <= i < teams.len() ==> 1 <= (#[trigger] teams[i]).id <= teams.len(),
        forall|key: int| 1 <= key <= teams.len() ==> #[trigger] holds_key(teams, key),
{
    assert forall|key: int| 1 <= key <= teams.len() implies #[trigger] holds_key(teams, key) by {
        assert(teams[key - 1].id == key);
    }
}

/// Offering candidates to a well-formed registry leaves it well formed,
/// with the teams that were there in front.
pub proof fn lemma_register_all_well_formed(teams: Seq<TeamView>, candidates: Seq<TeamView>)
    requires
        registry_well_formed(teams),
        teams.len() + candidates.len() <= i32::MAX,
    ensures
        registry_well_formed(spec_register_all(teams, candidates)),
        teams.len() <= spec_register_all(teams, candidates).len() <= teams.len()
            + candidates.len(),
        spec_register_all(teams, candidates).take(teams.len() as int) == teams,
{
    lemma_register_all_dedup(teams, candidates);
}

/// Loading rosters into a well-formed registry leaves it well formed,
/// with the teams that were there in front, and adds no more teams than
/// the rosters list.
pub proof fn lemma_load_teams_well_formed(teams: Seq<TeamView>, rosters: Seq<MatchTeamListView>)
    requires
        registry_well_formed(teams),
        teams.len() + roster_size(rosters) <= i32::MAX,
    ensures
        registry_well_formed(spec_load_teams(teams, rosters)),
        teams.len() <= spec_load_teams(teams, rosters).len() <= teams.len() + roster_size(
            rosters,
        ),
        spec_load_teams(teams, rosters).take(teams.len() as int) == teams,
    decreases rosters.len(),
{
    if rosters.len() == 0 {
        assert(teams.take(teams.len() as int) =~= teams);
    } else {
        let mid = spec_load_teams(teams, rosters.drop_last());
        let after = spec_load_teams(teams, rosters);
        lemma_load_teams_well_formed(teams, rosters.drop_last());
        lemma_register_all_well_formed(mid, rosters.last().teams);
        assert forall|i: int| 0 <= i < teams.len() implies after[i] == teams[i] by {
            assert(mid.take(teams.len() as int)[i] == teams[i]);
        }
    }
}

} // verus!
