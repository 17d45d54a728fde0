//! The loader: the corpus's files, the registry of teams and the list of
//! leagues, filled in that order.

use vstd::prelude::*;
use crate::files::{is_league_file, is_league_path, is_roster_file, is_roster_path};
use crate::league::{LeagueJsonFormat, LeagueView};
use crate::model::{copy_text, text_view, MatchTeamList, MatchTeamListView, Team, TeamView};
use crate::registry::{
    knows, lemma_place_of_unique, lemma_register_keeps_well_formed, lemma_roster_size_grows,
    registry_well_formed, roster_size, spec_load_teams, spec_register, spec_register_all,
    spec_resolve_id,
};

verus! {

/// The keys of the leagues count from 1 in the order of the list, and
/// every league is well formed.
pub open spec fn leagues_well_formed(leagues: Seq<LeagueView>) -> bool {
    &&& leagues.len() <= i32::MAX
    &&& forall|i: int|
        0 <= i < leagues.len() ==> (#[trigger] leagues[i]).id() == i + 1 && leagues[i].well_formed()
}

/// The list of leagues after some more were added: each new one stands
/// behind those before it, under the next key.
pub open spec fn spec_load_leagues(leagues: Seq<LeagueView>, added: Seq<LeagueView>) -> Seq<
    LeagueView,
> {
    leagues + Seq::new(added.len(), |k: int| added[k].with_id(leagues.len() + k + 1))
}

/// The loader's state.
pub struct JsonLoader {
    pub files: Vec<String>,
    pub teams: Vec<Team>,
    pub leagues: Vec<LeagueJsonFormat>,
    pub is_initialized: bool,
}

/// The view of a [`JsonLoader`].
pub struct JsonLoaderView {
    pub files: Seq<Seq<char>>,
    pub teams: Seq<TeamView>,
    pub leagues: Seq<LeagueView>,
    pub is_initialized: bool,
}

impl View for JsonLoader {
    type V = JsonLoaderView;

    open spec fn view(&self) -> JsonLoaderView {
        JsonLoaderView {
            files: self.files.deep_view(),
            teams: self.teams.deep_view(),
            leagues: self.leagues.deep_view(),
            is_initialized: self.is_initialized,
        }
    }
}

impl JsonLoaderView {
    /// The registry and the list of leagues are well formed.
    pub open spec fn well_formed(self) -> bool {
        registry_well_formed(self.teams) && leagues_well_formed(self.leagues)
    }
}

impl JsonLoader {
    /// The registry and the list of leagues are well formed.
    pub open spec fn well_formed(&self) -> bool {
        self@.well_formed()
    }

    /// A loader that knows no file, no team and no league.
    pub fn new() -> (loader: JsonLoader)
        ensures
            loader@ == (JsonLoaderView {
                files: Seq::empty(),
                teams: Seq::empty(),
                leagues: Seq::empty(),
                is_initialized: false,
            }),
            loader.well_formed(),
    {
        let loader = JsonLoader {
            files: Vec::new(),
            teams: Vec::new(),
            leagues: Vec::new(),
            is_initialized: false,
        };
        assert(loader.files.deep_view() =~= Seq::empty());
        assert(loader.teams.deep_view() =~= Seq::empty());
        assert(loader.leagues.deep_view() =~= Seq::empty());
        loader
    }

    /// Tells whether the registry and the list of leagues are well formed.
    pub fn is_well_formed(&self) -> (ok: bool)
        ensures
            ok == self.well_formed(),
    {
        if self.teams.len() > i32::MAX as usize || self.leagues.len() > i32::MAX as usize {
            return false;
        }
        let mut i: usize = 0;
        while i < self.teams.len()
            invariant
                i <= self.teams.len() <= i32::MAX,
                forall|p: int| 0 <= p < i ==> (#[trigger] self@.teams[p]).id == p + 1,
                forall|p: int, q: int|
                    0 <= p < q < i ==> (#[trigger] self@.teams[p]).name != (
                    #[trigger] self@.teams[q]).name,
            decreases self.teams.len() - i,
        {
            if self.teams[i].id != i as i32 + 1 {
                return false;
            }
            let mut j: usize = 0;
            while j < i
                invariant
                    j <= i < self.teams.len(),
                    forall|p: int|
                        0 <= p < j ==> (#[trigger] self@.teams[p]).name != self@.teams[i as int].name,
                decreases i - j,
            {
                assert(self@.teams[j as int] == self.teams[j as int]@);
                if self.teams[j].name == self.teams[i].name {
                    return false;
                }
                j += 1;
            }
            i += 1;
        }
        let mut k: usize = 0;
        while k < self.leagues.len()
            invariant
                k <= self.leagues.len() <= i32::MAX,
                registry_well_formed(self@.teams),
                forall|p: int|
                    0 <= p < k ==> (#[trigger] self@.leagues[p]).id() == p + 1
                        && self@.leagues[p].well_formed(),
            decreases self.leagues.len() - k,
        {
            assert(self@.leagues[k as int] == self.leagues[k as int]@);
            if self.leagues[k].get_league_id() != k as i32 + 1 || !self.leagues[k].is_well_formed() {
                return false;
            }
            k += 1;
        }
        true
    }

    /// Looks a team up by its exact name and gives its key.
    pub fn get_team_id_from_name(&self, name: &String) -> (id: Option<i32>)
        requires
            self.well_formed(),
        ensures
            match id {
                Some(v) => spec_resolve_id(self@.teams, name@) == Some(v as int),
                None => spec_resolve_id(self@.teams, name@) is None,
            },
            id is Some <==> knows(self@.teams, name@),
    {
        let mut i: usize = 0;
        while i < self.teams.len()
            invariant
                self.well_formed(),
                i <= self.teams.len(),
                forall|p: int| 0 <= p < i ==> (#[trigger] self@.teams[p]).name != name@,
            decreases self.teams.len() - i,
        {
            if self.teams[i].name == *name {
                proof {
                    lemma_place_of_unique(self@.teams, name@, i as int);
                }
                return Some(self.teams[i].id);
            }
            i += 1;
        }
        None
    }

    pub fn get_teams(&self) -> (teams: &Vec<Team>)
        ensures
            teams.deep_view() == self@.teams,
    {
        &self.teams
    }

    pub fn get_leagues(&self) -> (leagues: &Vec<LeagueJsonFormat>)
        ensures
            leagues.deep_view() == self@.leagues,
    {
        &self.leagues
    }
}

impl JsonLoader {
    /// Offers a team to the registry. A name that is known already leaves
    /// the registry as it was, whatever the code; a new name is added
    /// behind the others, under the next key.
    pub fn register_team(&mut self, name: String, code: Option<String>) -> (added: bool)
        requires
            old(self).well_formed(),
            old(self)@.teams.len() < i32::MAX,
        ensures
            final(self)@ == (JsonLoaderView {
                teams: spec_register(old(self)@.teams, name@, text_view(code)),
                ..old(self)@
            }),
            added == !knows(old(self)@.teams, name@),
            final(self).well_formed(),
    {
        if self.get_team_id_from_name(&name).is_some() {
            return false;
        }
        let id: i32 = self.teams.len() as i32 + 1;
        let team = Team { id, name, code };
        self.teams.push(team);
        proof {
            let before = old(self)@.teams;
            assert(self.teams.deep_view() =~= before.push(team@));
            lemma_register_keeps_well_formed(before, name@, text_view(code));
        }
        true
    }

    /// Offers the clubs of one roster to the registry, in their order.
    pub fn register_all(&mut self, candidates: &Vec<Team>)
        requires
            old(self).well_formed(),
            old(self)@.teams.len() + candidates.len() <= i32::MAX,
        ensures
            final(self)@ == (JsonLoaderView {
                teams: spec_register_all(old(self)@.teams, candidates.deep_view()),
                ..old(self)@
            }),
            final(self)@.teams.len() <= old(self)@.teams.len() + candidates.len(),
            final(self).well_formed(),
    {
        let ghost start = self@.teams;
        let ghost offered = candidates.deep_view();
        let mut j: usize = 0;
        while j < candidates.len()
            invariant
                j <= candidates.len(),
                offered == candidates.deep_view(),
                start.len() + candidates.len() <= i32::MAX,
                self.well_formed(),
                self@ == (JsonLoaderView {
                    teams: spec_register_all(start, offered.take(j as int)),
                    ..old(self)@
                }),
                self@.teams.len() <= start.len() + j,
            decreases candidates.len() - j,
        {
            let candidate = &candidates[j];
            self.register_team(candidate.name.clone(), copy_text(&candidate.code));
            proof {
                assert(offered.take(j + 1).drop_last() =~= offered.take(j as int));
            }
            j += 1;
        }
        assert(offered.take(j as int) =~= offered);
    }

    /// Registers the clubs of all rosters, roster after roster, and hands
    /// out the registry. Before [`JsonLoader::init`] nothing is done and
    /// nothing handed out.
    pub fn load_teams(&mut self, rosters: &Vec<MatchTeamList>) -> (teams: Option<&Vec<Team>>)
        requires
            old(self).well_formed(),
            old(self)@.teams.len() + roster_size(rosters.deep_view()) <= i32::MAX,
        ensures
            final(self).well_formed(),
            !old(self)@.is_initialized ==> teams is None && final(self)@ == old(self)@,
            old(self)@.is_initialized ==> {
                &&& final(self)@ == (JsonLoaderView {
                    teams: spec_load_teams(old(self)@.teams, rosters.deep_view()),
                    ..old(self)@
                })
                &&& teams matches Some(t) && t.deep_view() == final(self)@.teams
            },
    {
        if !self.is_initialized {
            return None;
        }
        let ghost start = self@.teams;
        let ghost given = rosters.deep_view();
        let mut i: usize = 0;
        while i < rosters.len()
            invariant
                i <= rosters.len(),
                given == rosters.deep_view(),
                start.len() + roster_size(given) <= i32::MAX,
                self.well_formed(),
                self@ == (JsonLoaderView {
                    teams: spec_load_teams(start, given.take(i as int)),
                    ..old(self)@
                }),
                self@.teams.len() <= start.len() + roster_size(given.take(i as int)),
            decreases rosters.len() - i,
        {
            let roster = &rosters[i];
            proof {
                assert(given.take(i + 1).drop_last() =~= given.take(i as int));
                lemma_roster_size_grows(given, i + 1);
            }
            self.register_all(&roster.teams);
            i += 1;
        }
        assert(given.take(i as int) =~= given);
        Some(&self.teams)
    }
}

/// The paths among `files` that name a roster, in their order.
pub open spec fn roster_paths(files: Seq<Seq<char>>) -> Seq<Seq<char>> {
    files.filter(|path: Seq<char>| is_roster_path(path))
}

/// The paths among `files` that name a league file, in their order.
pub open spec fn league_paths(files: Seq<Seq<char>>) -> Seq<Seq<char>> {
    files.filter(|path: Seq<char>| is_league_path(path))
}

impl JsonLoader {
    /// Takes the paths of the files that were found in the corpus, behind
    /// those it has, and makes the loader ready to load.
    pub fn init(&mut self, found: Vec<String>)
        ensures
            final(self)@ == (JsonLoaderView {
                files: old(self)@.files + found.deep_view(),
                is_initialized: true,
                ..old(self)@
            }),
    {
        let mut found = found;
        let ghost before = self.files.deep_view();
        let ghost added = found.deep_view();
        self.files.append(&mut found);
        self.is_initialized = true;
        assert(self.files.deep_view() =~= before + added);
    }

    /// The paths of the roster files, in the order in which they were found.
    pub fn roster_files(&self) -> (paths: Vec<String>)
        ensures
            paths.deep_view() == roster_paths(self@.files),
    {
        let mut paths: Vec<String> = Vec::new();
        let ghost files = self@.files;
        let mut i: usize = 0;
        while i < self.files.len()
            invariant
                i <= self.files.len(),
                files == self.files.deep_view(),
                paths.deep_view() == roster_paths(files.take(i as int)),
            decreases self.files.len() - i,
        {
            let ghost kept = paths.deep_view();
            proof {
                assert(files.take(i + 1).drop_last() =~= files.take(i as int));
                reveal(Seq::filter);
            }
            if is_roster_file(self.files[i].as_str()) {
                paths.push(self.files[i].clone());
                assert(paths.deep_view() =~= kept.push(self.files[i as int]@));
            }
            i += 1;
        }
        assert(files.take(i as int) =~= files);
        paths
    }

    /// The paths of the league files, in the order in which they were found.
    pub fn league_files(&self) -> (paths: Vec<String>)
        ensures
            paths.deep_view() == league_paths(self@.files),
    {
        let mut paths: Vec<String> = Vec::new();
        let ghost files = self@.files;
        let mut i: usize = 0;
        while i < self.files.len()
            invariant
                i <= self.files.len(),
                files == self.files.deep_view(),
                paths.deep_view() == league_paths(files.take(i as int)),
            decreases self.files.len() - i,
        {
            let ghost kept = paths.deep_view();
            proof {
                assert(files.take(i + 1).drop_last() =~= files.take(i as int));
                reveal(Seq::filter);
            }
            if is_league_file(self.files[i].as_str()) {
                paths.push(self.files[i].clone());
                assert(paths.deep_view() =~= kept.push(self.files[i as int]@));
            }
            i += 1;
        }
        assert(files.take(i as int) =~= files);
        paths
    }

    /// Puts a league behind those that are there and gives it the next key.
    pub fn add_league(&mut self, league: LeagueJsonFormat)
        requires
            old(self).well_formed(),
            old(self)@.leagues.len() < i32::MAX,
            league@.well_formed(),
        ensures
            final(self)@ == (JsonLoaderView {
                leagues: old(self)@.leagues.push(
                    league@.with_id(old(self)@.leagues.len() as int + 1),
                ),
                ..old(self)@
            }),
            final(self).well_formed(),
    {
        let mut league = league;
        let ghost before = self.leagues.deep_view();
        league.set_league_id(self.leagues.len() as i32 + 1);
        self.leagues.push(league);
        assert(self.leagues.deep_view() =~= before.push(league@));
    }

    /// Adds the leagues that were read, in their order, each under the next
    /// key, and hands out the list. Before [`JsonLoader::init`] nothing is
    /// done and nothing handed out.
    pub fn load_leagues(&mut self, read: Vec<LeagueJsonFormat>) -> (leagues: Option<
        &Vec<LeagueJsonFormat>,
    >)
        requires
            old(self).well_formed(),
            old(self)@.leagues.len() + read.len() <= i32::MAX,
            forall|k: int| 0 <= k < read.len() ==> (#[trigger] read[k])@.well_formed(),
        ensures
            final(self).well_formed(),
            !old(self)@.is_initialized ==> leagues is None && final(self)@ == old(self)@,
            old(self)@.is_initialized ==> {
                &&& final(self)@ == (JsonLoaderView {
                    leagues: spec_load_leagues(old(self)@.leagues, read.deep_view()),
                    ..old(self)@
                })
                &&& leagues matches Some(l) && l.deep_view() == final(self)@.leagues
            },
    {
        if !self.is_initialized {
            return None;
        }
        let ghost start = self@.leagues;
        let ghost given = read.deep_view();
        for league in it: read
            invariant
                it.seq() == read@,
                given == read.deep_view(),
                start.len() + read.len() <= i32::MAX,
                forall|k: int| 0 <= k < read.len() ==> (#[trigger] read[k])@.well_formed(),
                self.well_formed(),
                self@ == (JsonLoaderView {
                    leagues: spec_load_leagues(start, given.take(it.index() as int)),
                    ..old(self)@
                }),
        {
            let ghost k = it.index() as int;
            self.add_league(league);
            assert(self@.leagues =~= spec_load_leagues(start, given.take(k + 1)));
        }
        assert(given.take(read.len() as int) =~= given);
        Some(&self.leagues)
    }
}

/// Some league of the list has this key.
pub open spec fn league_holds_key(leagues: Seq<LeagueView>, key: int) -> bool {
    exists|i: int| 0 <= i < leagues.len() && (#[trigger] leagues[i]).id() == key
}

/// In a well-formed list of leagues no key stands twice, and the keys are
/// the numbers from 1 to the number of leagues, without a gap.
pub proof fn lemma_league_keys_unique_and_dense(leagues: Seq<LeagueView>)
    requires
        leagues_well_formed(leagues),
    ensures
        forall|i: int, j: int|
            0 <= i < j < leagues.len() ==> (#[trigger] leagues[i]).id() != (
            #[trigger] leagues[j]).id(),
        forall|i: int|
            0 <= i < leagues.len() ==> 1 <= (#[trigger] leagues[i]).id() <= leagues.len(),
        forall|key: int|
            1 <= key <= leagues.len() ==> #[trigger] league_holds_key(leagues, key),
{
    assert forall|key: int| 1 <= key <= leagues.len() implies #[trigger] league_holds_key(
        leagues,
        key,
    ) by {
        assert(leagues[key - 1].id() == key);
    }
}

/// Adding leagues to a well-formed list leaves it well formed: the
/// leagues that were there stay in front, and each new one follows in its
/// order, changed in its key alone.
pub proof fn lemma_load_leagues_well_formed(leagues: Seq<LeagueView>, added: Seq<LeagueView>)
    requires
        leagues_well_formed(leagues),
        leagues.len() + added.len() <= i32::MAX,
        forall|k: int| 0 <= k < added.len() ==> (#[trigger] added[k]).well_formed(),
    ensures
        leagues_well_formed(spec_load_leagues(leagues, added)),
        spec_load_leagues(leagues, added).len() == leagues.len() + added.len(),
        spec_load_leagues(leagues, added).take(leagues.len() as int) == leagues,
        forall|k: int|
            0 <= k < added.len() ==> {
                &&& (#[trigger] spec_load_leagues(leagues, added)[leagues.len() + k]).id()
                    == leagues.len() + k + 1
                &&& spec_load_leagues(leagues, added)[leagues.len() + k].name() == added[k].name()
                &&& spec_load_leagues(leagues, added)[leagues.len() + k].normalized()
                    == added[k].normalized()
            },
{
    let after = spec_load_leagues(leagues, added);
    assert forall|i: int| 0 <= i < after.len() implies (#[trigger] after[i]).id() == i + 1
        && after[i].well_formed() by {
        if i >= leagues.len() {
            assert(added[i - leagues.len()].well_formed());
        }
    }
}

/// Loading is a function of what is loaded: two fresh loaders that are
/// given the same rosters and the same leagues in the same order hold the
/// same teams and leagues under the same keys.
pub proof fn lemma_reload_gives_same_keys(
    first: JsonLoaderView,
    second: JsonLoaderView,
    rosters: Seq<MatchTeamListView>,
    read: Seq<LeagueView>,
)
    requires
        first.teams == spec_load_teams(Seq::empty(), rosters),
        second.teams == spec_load_teams(Seq::empty(), rosters),
        first.leagues == spec_load_leagues(Seq::empty(), read),
        second.leagues == spec_load_leagues(Seq::empty(), read),
    ensures
        first.teams == second.teams,
        first.leagues == second.leagues,
        forall|i: int|
            0 <= i < first.teams.len() ==> (#[trigger] first.teams[i]).id == second.teams[i].id,
        forall|i: int|
            0 <= i < first.leagues.len() ==> (#[trigger] first.leagues[i]).id()
                == second.leagues[i].id(),
{
}

} // verus!
