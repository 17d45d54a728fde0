//! The rows to store: leagues with their keys, and matches with the keys
//! of their league and of both teams.

use vstd::prelude::*;
use crate::date::MatchDate;
use crate::json::JsonLoader;
use crate::league::{LeagueJsonFormat, LeagueView};
use crate::model::{text_view, NormalizedMatch, NormalizedMatchView, TeamView};
use crate::registry::{
    knows, lemma_place_of_unique, lemma_register_all_well_formed, place_of, registry_well_formed,
    spec_register_all, spec_resolve_id,
};

verus! {

/// A match as it is stored: its league and both teams are given by key.
#[derive(Debug)]
pub struct Match {
    pub date: MatchDate,
    pub league_id: i32,
    pub team1_id: i32,
    pub team2_id: i32,
    pub stage: Option<String>,
    pub round: Option<String>,
    pub team1_score: Option<i32>,
    pub team2_score: Option<i32>,
}

/// The view of a [`Match`].
pub struct MatchView {
    pub date: MatchDate,
    pub league_id: int,
    pub team1_id: int,
    pub team2_id: int,
    pub stage: Option<Seq<char>>,
    pub round: Option<Seq<char>>,
    pub team1_score: Option<i32>,
    pub team2_score: Option<i32>,
}

impl View for Match {
    type V = MatchView;

    open spec fn view(&self) -> MatchView {
        MatchView {
            date: self.date,
            league_id: self.league_id as int,
            team1_id: self.team1_id as int,
            team2_id: self.team2_id as int,
            stage: text_view(self.stage),
            round: text_view(self.round),
            team1_score: self.team1_score,
            team2_score: self.team2_score,
        }
    }
}

/// What becomes of one match of a league: it is emitted as a row, or
/// dropped because a team's name is not in the registry.
#[derive(Debug)]
pub enum MatchOutcome {
    Emitted(Match),
    Dropped { league_id: i32, record: NormalizedMatch },
}

/// The view of a [`MatchOutcome`].
pub enum MatchOutcomeView {
    Emitted(MatchView),
    Dropped { league_id: int, record: NormalizedMatchView },
}

impl View for MatchOutcome {
    type V = MatchOutcomeView;

    open spec fn view(&self) -> MatchOutcomeView {
        match self {
            MatchOutcome::Emitted(m) => MatchOutcomeView::Emitted(m@),
            MatchOutcome::Dropped { league_id, record } => MatchOutcomeView::Dropped {
                league_id: *league_id as int,
                record: record@,
            },
        }
    }
}

impl DeepView for MatchOutcome {
    type V = MatchOutcomeView;

    open spec fn deep_view(&self) -> MatchOutcomeView {
        self@
    }
}

/// The row of a match whose teams are both in the registry.
pub open spec fn spec_resolve_match(
    teams: Seq<TeamView>,
    league_id: int,
    record: NormalizedMatchView,
) -> Option<MatchView> {
    match (spec_resolve_id(teams, record.team1), spec_resolve_id(teams, record.team2)) {
        (Some(team1_id), Some(team2_id)) => Some(
            MatchView {
                date: record.date,
                league_id,
                team1_id,
                team2_id,
                stage: record.stage,
                round: record.round,
                team1_score: record.team1_score,
                team2_score: record.team2_score,
            },
        ),
        _ => None,
    }
}

/// What becomes of one match: emitted where both names resolve, dropped
/// where one does not.
pub open spec fn outcome_of(
    teams: Seq<TeamView>,
    league_id: int,
    record: NormalizedMatchView,
) -> MatchOutcomeView {
    match spec_resolve_match(teams, league_id, record) {
        Some(row) => MatchOutcomeView::Emitted(row),
        None => MatchOutcomeView::Dropped { league_id, record },
    }
}

/// What becomes of some matches of one league, in their order.
pub open spec fn outcomes_of(
    teams: Seq<TeamView>,
    league_id: int,
    records: Seq<NormalizedMatchView>,
) -> Seq<MatchOutcomeView> {
    Seq::new(records.len(), |k: int| outcome_of(teams, league_id, records[k]))
}

/// What becomes of the matches of one league, in the order of the source.
pub open spec fn league_outcomes(teams: Seq<TeamView>, league: LeagueView) -> Seq<
    MatchOutcomeView,
> {
    outcomes_of(teams, league.id(), league.normalized())
}

/// What becomes of the matches of some leagues, league after league.
pub open spec fn corpus_outcomes(teams: Seq<TeamView>, leagues: Seq<LeagueView>) -> Seq<
    MatchOutcomeView,
>
    decreases leagues.len(),
{
    if leagues.len() == 0 {
        Seq::empty()
    } else {
        corpus_outcomes(teams, leagues.drop_last()) + league_outcomes(teams, leagues.last())
    }
}

/// Resolves both team names of a match against the loader's registry.
/// The match is emitted if and only if both names are registered.
pub fn resolve_match(json_loader: &JsonLoader, league_id: i32, record: NormalizedMatch) -> (outcome:
    MatchOutcome)
    requires
        json_loader.well_formed(),
    ensures
        outcome@ == outcome_of(json_loader@.teams, league_id as int, record@),
        outcome is Emitted <==> knows(json_loader@.teams, record@.team1) && knows(
            json_loader@.teams,
            record@.team2,
        ),
{
    let team1_id = json_loader.get_team_id_from_name(&record.team1);
    let team2_id = json_loader.get_team_id_from_name(&record.team2);
    match (team1_id, team2_id) {
        (Some(team1_id), Some(team2_id)) => MatchOutcome::Emitted(
            Match {
                date: record.date,
                league_id,
                team1_id,
                team2_id,
                stage: record.stage,
                round: record.round,
                team1_score: record.team1_score,
                team2_score: record.team2_score,
            },
        ),
        _ => MatchOutcome::Dropped { league_id, record },
    }
}

/// Normalizes one league and resolves each of its matches, in the order of
/// the source.
pub fn resolve_league(json_loader: &JsonLoader, league: &LeagueJsonFormat) -> (outcomes: Vec<
    MatchOutcome,
>)
    requires
        json_loader.well_formed(),
        league@.well_formed(),
    ensures
        outcomes.deep_view() == league_outcomes(json_loader@.teams, league@),
{
    let league_id = league.get_league_id();
    let records = league.normalize();
    let ghost given = records.deep_view();
    let ghost teams = json_loader@.teams;
    let mut outcomes: Vec<MatchOutcome> = Vec::new();
    for record in it: records
        invariant
            it.seq() == records@,
            given == records.deep_view(),
            teams == json_loader@.teams,
            json_loader.well_formed(),
            outcomes.deep_view() == outcomes_of(
                teams,
                league_id as int,
                given.take(it.index() as int),
            ),
    {
        let ghost k = it.index() as int;
        let ghost before = outcomes.deep_view();
        let outcome = resolve_match(json_loader, league_id, record);
        outcomes.push(outcome);
        assert(outcomes_of(teams, league_id as int, given.take(k + 1)) =~= before.push(outcome@));
    }
    outcomes
}

/// Resolves the matches of all leagues of the loader, league after league.
/// This is done on the registry as it stands: rosters are to be loaded
/// before.
pub fn resolve_matches_from_loader(json_loader: &JsonLoader) -> (outcomes: Vec<MatchOutcome>)
    requires
        json_loader.well_formed(),
    ensures
        outcomes.deep_view() == corpus_outcomes(json_loader@.teams, json_loader@.leagues),
{
    let ghost teams = json_loader@.teams;
    let ghost leagues = json_loader@.leagues;
    let mut outcomes: Vec<MatchOutcome> = Vec::new();
    let mut i: usize = 0;
    while i < json_loader.leagues.len()
        invariant
            i <= json_loader.leagues.len(),
            teams == json_loader@.teams,
            leagues == json_loader@.leagues,
            json_loader.well_formed(),
            outcomes.deep_view() == corpus_outcomes(teams, leagues.take(i as int)),
        decreases json_loader.leagues.len() - i,
    {
        let league = &json_loader.leagues[i];
        assert(league@ == leagues[i as int]);
        let ghost before = outcomes.deep_view();
        let mut next = resolve_league(json_loader, league);
        let ghost added = next.deep_view();
        outcomes.append(&mut next);
        proof {
            assert(outcomes.deep_view() =~= before + added);
            assert(leagues.take(i + 1).drop_last() =~= leagues.take(i as int));
        }
        i += 1;
    }
    assert(leagues.take(i as int) =~= leagues);
    outcomes
}

/// A league as it is stored: its key and its name.
#[derive(Debug)]
pub struct LeagueRow {
    pub id: i32,
    pub name: String,
}

/// The view of a [`LeagueRow`].
pub struct LeagueRowView {
    pub id: int,
    pub name: Seq<char>,
}

impl View for LeagueRow {
    type V = LeagueRowView;

    open spec fn view(&self) -> LeagueRowView {
        LeagueRowView { id: self.id as int, name: self.name@ }
    }
}

impl DeepView for LeagueRow {
    type V = LeagueRowView;

    open spec fn deep_view(&self) -> LeagueRowView {
        self@
    }
}

/// The rows of some leagues, in their order.
pub open spec fn league_rows(leagues: Seq<LeagueView>) -> Seq<LeagueRowView> {
    Seq::new(leagues.len(), |k: int| LeagueRowView { id: leagues[k].id(), name: leagues[k].name() })
}

/// The rows of the loader's leagues, in the order in which they were
/// loaded.
pub fn league_rows_from_loader(json_loader: &JsonLoader) -> (rows: Vec<LeagueRow>)
    ensures
        rows.deep_view() == league_rows(json_loader@.leagues),
{
    let ghost leagues = json_loader@.leagues;
    let mut rows: Vec<LeagueRow> = Vec::new();
    let mut i: usize = 0;
    while i < json_loader.leagues.len()
        invariant
            i <= json_loader.leagues.len(),
            leagues == json_loader@.leagues,
            rows.deep_view() == league_rows(leagues.take(i as int)),
        decreases json_loader.leagues.len() - i,
    {
        let league = &json_loader.leagues[i];
        let ghost before = rows.deep_view();
        let row = LeagueRow { id: league.get_league_id(), name: league.get_league_name() };
        rows.push(row);
        assert(league_rows(leagues.take(i + 1)) =~= before.push(row@));
        i += 1;
    }
    rows
}

/// How many matches some leagues hold together.
pub open spec fn corpus_match_count(leagues: Seq<LeagueView>) -> nat
    decreases leagues.len(),
{
    if leagues.len() == 0 {
        0
    } else {
        corpus_match_count(leagues.drop_last()) + leagues.last().normalized().len()
    }
}

/// A match is emitted if and only if both of its team names are in the
/// registry. An emitted row carries the keys of both teams and the other
/// fields of the match; a dropped match is handed on as it was.
pub proof fn lemma_emitted_iff_both_known(
    teams: Seq<TeamView>,
    league_id: int,
    record: NormalizedMatchView,
)
    ensures
        outcome_of(teams, league_id, record) is Emitted <==> knows(teams, record.team1) && knows(
            teams,
            record.team2,
        ),
        outcome_of(teams, league_id, record) matches MatchOutcomeView::Emitted(row) ==> {
            &&& Some(row.team1_id) == spec_resolve_id(teams, record.team1)
            &&& Some(row.team2_id) == spec_resolve_id(teams, record.team2)
            &&& row.league_id == league_id
            &&& row.date == record.date
            &&& row.stage == record.stage
            &&& row.round == record.round
            &&& row.team1_score == record.team1_score
            &&& row.team2_score == record.team2_score
        },
        !(outcome_of(teams, league_id, record) is Emitted) ==> outcome_of(teams, league_id, record)
            == (MatchOutcomeView::Dropped { league_id, record }),
{
}

/// Every match of every league has exactly one outcome, in the order of
/// the source.
pub proof fn lemma_every_match_has_an_outcome(teams: Seq<TeamView>, leagues: Seq<LeagueView>)
    ensures
        corpus_outcomes(teams, leagues).len() == corpus_match_count(leagues),
    decreases leagues.len(),
{
    if leagues.len() > 0 {
        lemma_every_match_has_an_outcome(teams, leagues.drop_last());
    }
}

/// Rosters that come later take nothing back: a match that is emitted
/// against a registry is emitted as the same row against the registry
/// after any further candidates were offered to it.
pub proof fn lemma_later_rosters_keep_rows(
    teams: Seq<TeamView>,
    later: Seq<TeamView>,
    league_id: int,
    record: NormalizedMatchView,
)
    requires
        registry_well_formed(teams),
        teams.len() + later.len() <= i32::MAX,
        outcome_of(teams, league_id, record) is Emitted,
    ensures
        outcome_of(spec_register_all(teams, later), league_id, record) == outcome_of(
            teams,
            league_id,
            record,
        ),
{
    lemma_known_name_keeps_key(teams, later, record.team1);
    lemma_known_name_keeps_key(teams, later, record.team2);
}

/// A name that the registry knows keeps its key whatever is offered later.
pub proof fn lemma_known_name_keeps_key(
    teams: Seq<TeamView>,
    later: Seq<TeamView>,
    name: Seq<char>,
)
    requires
        registry_well_formed(teams),
        teams.len() + later.len() <= i32::MAX,
        knows(teams, name),
    ensures
        spec_resolve_id(spec_register_all(teams, later), name) == spec_resolve_id(teams, name),
{
    let after = spec_register_all(teams, later);
    lemma_register_all_well_formed(teams, later);
    let at = place_of(teams, name);
    lemma_place_of_unique(teams, name, at);
    lemma_place_of_unique(after, name, at);
}

} // verus!
