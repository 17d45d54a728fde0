//! Loading a whole corpus in the order that resolution needs: every
//! roster first, then the leagues, then the matches.

use vstd::prelude::*;
use crate::db::{corpus_outcomes, resolve_matches_from_loader, MatchOutcome};
use crate::json::{spec_load_leagues, JsonLoader, JsonLoaderView};
use crate::league::LeagueJsonFormat;
use crate::model::MatchTeamList;
use crate::registry::{roster_size, spec_load_teams};

verus! {

/// Loads all rosters, then all leagues, then resolves every match against
/// the registry that holds the clubs of all rosters. Before
/// [`JsonLoader::init`] nothing is done and nothing handed out.
pub fn load_corpus(
    json_loader: &mut JsonLoader,
    rosters: &Vec<MatchTeamList>,
    read: Vec<LeagueJsonFormat>,
) -> (outcomes: Option<Vec<MatchOutcome>>)
    requires
        old(json_loader).well_formed(),
        old(json_loader)@.teams.len() + roster_size(rosters.deep_view()) <= i32::MAX,
        old(json_loader)@.leagues.len() + read.len() <= i32::MAX,
        forall|k: int| 0 <= k < read.len() ==> (#[trigger] read[k])@.well_formed(),
    ensures
        final(json_loader).well_formed(),
        !old(json_loader)@.is_initialized ==> outcomes is None && final(json_loader)@ == old(
            json_loader,
        )@,
        old(json_loader)@.is_initialized ==> {
            &&& final(json_loader)@ == (JsonLoaderView {
                teams: spec_load_teams(old(json_loader)@.teams, rosters.deep_view()),
                leagues: spec_load_leagues(old(json_loader)@.leagues, read.deep_view()),
                ..old(json_loader)@
            })
            &&& outcomes matches Some(o) && o.deep_view() == corpus_outcomes(
                final(json_loader)@.teams,
                final(json_loader)@.leagues,
            )
        },
{
    if !json_loader.is_initialized {
        return None;
    }
    json_loader.load_teams(rosters);
    json_loader.load_leagues(read);
    Some(resolve_matches_from_loader(json_loader))
}

} // verus!
