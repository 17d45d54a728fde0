use football_json_loader::corpus::load_corpus;
use football_json_loader::date::MatchDate;
use football_json_loader::db::{
    league_rows_from_loader, resolve_league, resolve_match, resolve_matches_from_loader,
    MatchOutcome,
};
use football_json_loader::json::JsonLoader;
use football_json_loader::league::{
    LeagueJsonFormat, LeagueRound, NewLeagueFormat, OldLeagueFormat,
};
use football_json_loader::model::{
    LeagueScoreFormat, MatchTeamList, NormalLeagueScore, NormalizedMatch, Team,
};

fn result(a: i32, b: i32) -> Option<LeagueScoreFormat> {
    Some(LeagueScoreFormat::Normal(NormalLeagueScore { ft: vec![a, b] }))
}

fn loader_with(names: &[&str]) -> JsonLoader {
    let mut loader = JsonLoader::new();
    loader.init(Vec::new());
    let teams = names.iter().map(|n| Team { id: 0, name: n.to_string(), code: None }).collect();
    loader.load_teams(&vec![MatchTeamList { name: "Clubs".to_string(), teams }]);
    loader
}

#[test]
fn match_with_an_unknown_team_is_dropped() {
    let mut loader = loader_with(&["Arsenal", "Chelsea"]);
    let mut round = LeagueRound::new("Matchday 1".to_string());
    round
        .push_record("2015-08-08", "Arsenal".to_string(), "Chelsea".to_string(), result(2, 1))
        .unwrap();
    round
        .push_record("2015-08-09", "Arsenal".to_string(), "Unknown FC".to_string(), result(1, 1))
        .unwrap();
    let mut league = OldLeagueFormat::new("Premier League".to_string());
    league.push_round(round);
    loader.load_leagues(vec![LeagueJsonFormat::OldFormat(league)]);
    let outcomes = resolve_matches_from_loader(&loader);
    assert_eq!(outcomes.len(), 2);
    let emitted = outcomes.iter().filter(|o| matches!(o, MatchOutcome::Emitted(_))).count();
    assert_eq!(emitted, 1);
    match &outcomes[0] {
        MatchOutcome::Emitted(row) => {
            assert_eq!(row.date, MatchDate { year: 2015, month: 8, day: 8 });
            assert_eq!(row.league_id, 1);
            assert_eq!(row.team1_id, 1);
            assert_eq!(row.team2_id, 2);
            assert_eq!(row.stage, None);
            assert_eq!(row.round, Some("Matchday 1".to_string()));
            assert_eq!(row.team1_score, Some(2));
            assert_eq!(row.team2_score, Some(1));
        }
        MatchOutcome::Dropped { .. } => panic!("the first match resolves"),
    }
    match &outcomes[1] {
        MatchOutcome::Dropped { league_id, record } => {
            assert_eq!(*league_id, 1);
            assert_eq!(record.team1, "Arsenal");
            assert_eq!(record.team2, "Unknown FC");
            assert_eq!(record.round, Some("Matchday 1".to_string()));
            assert_eq!(record.team1_score, Some(1));
            assert_eq!(record.team2_score, Some(1));
            assert_eq!(record.date, MatchDate { year: 2015, month: 8, day: 9 });
        }
        MatchOutcome::Emitted(_) => panic!("the second match does not resolve"),
    }
}

#[test]
fn match_is_dropped_when_the_first_team_is_unknown() {
    let loader = loader_with(&["Chelsea"]);
    let record = NormalizedMatch {
        date: MatchDate { year: 2020, month: 1, day: 1 },
        team1: "Nobody".to_string(),
        team2: "Chelsea".to_string(),
        stage: None,
        round: None,
        team1_score: None,
        team2_score: None,
    };
    assert!(matches!(resolve_match(&loader, 3, record), MatchOutcome::Dropped { league_id: 3, .. }));
}

#[test]
fn match_of_a_team_against_itself_resolves_to_one_key() {
    let loader = loader_with(&["Ajax", "Feyenoord"]);
    let record = NormalizedMatch {
        date: MatchDate { year: 2020, month: 1, day: 1 },
        team1: "Feyenoord".to_string(),
        team2: "Feyenoord".to_string(),
        stage: Some("Final".to_string()),
        round: Some("Leg 1".to_string()),
        team1_score: Some(0),
        team2_score: Some(0),
    };
    match resolve_match(&loader, 9, record) {
        MatchOutcome::Emitted(row) => {
            assert_eq!(row.team1_id, 2);
            assert_eq!(row.team2_id, 2);
            assert_eq!(row.league_id, 9);
            assert_eq!(row.stage, Some("Final".to_string()));
            assert_eq!(row.round, Some("Leg 1".to_string()));
            assert_eq!(row.team1_score, Some(0));
            assert_eq!(row.team2_score, Some(0));
        }
        MatchOutcome::Dropped { .. } => panic!("both names are registered"),
    }
}

#[test]
fn matches_resolve_against_rosters_loaded_before() {
    let mut loader = JsonLoader::new();
    loader.init(Vec::new());
    let mut league = NewLeagueFormat::new("Cup".to_string());
    league
        .push_record(
            None,
            "Final".to_string(),
            "2019-05-18",
            "Bayern".to_string(),
            "Leipzig".to_string(),
            result(3, 0),
        )
        .unwrap();
    loader.load_teams(&vec![MatchTeamList {
        name: "First".to_string(),
        teams: vec![Team { id: 0, name: "Bayern".to_string(), code: None }],
    }]);
    loader.load_teams(&vec![MatchTeamList {
        name: "Second".to_string(),
        teams: vec![Team { id: 0, name: "Leipzig".to_string(), code: None }],
    }]);
    loader.load_leagues(vec![LeagueJsonFormat::NewFormat(league)]);
    let outcomes = resolve_matches_from_loader(&loader);
    assert_eq!(outcomes.len(), 1);
    match &outcomes[0] {
        MatchOutcome::Emitted(row) => {
            assert_eq!(row.team1_id, 1);
            assert_eq!(row.team2_id, 2);
            assert_eq!(row.league_id, 1);
        }
        MatchOutcome::Dropped { .. } => panic!("both rosters were loaded"),
    }
}

#[test]
fn outcomes_follow_the_leagues_in_their_order() {
    let mut loader = loader_with(&["A", "B", "C"]);
    let mut first = NewLeagueFormat::new("One".to_string());
    first
        .push_record(None, "R1".to_string(), "2020-01-01", "A".to_string(), "B".to_string(), None)
        .unwrap();
    let mut round = LeagueRound::new("R2".to_string());
    round.push_record("2020-02-01", "B".to_string(), "C".to_string(), result(1, 2)).unwrap();
    round.push_record("2020-02-02", "C".to_string(), "Z".to_string(), None).unwrap();
    let mut second = OldLeagueFormat::new("Two".to_string());
    second.push_round(round);
    loader.load_leagues(vec![
        LeagueJsonFormat::NewFormat(first),
        LeagueJsonFormat::OldFormat(second),
    ]);
    let outcomes = resolve_matches_from_loader(&loader);
    assert_eq!(outcomes.len(), 3);
    match &outcomes[0] {
        MatchOutcome::Emitted(row) => {
            assert_eq!((row.league_id, row.team1_id, row.team2_id), (1, 1, 2));
            assert_eq!(row.team1_score, None);
            assert_eq!(row.team2_score, None);
        }
        MatchOutcome::Dropped { .. } => panic!("A and B are registered"),
    }
    match &outcomes[1] {
        MatchOutcome::Emitted(row) => {
            assert_eq!((row.league_id, row.team1_id, row.team2_id), (2, 2, 3));
            assert_eq!(row.team1_score, Some(1));
            assert_eq!(row.team2_score, Some(2));
        }
        MatchOutcome::Dropped { .. } => panic!("B and C are registered"),
    }
    assert!(matches!(&outcomes[2], MatchOutcome::Dropped { league_id: 2, .. }));
    let of_second = resolve_league(&loader, &loader.get_leagues()[1]);
    assert_eq!(of_second.len(), 2);
    assert!(matches!(&of_second[0], MatchOutcome::Emitted(_)));
    assert!(matches!(&of_second[1], MatchOutcome::Dropped { .. }));
}

#[test]
fn loader_without_leagues_has_no_outcome() {
    let loader = loader_with(&["A"]);
    assert!(resolve_matches_from_loader(&loader).is_empty());
    assert!(league_rows_from_loader(&loader).is_empty());
}

#[test]
fn league_rows_hold_key_and_name() {
    let mut loader = loader_with(&[]);
    loader.load_leagues(vec![
        LeagueJsonFormat::OldFormat(OldLeagueFormat::new("Bundesliga".to_string())),
        LeagueJsonFormat::NewFormat(NewLeagueFormat::new("Pokal".to_string())),
    ]);
    let rows = league_rows_from_loader(&loader);
    assert_eq!(rows.len(), 2);
    assert_eq!(rows[0].id, 1);
    assert_eq!(rows[0].name, "Bundesliga");
    assert_eq!(rows[1].id, 2);
    assert_eq!(rows[1].name, "Pokal");
}

#[test]
fn corpus_is_loaded_rosters_first() {
    let mut loader = JsonLoader::new();
    loader.init(Vec::new());
    let mut round = LeagueRound::new("Matchday 1".to_string());
    round
        .push_record("2015-08-08", "Arsenal".to_string(), "Chelsea".to_string(), result(2, 1))
        .unwrap();
    round
        .push_record("2015-08-09", "Arsenal".to_string(), "Unknown FC".to_string(), None)
        .unwrap();
    let mut league = OldLeagueFormat::new("Premier League".to_string());
    league.push_round(round);
    let rosters = vec![
        MatchTeamList {
            name: "North".to_string(),
            teams: vec![Team { id: 0, name: "Arsenal".to_string(), code: None }],
        },
        MatchTeamList {
            name: "West".to_string(),
            teams: vec![Team { id: 0, name: "Chelsea".to_string(), code: Some("CHE".to_string()) }],
        },
    ];
    let outcomes =
        load_corpus(&mut loader, &rosters, vec![LeagueJsonFormat::OldFormat(league)]).unwrap();
    assert_eq!(loader.get_teams().len(), 2);
    assert_eq!(loader.get_leagues().len(), 1);
    assert_eq!(loader.get_leagues()[0].get_league_id(), 1);
    assert_eq!(outcomes.len(), 2);
    match &outcomes[0] {
        MatchOutcome::Emitted(row) => {
            assert_eq!((row.league_id, row.team1_id, row.team2_id), (1, 1, 2));
        }
        MatchOutcome::Dropped { .. } => panic!("both clubs are on a roster"),
    }
    assert!(matches!(&outcomes[1], MatchOutcome::Dropped { league_id: 1, .. }));
}

#[test]
fn corpus_is_not_loaded_before_init() {
    let mut loader = JsonLoader::new();
    let rosters = vec![MatchTeamList {
        name: "North".to_string(),
        teams: vec![Team { id: 0, name: "Arsenal".to_string(), code: None }],
    }];
    let read = vec![LeagueJsonFormat::NewFormat(NewLeagueFormat::new("Cup".to_string()))];
    assert!(load_corpus(&mut loader, &rosters, read).is_none());
    assert!(loader.get_teams().is_empty());
    assert!(loader.get_leagues().is_empty());
}

#[test]
fn later_roster_keeps_the_keys_of_earlier_teams() {
    let mut loader = loader_with(&["Ajax", "PSV"]);
    let record = || NormalizedMatch {
        date: MatchDate { year: 2021, month: 3, day: 4 },
        team1: "PSV".to_string(),
        team2: "Ajax".to_string(),
        stage: None,
        round: None,
        team1_score: Some(1),
        team2_score: Some(1),
    };
    let before = match resolve_match(&loader, 1, record()) {
        MatchOutcome::Emitted(row) => (row.team1_id, row.team2_id),
        MatchOutcome::Dropped { .. } => panic!("both names are registered"),
    };
    loader.load_teams(&vec![MatchTeamList {
        name: "More".to_string(),
        teams: vec![
            Team { id: 0, name: "Twente".to_string(), code: None },
            Team { id: 0, name: "Ajax".to_string(), code: Some("AJA".to_string()) },
        ],
    }]);
    let after = match resolve_match(&loader, 1, record()) {
        MatchOutcome::Emitted(row) => (row.team1_id, row.team2_id),
        MatchOutcome::Dropped { .. } => panic!("both names are registered"),
    };
    assert_eq!(before, (2, 1));
    assert_eq!(after, before);
    assert_eq!(loader.get_teams().len(), 3);
}

#[test]
fn loader_state_is_checked() {
    let mut loader = loader_with(&["Ajax", "PSV"]);
    assert!(loader.is_well_formed());
    loader.teams[1].id = 7;
    assert!(!loader.is_well_formed());
    loader.teams[1].id = 2;
    assert!(loader.is_well_formed());
    loader.teams[1].name = "Ajax".to_string();
    assert!(!loader.is_well_formed());
    loader.teams[1].name = "PSV".to_string();
    loader.leagues.push(LeagueJsonFormat::NewFormat(NewLeagueFormat::new("Cup".to_string())));
    assert!(!loader.is_well_formed());
    loader.leagues[0].set_league_id(1);
    assert!(loader.is_well_formed());
}
