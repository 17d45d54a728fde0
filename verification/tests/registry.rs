use football_json_loader::json::JsonLoader;
use football_json_loader::league::{LeagueJsonFormat, NewLeagueFormat, OldLeagueFormat};
use football_json_loader::model::{MatchTeamList, Team};

fn club(name: &str, code: Option<&str>) -> Team {
    Team { id: 0, name: name.to_string(), code: code.map(|c| c.to_string()) }
}

fn ready_loader() -> JsonLoader {
    let mut loader = JsonLoader::new();
    loader.init(Vec::new());
    loader
}

#[test]
fn fresh_loader_knows_nothing() {
    let loader = JsonLoader::new();
    assert!(loader.get_teams().is_empty());
    assert!(loader.get_leagues().is_empty());
    assert!(loader.roster_files().is_empty());
    assert!(loader.league_files().is_empty());
    assert!(!loader.is_initialized);
    assert_eq!(loader.get_team_id_from_name(&"Arsenal".to_string()), None);
}

#[test]
fn same_name_twice_gives_one_team_with_the_first_code() {
    let mut loader = ready_loader();
    assert!(loader.register_team("Arsenal".to_string(), Some("ARS".to_string())));
    assert!(!loader.register_team("Arsenal".to_string(), Some("AFC".to_string())));
    assert!(!loader.register_team("Arsenal".to_string(), None));
    assert_eq!(loader.get_teams().len(), 1);
    assert_eq!(loader.get_teams()[0].id, 1);
    assert_eq!(loader.get_teams()[0].name, "Arsenal");
    assert_eq!(loader.get_teams()[0].code, Some("ARS".to_string()));
}

#[test]
fn first_code_wins_even_if_it_is_absent() {
    let mut loader = ready_loader();
    loader.register_team("Arsenal".to_string(), None);
    loader.register_team("Arsenal".to_string(), Some("ARS".to_string()));
    assert_eq!(loader.get_teams().len(), 1);
    assert_eq!(loader.get_teams()[0].code, None);
}

#[test]
fn keys_count_from_one_in_order_of_first_sight() {
    let mut loader = ready_loader();
    let rosters = vec![
        MatchTeamList {
            name: "England".to_string(),
            teams: vec![club("Arsenal", Some("ARS")), club("Chelsea", Some("CHE"))],
        },
        MatchTeamList {
            name: "Europe".to_string(),
            teams: vec![
                club("Bayern", None),
                club("Arsenal", Some("XXX")),
                club("Ajax", Some("AJA")),
            ],
        },
    ];
    let teams = loader.load_teams(&rosters).unwrap();
    assert_eq!(teams.len(), 4);
    let names = ["Arsenal", "Chelsea", "Bayern", "Ajax"];
    for k in 0..4 {
        assert_eq!(teams[k].id, k as i32 + 1);
        assert_eq!(teams[k].name, names[k]);
    }
    assert_eq!(teams[0].code, Some("ARS".to_string()));
    assert_eq!(teams[2].code, None);
    assert_eq!(loader.get_team_id_from_name(&"Arsenal".to_string()), Some(1));
    assert_eq!(loader.get_team_id_from_name(&"Chelsea".to_string()), Some(2));
    assert_eq!(loader.get_team_id_from_name(&"Bayern".to_string()), Some(3));
    assert_eq!(loader.get_team_id_from_name(&"Ajax".to_string()), Some(4));
}

#[test]
fn keys_that_candidates_bring_are_not_looked_at() {
    let mut loader = ready_loader();
    let mut odd = club("Leeds", None);
    odd.id = 99;
    loader.register_all(&vec![odd, club("Derby", None)]);
    assert_eq!(loader.get_teams()[0].id, 1);
    assert_eq!(loader.get_teams()[1].id, 2);
}

#[test]
fn names_are_resolved_exactly() {
    let mut loader = ready_loader();
    loader.register_team("Arsenal".to_string(), None);
    assert_eq!(loader.get_team_id_from_name(&"Arsenal".to_string()), Some(1));
    assert_eq!(loader.get_team_id_from_name(&"arsenal".to_string()), None);
    assert_eq!(loader.get_team_id_from_name(&"Arsenal ".to_string()), None);
    assert_eq!(loader.get_team_id_from_name(&"Arsenal FC".to_string()), None);
    assert_eq!(loader.get_team_id_from_name(&"".to_string()), None);
}

#[test]
fn names_that_differ_in_case_are_two_teams() {
    let mut loader = ready_loader();
    assert!(loader.register_team("Arsenal".to_string(), None));
    assert!(loader.register_team("ARSENAL".to_string(), None));
    assert_eq!(loader.get_teams().len(), 2);
    assert_eq!(loader.get_team_id_from_name(&"ARSENAL".to_string()), Some(2));
}

#[test]
fn nothing_is_loaded_before_init() {
    let mut loader = JsonLoader::new();
    let rosters = vec![MatchTeamList {
        name: "England".to_string(),
        teams: vec![club("Arsenal", None)],
    }];
    assert!(loader.load_teams(&rosters).is_none());
    assert!(loader.get_teams().is_empty());
    let read = vec![LeagueJsonFormat::OldFormat(OldLeagueFormat::new("L".to_string()))];
    assert!(loader.load_leagues(read).is_none());
    assert!(loader.get_leagues().is_empty());
}

#[test]
fn league_keys_count_from_one_in_order_of_loading() {
    let mut loader = ready_loader();
    loader.register_team("Arsenal".to_string(), None);
    loader.register_team("Chelsea".to_string(), None);
    loader.register_team("Everton".to_string(), None);
    let read = vec![
        LeagueJsonFormat::OldFormat(OldLeagueFormat::new("First".to_string())),
        LeagueJsonFormat::NewFormat(NewLeagueFormat::new("Second".to_string())),
    ];
    let leagues = loader.load_leagues(read).unwrap();
    assert_eq!(leagues.len(), 2);
    assert_eq!(leagues[0].get_league_id(), 1);
    assert_eq!(leagues[0].get_league_name(), "First");
    assert_eq!(leagues[1].get_league_id(), 2);
    assert_eq!(leagues[1].get_league_name(), "Second");
    let more = vec![LeagueJsonFormat::OldFormat(OldLeagueFormat::new("Third".to_string()))];
    let leagues = loader.load_leagues(more).unwrap();
    assert_eq!(leagues.len(), 3);
    assert_eq!(leagues[2].get_league_id(), 3);
    assert_eq!(leagues[0].get_league_id(), 1);
    loader.add_league(LeagueJsonFormat::NewFormat(NewLeagueFormat::new("Fourth".to_string())));
    assert_eq!(loader.get_leagues()[3].get_league_id(), 4);
}

#[test]
fn key_that_a_league_brings_is_replaced() {
    let mut loader = ready_loader();
    let mut league = LeagueJsonFormat::OldFormat(OldLeagueFormat::new("L".to_string()));
    league.set_league_id(42);
    loader.load_leagues(vec![league]);
    assert_eq!(loader.get_leagues()[0].get_league_id(), 1);
}

#[test]
fn init_takes_the_files_and_sorts_them_by_kind() {
    let mut loader = JsonLoader::new();
    loader.init(vec![
        "/data/2015-16/en.1.json".to_string(),
        "/data/2015-16/en.1.clubs.json".to_string(),
        "/data/2018/worldcup.groups.json".to_string(),
        "/data/2018/worldcup.json".to_string(),
        "/data/2016-17/de.clubs.json".to_string(),
    ]);
    assert!(loader.is_initialized);
    assert_eq!(
        loader.roster_files(),
        vec!["/data/2015-16/en.1.clubs.json".to_string(), "/data/2016-17/de.clubs.json".to_string()]
    );
    assert_eq!(
        loader.league_files(),
        vec!["/data/2015-16/en.1.json".to_string(), "/data/2018/worldcup.json".to_string()]
    );
    loader.init(vec!["/more/it.1.json".to_string()]);
    assert_eq!(loader.files.len(), 6);
    assert_eq!(loader.files[5], "/more/it.1.json");
    assert_eq!(loader.league_files().len(), 3);
}

#[test]
fn loading_the_same_corpus_twice_gives_the_same_keys() {
    let mut runs: Vec<(Vec<(i32, String, Option<String>)>, Vec<(i32, String)>)> = Vec::new();
    for _ in 0..2 {
        let mut loader = ready_loader();
        let rosters = vec![
            MatchTeamList {
                name: "A".to_string(),
                teams: vec![club("Porto", Some("POR")), club("Benfica", None)],
            },
            MatchTeamList {
                name: "B".to_string(),
                teams: vec![club("Benfica", Some("BEN")), club("Sporting", Some("SCP"))],
            },
        ];
        loader.load_teams(&rosters);
        loader.load_leagues(vec![
            LeagueJsonFormat::OldFormat(OldLeagueFormat::new("Liga".to_string())),
            LeagueJsonFormat::NewFormat(NewLeagueFormat::new("Taca".to_string())),
        ]);
        let teams = loader
            .get_teams()
            .iter()
            .map(|t| (t.id, t.name.clone(), t.code.clone()))
            .collect();
        let leagues = loader
            .get_leagues()
            .iter()
            .map(|l| (l.get_league_id(), l.get_league_name()))
            .collect();
        runs.push((teams, leagues));
    }
    assert_eq!(runs[0], runs[1]);
    assert_eq!(
        runs[0].0,
        vec![
            (1, "Porto".to_string(), Some("POR".to_string())),
            (2, "Benfica".to_string(), None),
            (3, "Sporting".to_string(), Some("SCP".to_string())),
        ]
    );
    assert_eq!(runs[0].1, vec![(1, "Liga".to_string()), (2, "Taca".to_string())]);
}

#[test]
fn team_copy_keeps_all_fields() {
    let team = Team { id: 5, name: "Ajax".to_string(), code: Some("AJA".to_string()) };
    let copy = team.clone();
    assert_eq!(copy.id, 5);
    assert_eq!(copy.name, "Ajax");
    assert_eq!(copy.code, Some("AJA".to_string()));
}
