use football_json_loader::model::{
    AustralianScore, LeagueScore, LeagueScoreFormat, NormalLeagueScore,
};

#[test]
fn full_time_pair_gives_first_number_to_team_one() {
    let score = NormalLeagueScore { ft: vec![2, 1] };
    assert_eq!(score.get_team_1_score(), 2);
    assert_eq!(score.get_team_2_score(), 1);
}

#[test]
fn alternate_key_pair_gives_first_number_to_team_one() {
    let score = AustralianScore { et: vec![2, 1] };
    assert_eq!(score.get_team_1_score(), 2);
    assert_eq!(score.get_team_2_score(), 1);
}

#[test]
fn both_keys_yield_the_same_scores() {
    let normal = LeagueScoreFormat::Normal(NormalLeagueScore { ft: vec![2, 1] });
    let alternate = LeagueScoreFormat::Australian(AustralianScore { et: vec![2, 1] });
    assert_eq!(normal.get_team_1_score(), 2);
    assert_eq!(normal.get_team_2_score(), 1);
    assert_eq!(alternate.get_team_1_score(), 2);
    assert_eq!(alternate.get_team_2_score(), 1);
    assert_eq!(normal.pair(), Some((2, 1)));
    assert_eq!(alternate.pair(), Some((2, 1)));
}

#[test]
fn pair_is_absent_for_fewer_than_two_numbers() {
    let none = LeagueScoreFormat::Normal(NormalLeagueScore { ft: vec![] });
    let one = LeagueScoreFormat::Australian(AustralianScore { et: vec![3] });
    assert_eq!(none.pair(), None);
    assert_eq!(one.pair(), None);
    assert_eq!(none.len(), 0);
    assert_eq!(one.len(), 1);
}

#[test]
fn pair_ignores_numbers_behind_the_second() {
    let score = LeagueScoreFormat::Normal(NormalLeagueScore { ft: vec![0, 4, 9] });
    assert_eq!(score.len(), 3);
    assert_eq!(score.pair(), Some((0, 4)));
}
