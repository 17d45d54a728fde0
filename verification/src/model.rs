//! The data model: teams, scores, matches in both layouts, and leagues in
//! both layouts, each with its mathematical view.

use vstd::prelude::*;
use crate::date::MatchDate;
pub use crate::league::{LeagueJsonFormat, LeagueRound, NewLeagueFormat, OldLeagueFormat};

verus! {

/// A team as the registry holds it.
#[derive(Debug)]
pub struct Team {
    pub id: i32,
    pub name: String,
    pub code: Option<String>,
}

/// The view of a [`Team`].
pub struct TeamView {
    pub id: int,
    pub name: Seq<char>,
    pub code: Option<Seq<char>>,
}

/// The view of an optional text.
pub open spec fn text_view(text: Option<String>) -> Option<Seq<char>> {
    match text {
        Some(t) => Some(t@),
        None => None,
    }
}

impl View for Team {
    type V = TeamView;

    open spec fn view(&self) -> TeamView {
        TeamView { id: self.id as int, name: self.name@, code: text_view(self.code) }
    }
}

impl DeepView for Team {
    type V = TeamView;

    open spec fn deep_view(&self) -> TeamView {
        self@
    }
}

/// Copies an optional text.
pub fn copy_text(text: &Option<String>) -> (copy: Option<String>)
    ensures
        text_view(copy) == text_view(*text),
{
    match text {
        Some(t) => Some(t.clone()),
        None => None,
    }
}

impl Clone for Team {
    fn clone(&self) -> (copy: Team)
        ensures
            copy@ == self@,
    {
        Team { id: self.id, name: self.name.clone(), code: copy_text(&self.code) }
    }
}

/// The content of a roster file: a title and the clubs it lists.
#[derive(Debug)]
pub struct MatchTeamList {
    pub name: String,
    pub teams: Vec<Team>,
}

/// The view of a [`MatchTeamList`].
pub struct MatchTeamListView {
    pub name: Seq<char>,
    pub teams: Seq<TeamView>,
}

impl View for MatchTeamList {
    type V = MatchTeamListView;

    open spec fn view(&self) -> MatchTeamListView {
        MatchTeamListView { name: self.name@, teams: self.teams.deep_view() }
    }
}

impl DeepView for MatchTeamList {
    type V = MatchTeamListView;

    open spec fn deep_view(&self) -> MatchTeamListView {
        self@
    }
}

/// A result recorded under the key `ft`.
#[derive(Clone, Debug)]
pub struct NormalLeagueScore {
    pub ft: Vec<i32>,
}

/// A result recorded under the key `et`.
#[derive(Clone, Debug)]
pub struct AustralianScore {
    pub et: Vec<i32>,
}

/// A result under either of the two keys.
#[derive(Debug)]
pub enum LeagueScoreFormat {
    Normal(NormalLeagueScore),
    Australian(AustralianScore),
}

/// The view of a [`LeagueScoreFormat`]: the key and the numbers under it.
pub enum ScoreView {
    Normal(Seq<i32>),
    Australian(Seq<i32>),
}

impl ScoreView {
    /// The recorded numbers, whatever the key.
    pub open spec fn goals(self) -> Seq<i32> {
        match self {
            ScoreView::Normal(g) => g,
            ScoreView::Australian(g) => g,
        }
    }

    /// Both teams' numbers are there.
    pub open spec fn is_pair(self) -> bool {
        self.goals().len() >= 2
    }
}

impl View for NormalLeagueScore {
    type V = Seq<i32>;

    open spec fn view(&self) -> Seq<i32> {
        self.ft@
    }
}

impl View for AustralianScore {
    type V = Seq<i32>;

    open spec fn view(&self) -> Seq<i32> {
        self.et@
    }
}

impl View for LeagueScoreFormat {
    type V = ScoreView;

    open spec fn view(&self) -> ScoreView {
        match self {
            LeagueScoreFormat::Normal(n) => ScoreView::Normal(n@),
            LeagueScoreFormat::Australian(a) => ScoreView::Australian(a@),
        }
    }
}

/// A recorded result: the first number is the first team's, the second the
/// second team's, under either key.
pub trait LeagueScore {
    /// The recorded numbers.
    spec fn goals(&self) -> Seq<i32>;

    fn get_team_1_score(&self) -> (score: i32)
        requires
            self.goals().len() >= 2,
        ensures
            score == self.goals()[0],
    ;

    fn get_team_2_score(&self) -> (score: i32)
        requires
            self.goals().len() >= 2,
        ensures
            score == self.goals()[1],
    ;
}

impl LeagueScore for NormalLeagueScore {
    open spec fn goals(&self) -> Seq<i32> {
        self@
    }

    fn get_team_1_score(&self) -> (score: i32) {
        self.ft[0]
    }

    fn get_team_2_score(&self) -> (score: i32) {
        self.ft[1]
    }
}

impl LeagueScore for AustralianScore {
    open spec fn goals(&self) -> Seq<i32> {
        self@
    }

    fn get_team_1_score(&self) -> (score: i32) {
        self.et[0]
    }

    fn get_team_2_score(&self) -> (score: i32) {
        self.et[1]
    }
}

impl LeagueScore for LeagueScoreFormat {
    open spec fn goals(&self) -> Seq<i32> {
        self@.goals()
    }

    fn get_team_1_score(&self) -> (score: i32) {
        match self {
            LeagueScoreFormat::Normal(n) => n.get_team_1_score(),
            LeagueScoreFormat::Australian(a) => a.get_team_1_score(),
        }
    }

    fn get_team_2_score(&self) -> (score: i32) {
        match self {
            LeagueScoreFormat::Normal(n) => n.get_team_2_score(),
            LeagueScoreFormat::Australian(a) => a.get_team_2_score(),
        }
    }
}

impl LeagueScoreFormat {
    /// The pair of scores that a view records, where both are there.
    pub open spec fn spec_pair(score: ScoreView) -> Option<(i32, i32)> {
        if score.is_pair() {
            Some((score.goals()[0], score.goals()[1]))
        } else {
            None
        }
    }

    /// How many numbers were recorded.
    pub fn len(&self) -> (n: usize)
        ensures
            n == self@.goals().len(),
    {
        match self {
            LeagueScoreFormat::Normal(n) => n.ft.len(),
            LeagueScoreFormat::Australian(a) => a.et.len(),
        }
    }

    /// The first and the second team's score, or `None` where fewer than two
    /// numbers were recorded.
    pub fn pair(&self) -> (scores: Option<(i32, i32)>)
        ensures
            scores == Self::spec_pair(self@),
    {
        if self.len() >= 2 {
            Some((self.get_team_1_score(), self.get_team_2_score()))
        } else {
            None
        }
    }
}

/// The two keys are synonyms: the same numbers under `ft` and under `et`
/// give the same score to each team.
pub proof fn lemma_score_keys_agree(goals: Seq<i32>)
    ensures
        ScoreView::Normal(goals).goals() == ScoreView::Australian(goals).goals(),
        LeagueScoreFormat::spec_pair(ScoreView::Normal(goals)) == LeagueScoreFormat::spec_pair(
            ScoreView::Australian(goals),
        ),
        goals.len() >= 2 ==> LeagueScoreFormat::spec_pair(ScoreView::Australian(goals)) == Some(
            (goals[0], goals[1]),
        ),
{
}

/// Why a single match record is rejected.
#[derive(Clone, Copy, Debug, PartialEq, Eq, Structural)]
pub enum ParseError {
    /// The date text denotes no calendar date.
    BadDate,
    /// A score is recorded with fewer than two numbers.
    MalformedScore,
}

/// The view of an optional score.
pub open spec fn score_view(score: Option<LeagueScoreFormat>) -> Option<ScoreView> {
    match score {
        Some(s) => Some(s@),
        None => None,
    }
}

/// The view of an optional borrowed text.
pub open spec fn str_view(text: Option<&str>) -> Option<Seq<char>> {
    match text {
        Some(t) => Some(t@),
        None => None,
    }
}

/// A match in the one shape that both layouts are brought to. Teams are
/// still given by name.
#[derive(Debug)]
pub struct NormalizedMatch {
    pub date: MatchDate,
    pub team1: String,
    pub team2: String,
    pub stage: Option<String>,
    pub round: Option<String>,
    pub team1_score: Option<i32>,
    pub team2_score: Option<i32>,
}

/// The view of a [`NormalizedMatch`].
pub struct NormalizedMatchView {
    pub date: MatchDate,
    pub team1: Seq<char>,
    pub team2: Seq<char>,
    pub stage: Option<Seq<char>>,
    pub round: Option<Seq<char>>,
    pub team1_score: Option<i32>,
    pub team2_score: Option<i32>,
}

impl View for NormalizedMatch {
    type V = NormalizedMatchView;

    open spec fn view(&self) -> NormalizedMatchView {
        NormalizedMatchView {
            date: self.date,
            team1: self.team1@,
            team2: self.team2@,
            stage: text_view(self.stage),
            round: text_view(self.round),
            team1_score: self.team1_score,
            team2_score: self.team2_score,
        }
    }
}

impl DeepView for NormalizedMatch {
    type V = NormalizedMatchView;

    open spec fn deep_view(&self) -> NormalizedMatchView {
        self@
    }
}

/// A match of the round-grouped layout: it names no stage and no round of
/// its own.
#[derive(Debug)]
pub struct OldLeagueMatch {
    pub date: MatchDate,
    pub team1: String,
    pub team2: String,
    pub score: Option<LeagueScoreFormat>,
}

/// The view of an [`OldLeagueMatch`].
pub struct OldMatchView {
    pub date: MatchDate,
    pub team1: Seq<char>,
    pub team2: Seq<char>,
    pub score: Option<ScoreView>,
}

impl OldMatchView {
    /// The date is in range and a recorded score has both numbers.
    pub open spec fn well_formed(self) -> bool {
        &&& self.date.well_formed()
        &&& self.score matches Some(s) ==> s.is_pair()
    }

    /// The first team's score; none where no result is recorded.
    pub open spec fn team1_score(self) -> Option<i32> {
        match self.score {
            Some(s) => if s.is_pair() {
                Some(s.goals()[0])
            } else {
                None
            },
            None => None,
        }
    }

    /// The second team's score; none where no result is recorded.
    pub open spec fn team2_score(self) -> Option<i32> {
        match self.score {
            Some(s) => if s.is_pair() {
                Some(s.goals()[1])
            } else {
                None
            },
            None => None,
        }
    }

    /// The match in canonical shape, with the stage and round given.
    pub open spec fn placed(
        self,
        stage: Option<Seq<char>>,
        round: Option<Seq<char>>,
    ) -> NormalizedMatchView {
        NormalizedMatchView {
            date: self.date,
            team1: self.team1,
            team2: self.team2,
            stage,
            round,
            team1_score: self.team1_score(),
            team2_score: self.team2_score(),
        }
    }

    /// What a record with these fields is read as: a match, or the reason
    /// for which the record is rejected. The date is looked at first.
    pub open spec fn assemble(
        date: Option<MatchDate>,
        team1: Seq<char>,
        team2: Seq<char>,
        score: Option<ScoreView>,
    ) -> Result<OldMatchView, ParseError> {
        match date {
            None => Err(ParseError::BadDate),
            Some(d) => if score matches Some(s) && !s.is_pair() {
                Err(ParseError::MalformedScore)
            } else {
                Ok(OldMatchView { date: d, team1, team2, score })
            },
        }
    }
}

impl View for OldLeagueMatch {
    type V = OldMatchView;

    open spec fn view(&self) -> OldMatchView {
        OldMatchView {
            date: self.date,
            team1: self.team1@,
            team2: self.team2@,
            score: score_view(self.score),
        }
    }
}

impl DeepView for OldLeagueMatch {
    type V = OldMatchView;

    open spec fn deep_view(&self) -> OldMatchView {
        self@
    }
}

/// A match of the flat layout: it carries its own stage and round.
#[derive(Debug)]
pub struct NewLeagueMatch {
    pub stage: Option<String>,
    pub round: String,
    pub match_info: OldLeagueMatch,
}

/// The view of a [`NewLeagueMatch`].
pub struct NewMatchView {
    pub stage: Option<Seq<char>>,
    pub round: Seq<char>,
    pub match_info: OldMatchView,
}

impl NewMatchView {
    pub open spec fn well_formed(self) -> bool {
        self.match_info.well_formed()
    }

    /// The match in canonical shape.
    pub open spec fn uniform(self) -> NormalizedMatchView {
        self.match_info.placed(self.stage, Some(self.round))
    }

    /// What a record with these fields is read as.
    pub open spec fn assemble(
        stage: Option<Seq<char>>,
        round: Seq<char>,
        date: Option<MatchDate>,
        team1: Seq<char>,
        team2: Seq<char>,
        score: Option<ScoreView>,
    ) -> Result<NewMatchView, ParseError> {
        match OldMatchView::assemble(date, team1, team2, score) {
            Ok(m) => Ok(NewMatchView { stage, round, match_info: m }),
            Err(e) => Err(e),
        }
    }
}

impl View for NewLeagueMatch {
    type V = NewMatchView;

    open spec fn view(&self) -> NewMatchView {
        NewMatchView {
            stage: text_view(self.stage),
            round: self.round@,
            match_info: self.match_info@,
        }
    }
}

impl DeepView for NewLeagueMatch {
    type V = NewMatchView;

    open spec fn deep_view(&self) -> NewMatchView {
        self@
    }
}

/// What both layouts of a match offer.
pub trait LeagueMatch {
    /// The match in canonical shape, as far as the match itself says.
    spec fn uniform(&self) -> NormalizedMatchView;

    /// The date is in range and a recorded score has both numbers.
    spec fn well_formed(&self) -> bool;

    fn get_date(&self) -> (date: &MatchDate)
        ensures
            *date == self.uniform().date,
    ;

    fn get_team_1_name(&self) -> (name: &str)
        ensures
            name@ == self.uniform().team1,
    ;

    fn get_team_2_name(&self) -> (name: &str)
        ensures
            name@ == self.uniform().team2,
    ;

    fn get_team_1_score(&self) -> (score: Option<i32>)
        requires
            self.well_formed(),
        ensures
            score == self.uniform().team1_score,
    ;

    fn get_team_2_score(&self) -> (score: Option<i32>)
        requires
            self.well_formed(),
        ensures
            score == self.uniform().team2_score,
    ;

    fn get_stage(&self) -> (stage: Option<&str>)
        ensures
            str_view(stage) == self.uniform().stage,
    ;

    fn get_round(&self) -> (round: Option<&str>)
        ensures
            str_view(round) == self.uniform().round,
    ;
}

impl LeagueMatch for OldLeagueMatch {
    open spec fn uniform(&self) -> NormalizedMatchView {
        self@.placed(None, None)
    }

    open spec fn well_formed(&self) -> bool {
        self@.well_formed()
    }

    fn get_date(&self) -> (date: &MatchDate) {
        &self.date
    }

    fn get_team_1_name(&self) -> (name: &str) {
        self.team1.as_str()
    }

    fn get_team_2_name(&self) -> (name: &str) {
        self.team2.as_str()
    }

    fn get_team_1_score(&self) -> (score: Option<i32>) {
        match &self.score {
            Some(s) => Some(s.get_team_1_score()),
            None => None,
        }
    }

    fn get_team_2_score(&self) -> (score: Option<i32>) {
        match &self.score {
            Some(s) => Some(s.get_team_2_score()),
            None => None,
        }
    }

    fn get_stage(&self) -> (stage: Option<&str>) {
        None
    }

    fn get_round(&self) -> (round: Option<&str>) {
        None
    }
}

impl LeagueMatch for NewLeagueMatch {
    open spec fn uniform(&self) -> NormalizedMatchView {
        self@.uniform()
    }

    open spec fn well_formed(&self) -> bool {
        self@.well_formed()
    }

    fn get_date(&self) -> (date: &MatchDate) {
        self.match_info.get_date()
    }

    fn get_team_1_name(&self) -> (name: &str) {
        self.match_info.get_team_1_name()
    }

    fn get_team_2_name(&self) -> (name: &str) {
        self.match_info.get_team_2_name()
    }

    fn get_team_1_score(&self) -> (score: Option<i32>) {
        self.match_info.get_team_1_score()
    }

    fn get_team_2_score(&self) -> (score: Option<i32>) {
        self.match_info.get_team_2_score()
    }

    fn get_stage(&self) -> (stage: Option<&str>) {
        match &self.stage {
            Some(s) => Some(s.as_str()),
            None => None,
        }
    }

    fn get_round(&self) -> (round: Option<&str>) {
        Some(self.round.as_str())
    }
}

impl OldLeagueMatch {
    /// Builds a match from the fields of a record, the date already read.
    /// The record is rejected where no date was read, and else where its
    /// score has fewer than two numbers.
    pub fn assemble(
        date: Option<MatchDate>,
        team1: String,
        team2: String,
        score: Option<LeagueScoreFormat>,
    ) -> (read: Result<OldLeagueMatch, ParseError>)
        ensures
            match read {
                Ok(m) => OldMatchView::assemble(date, team1@, team2@, score_view(score)) == Ok::<
                    OldMatchView,
                    ParseError,
                >(m@),
                Err(e) => OldMatchView::assemble(date, team1@, team2@, score_view(score)) == Err::<
                    OldMatchView,
                    ParseError,
                >(e),
            },
    {
        let date = match date {
            Some(d) => d,
            None => {
                return Err(ParseError::BadDate);
            },
        };
        let complete = match &score {
            Some(s) => s.len() >= 2,
            None => true,
        };
        if !complete {
            return Err(ParseError::MalformedScore);
        }
        Ok(OldLeagueMatch { date, team1, team2, score })
    }

    /// Reads a match from the fields of a record. The record is rejected
    /// where the text denotes no date, and else where its score has fewer
    /// than two numbers.
    pub fn parse(
        date: &str,
        team1: String,
        team2: String,
        score: Option<LeagueScoreFormat>,
    ) -> (read: Result<OldLeagueMatch, ParseError>)
        ensures
            match read {
                Ok(m) => OldMatchView::assemble(
                    MatchDate::spec_parse(date@),
                    team1@,
                    team2@,
                    score_view(score),
                ) == Ok::<OldMatchView, ParseError>(m@) && m.well_formed(),
                Err(e) => OldMatchView::assemble(
                    MatchDate::spec_parse(date@),
                    team1@,
                    team2@,
                    score_view(score),
                ) == Err::<OldMatchView, ParseError>(e),
            },
    {
        Self::assemble(MatchDate::parse(date), team1, team2, score)
    }

    /// Tells whether the date is in range and a recorded score has both
    /// numbers.
    pub fn is_well_formed(&self) -> (ok: bool)
        ensures
            ok == self.well_formed(),
    {
        let complete = match &self.score {
            Some(s) => s.len() >= 2,
            None => true,
        };
        self.date.is_well_formed() && complete
    }

    /// The match in canonical shape, placed in the round of the given name.
    pub fn normalized(&self, round: &str) -> (m: NormalizedMatch)
        requires
            self.well_formed(),
        ensures
            m@ == self@.placed(None, Some(round@)),
    {
        NormalizedMatch {
            date: self.date,
            team1: self.team1.clone(),
            team2: self.team2.clone(),
            stage: None,
            round: Some(round.to_owned()),
            team1_score: self.get_team_1_score(),
            team2_score: self.get_team_2_score(),
        }
    }
}

impl NewLeagueMatch {
    /// Builds a match of the flat layout from the fields of a record, the
    /// date already read.
    pub fn assemble(
        stage: Option<String>,
        round: String,
        date: Option<MatchDate>,
        team1: String,
        team2: String,
        score: Option<LeagueScoreFormat>,
    ) -> (read: Result<NewLeagueMatch, ParseError>)
        ensures
            match read {
                Ok(m) => NewMatchView::assemble(
                    text_view(stage),
                    round@,
                    date,
                    team1@,
                    team2@,
                    score_view(score),
                ) == Ok::<NewMatchView, ParseError>(m@),
                Err(e) => NewMatchView::assemble(
                    text_view(stage),
                    round@,
                    date,
                    team1@,
                    team2@,
                    score_view(score),
                ) == Err::<NewMatchView, ParseError>(e),
            },
    {
        match OldLeagueMatch::assemble(date, team1, team2, score) {
            Ok(m) => Ok(NewLeagueMatch { stage, round, match_info: m }),
            Err(e) => Err(e),
        }
    }

    /// Reads a match of the flat layout from the fields of a record.
    pub fn parse(
        stage: Option<String>,
        round: String,
        date: &str,
        team1: String,
        team2: String,
        score: Option<LeagueScoreFormat>,
    ) -> (read: Result<NewLeagueMatch, ParseError>)
        ensures
            match read {
                Ok(m) => NewMatchView::assemble(
                    text_view(stage),
                    round@,
                    MatchDate::spec_parse(date@),
                    team1@,
                    team2@,
                    score_view(score),
                ) == Ok::<NewMatchView, ParseError>(m@) && m.well_formed(),
                Err(e) => NewMatchView::assemble(
                    text_view(stage),
                    round@,
                    MatchDate::spec_parse(date@),
                    team1@,
                    team2@,
                    score_view(score),
                ) == Err::<NewMatchView, ParseError>(e),
            },
    {
        Self::assemble(stage, round, MatchDate::parse(date), team1, team2, score)
    }

    /// The match in canonical shape.
    pub fn normalized(&self) -> (m: NormalizedMatch)
        requires
            self.well_formed(),
        ensures
            m@ == self@.uniform(),
    {
        NormalizedMatch {
            date: self.match_info.date,
            team1: self.match_info.team1.clone(),
            team2: self.match_info.team2.clone(),
            stage: copy_text(&self.stage),
            round: Some(self.round.clone()),
            team1_score: self.match_info.get_team_1_score(),
            team2_score: self.match_info.get_team_2_score(),
        }
    }
}

} // verus!
