//! Leagues in both layouts, and their normalization to one list of matches.

use vstd::prelude::*;
use crate::date::MatchDate;
use crate::model::{
    score_view, text_view, LeagueMatch, LeagueScoreFormat, NewLeagueMatch, NewMatchView,
    NormalizedMatch, NormalizedMatchView, OldLeagueMatch, OldMatchView, ParseError,
};

verus! {

/// A named round of the round-grouped layout, with its matches.
#[derive(Debug)]
pub struct LeagueRound {
    pub name: String,
    pub matches: Vec<OldLeagueMatch>,
}

/// The view of a [`LeagueRound`].
pub struct RoundView {
    pub name: Seq<char>,
    pub matches: Seq<OldMatchView>,
}

impl RoundView {
    /// Every match of the round is well formed.
    pub open spec fn well_formed(self) -> bool {
        forall|i: int| 0 <= i < self.matches.len() ==> (#[trigger] self.matches[i]).well_formed()
    }

    /// The round's matches in canonical shape: each carries the round's
    /// name and no stage.
    pub open spec fn normalized(self) -> Seq<NormalizedMatchView> {
        Seq::new(self.matches.len(), |i: int| self.matches[i].placed(None, Some(self.name)))
    }
}

impl View for LeagueRound {
    type V = RoundView;

    open spec fn view(&self) -> RoundView {
        RoundView { name: self.name@, matches: self.matches.deep_view() }
    }
}

impl DeepView for LeagueRound {
    type V = RoundView;

    open spec fn deep_view(&self) -> RoundView {
        self@
    }
}

/// The matches of some rounds in canonical shape, round after round.
pub open spec fn rounds_normalized(rounds: Seq<RoundView>) -> Seq<NormalizedMatchView>
    decreases rounds.len(),
{
    if rounds.len() == 0 {
        Seq::empty()
    } else {
        rounds_normalized(rounds.drop_last()) + rounds.last().normalized()
    }
}

/// How many matches some rounds hold together.
pub open spec fn rounds_match_count(rounds: Seq<RoundView>) -> nat
    decreases rounds.len(),
{
    if rounds.len() == 0 {
        0
    } else {
        rounds_match_count(rounds.drop_last()) + rounds.last().matches.len()
    }
}

/// The matches of a flat league in canonical shape.
pub open spec fn flat_normalized(matches: Seq<NewMatchView>) -> Seq<NormalizedMatchView> {
    Seq::new(matches.len(), |i: int| matches[i].uniform())
}

/// A league in the round-grouped layout.
#[derive(Debug)]
pub struct OldLeagueFormat {
    pub id: i32,
    pub name: String,
    pub rounds: Vec<LeagueRound>,
}

/// The view of an [`OldLeagueFormat`].
pub struct OldLeagueView {
    pub id: int,
    pub name: Seq<char>,
    pub rounds: Seq<RoundView>,
}

impl OldLeagueView {
    pub open spec fn well_formed(self) -> bool {
        forall|i: int| 0 <= i < self.rounds.len() ==> (#[trigger] self.rounds[i]).well_formed()
    }
}

impl View for OldLeagueFormat {
    type V = OldLeagueView;

    open spec fn view(&self) -> OldLeagueView {
        OldLeagueView { id: self.id as int, name: self.name@, rounds: self.rounds.deep_view() }
    }
}

/// A league in the flat layout.
#[derive(Debug)]
pub struct NewLeagueFormat {
    pub id: i32,
    pub name: String,
    pub matches: Vec<NewLeagueMatch>,
}

/// The view of a [`NewLeagueFormat`].
pub struct NewLeagueView {
    pub id: int,
    pub name: Seq<char>,
    pub matches: Seq<NewMatchView>,
}

impl NewLeagueView {
    pub open spec fn well_formed(self) -> bool {
        forall|i: int| 0 <= i < self.matches.len() ==> (#[trigger] self.matches[i]).well_formed()
    }
}

impl View for NewLeagueFormat {
    type V = NewLeagueView;

    open spec fn view(&self) -> NewLeagueView {
        NewLeagueView { id: self.id as int, name: self.name@, matches: self.matches.deep_view() }
    }
}

/// A league in either layout.
#[derive(Debug)]
pub enum LeagueJsonFormat {
    OldFormat(OldLeagueFormat),
    NewFormat(NewLeagueFormat),
}

/// The view of a [`LeagueJsonFormat`].
pub enum LeagueView {
    OldFormat(OldLeagueView),
    NewFormat(NewLeagueView),
}

impl LeagueView {
    /// The league's key; 0 while none is assigned.
    pub open spec fn id(self) -> int {
        match self {
            LeagueView::OldFormat(o) => o.id,
            LeagueView::NewFormat(n) => n.id,
        }
    }

    pub open spec fn name(self) -> Seq<char> {
        match self {
            LeagueView::OldFormat(o) => o.name,
            LeagueView::NewFormat(n) => n.name,
        }
    }

    /// The same league under another key.
    pub open spec fn with_id(self, id: int) -> LeagueView {
        match self {
            LeagueView::OldFormat(o) => LeagueView::OldFormat(OldLeagueView { id, ..o }),
            LeagueView::NewFormat(n) => LeagueView::NewFormat(NewLeagueView { id, ..n }),
        }
    }

    /// Every match of the league is well formed.
    pub open spec fn well_formed(self) -> bool {
        match self {
            LeagueView::OldFormat(o) => o.well_formed(),
            LeagueView::NewFormat(n) => n.well_formed(),
        }
    }

    /// The league's matches in canonical shape, in the order of the source.
    pub open spec fn normalized(self) -> Seq<NormalizedMatchView> {
        match self {
            LeagueView::OldFormat(o) => rounds_normalized(o.rounds),
            LeagueView::NewFormat(n) => flat_normalized(n.matches),
        }
    }
}

impl View for LeagueJsonFormat {
    type V = LeagueView;

    open spec fn view(&self) -> LeagueView {
        match self {
            LeagueJsonFormat::OldFormat(o) => LeagueView::OldFormat(o@),
            LeagueJsonFormat::NewFormat(n) => LeagueView::NewFormat(n@),
        }
    }
}

impl DeepView for LeagueJsonFormat {
    type V = LeagueView;

    open spec fn deep_view(&self) -> LeagueView {
        self@
    }
}

impl LeagueRound {
    /// A round of the given name, without matches.
    pub fn new(name: String) -> (round: LeagueRound)
        ensures
            round@ == (RoundView { name: name@, matches: Seq::empty() }),
    {
        let round = LeagueRound { name, matches: Vec::new() };
        assert(round.matches.deep_view() =~= Seq::empty());
        round
    }

    /// Tells whether every match of the round is well formed.
    pub fn is_well_formed(&self) -> (ok: bool)
        ensures
            ok == self@.well_formed(),
    {
        let mut j: usize = 0;
        while j < self.matches.len()
            invariant
                j <= self.matches.len(),
                forall|m: int| 0 <= m < j ==> (#[trigger] self@.matches[m]).well_formed(),
            decreases self.matches.len() - j,
        {
            if !self.matches[j].is_well_formed() {
                assert(!self@.matches[j as int].well_formed());
                return false;
            }
            j += 1;
        }
        true
    }

    /// Reads one match record into the round. A record that is rejected
    /// leaves the round as it was.
    pub fn push_record(
        &mut self,
        date: &str,
        team1: String,
        team2: String,
        score: Option<LeagueScoreFormat>,
    ) -> (read: Result<(), ParseError>)
        ensures
            final(self)@.name == old(self)@.name,
            match read {
                Ok(_) => {
                    let m = OldMatchView::assemble(
                        MatchDate::spec_parse(date@),
                        team1@,
                        team2@,
                        score_view(score),
                    );
                    &&& m is Ok
                    &&& final(self)@.matches == old(self)@.matches.push(m->Ok_0)
                },
                Err(e) => {
                    &&& OldMatchView::assemble(
                        MatchDate::spec_parse(date@),
                        team1@,
                        team2@,
                        score_view(score),
                    ) == Err::<OldMatchView, ParseError>(e)
                    &&& final(self)@ == old(self)@
                },
            },
            old(self)@.well_formed() ==> final(self)@.well_formed(),
    {
        match OldLeagueMatch::parse(date, team1, team2, score) {
            Ok(m) => {
                self.matches.push(m);
                Ok(())
            },
            Err(e) => Err(e),
        }
    }
}

impl OldLeagueFormat {
    /// A league of the given name, without rounds and without a key.
    pub fn new(name: String) -> (league: OldLeagueFormat)
        ensures
            league@ == (OldLeagueView { id: 0, name: name@, rounds: Seq::empty() }),
    {
        let league = OldLeagueFormat { id: 0, name, rounds: Vec::new() };
        assert(league.rounds.deep_view() =~= Seq::empty());
        league
    }

    /// Adds a round behind those that are there.
    pub fn push_round(&mut self, round: LeagueRound)
        ensures
            final(self)@ == (OldLeagueView {
                rounds: old(self)@.rounds.push(round@),
                ..old(self)@
            }),
            old(self)@.well_formed() && round@.well_formed() ==> final(self)@.well_formed(),
    {
        self.rounds.push(round);
        assert(self.rounds.deep_view() =~= old(self).rounds.deep_view().push(round@));
    }
}

impl NewLeagueFormat {
    /// A league of the given name, without matches and without a key.
    pub fn new(name: String) -> (league: NewLeagueFormat)
        ensures
            league@ == (NewLeagueView { id: 0, name: name@, matches: Seq::empty() }),
    {
        let league = NewLeagueFormat { id: 0, name, matches: Vec::new() };
        assert(league.matches.deep_view() =~= Seq::empty());
        league
    }

    /// Reads one match record into the league. A record that is rejected
    /// leaves the league as it was.
    pub fn push_record(
        &mut self,
        stage: Option<String>,
        round: String,
        date: &str,
        team1: String,
        team2: String,
        score: Option<LeagueScoreFormat>,
    ) -> (read: Result<(), ParseError>)
        ensures
            final(self)@.id == old(self)@.id,
            final(self)@.name == old(self)@.name,
            match read {
                Ok(_) => {
                    let m = NewMatchView::assemble(
                        text_view(stage),
                        round@,
                        MatchDate::spec_parse(date@),
                        team1@,
                        team2@,
                        score_view(score),
                    );
                    &&& m is Ok
                    &&& final(self)@.matches == old(self)@.matches.push(m->Ok_0)
                },
                Err(e) => {
                    &&& NewMatchView::assemble(
                        text_view(stage),
                        round@,
                        MatchDate::spec_parse(date@),
                        team1@,
                        team2@,
                        score_view(score),
                    ) == Err::<NewMatchView, ParseError>(e)
                    &&& final(self)@ == old(self)@
                },
            },
            old(self)@.well_formed() ==> final(self)@.well_formed(),
    {
        match NewLeagueMatch::parse(stage, round, date, team1, team2, score) {
            Ok(m) => {
                self.matches.push(m);
                Ok(())
            },
            Err(e) => Err(e),
        }
    }
}

/// The matches of the first rounds, then those of the next one, are the
/// matches of one round more.
pub proof fn lemma_rounds_normalized_step(rounds: Seq<RoundView>, count: int)
    requires
        0 <= count < rounds.len(),
    ensures
        rounds_normalized(rounds.take(count + 1)) == rounds_normalized(rounds.take(count))
            + rounds[count].normalized(),
{
    assert(rounds.take(count + 1).drop_last() =~= rounds.take(count));
}

/// Flattening keeps every match: a round-grouped league yields as many
/// matches as its rounds hold together, each with the name of its round
/// and without a stage.
pub proof fn lemma_rounds_normalized_complete(rounds: Seq<RoundView>)
    ensures
        rounds_normalized(rounds).len() == rounds_match_count(rounds),
        forall|k: int|
            0 <= k < rounds_normalized(rounds).len() ==> {
                &&& (#[trigger] rounds_normalized(rounds)[k]).stage is None
                &&& exists|r: int|
                    0 <= r < rounds.len() && rounds_normalized(rounds)[k].round == Some(
                        (#[trigger] rounds[r]).name,
                    )
            },
    decreases rounds.len(),
{
    if rounds.len() > 0 {
        let front = rounds.drop_last();
        lemma_rounds_normalized_complete(front);
        let all = rounds_normalized(rounds);
        assert forall|k: int| 0 <= k < all.len() implies {
            &&& (#[trigger] all[k]).stage is None
            &&& exists|r: int|
                0 <= r < rounds.len() && all[k].round == Some((#[trigger] rounds[r]).name)
        } by {
            if k < rounds_normalized(front).len() {
                let r = choose|r: int|
                    0 <= r < front.len() && rounds_normalized(front)[k].round == Some(
                        (#[trigger] front[r]).name,
                    );
                assert(rounds[r] == front[r]);
            } else {
                let last = rounds.len() - 1;
                assert(all[k].round == Some(rounds[last].name));
            }
        }
    }
}

impl LeagueJsonFormat {
    pub fn get_league_name(&self) -> (name: String)
        ensures
            name@ == self@.name(),
    {
        match self {
            LeagueJsonFormat::OldFormat(o) => o.name.clone(),
            LeagueJsonFormat::NewFormat(n) => n.name.clone(),
        }
    }

    pub fn get_league_id(&self) -> (id: i32)
        ensures
            id == self@.id(),
    {
        match self {
            LeagueJsonFormat::OldFormat(o) => o.id,
            LeagueJsonFormat::NewFormat(n) => n.id,
        }
    }

    /// Gives the league its key; nothing else changes.
    pub fn set_league_id(&mut self, id: i32)
        ensures
            final(self)@ == old(self)@.with_id(id as int),
    {
        match self {
            LeagueJsonFormat::OldFormat(o) => {
                o.id = id;
            },
            LeagueJsonFormat::NewFormat(n) => {
                n.id = id;
            },
        }
    }

    /// Tells whether every match of the league is well formed.
    pub fn is_well_formed(&self) -> (ok: bool)
        ensures
            ok == self@.well_formed(),
    {
        match self {
            LeagueJsonFormat::OldFormat(o) => {
                let mut i: usize = 0;
                while i < o.rounds.len()
                    invariant
                        i <= o.rounds.len(),
                        self@ == LeagueView::OldFormat(o@),
                        forall|r: int| 0 <= r < i ==> (#[trigger] o@.rounds[r]).well_formed(),
                    decreases o.rounds.len() - i,
                {
                    if !o.rounds[i].is_well_formed() {
                        assert(!o@.rounds[i as int].well_formed());
                        return false;
                    }
                    i += 1;
                }
                true
            },
            LeagueJsonFormat::NewFormat(n) => {
                let mut i: usize = 0;
                while i < n.matches.len()
                    invariant
                        i <= n.matches.len(),
                        self@ == LeagueView::NewFormat(n@),
                        forall|m: int| 0 <= m < i ==> (#[trigger] n@.matches[m]).well_formed(),
                    decreases n.matches.len() - i,
                {
                    if !n.matches[i].match_info.is_well_formed() {
                        assert(!n@.matches[i as int].well_formed());
                        return false;
                    }
                    i += 1;
                }
                true
            },
        }
    }

    /// The league's matches in canonical shape, in the order of the source:
    /// round after round in the round-grouped layout, each match with the
    /// name of its round and no stage; as listed in the flat layout, each
    /// match with its own stage and round.
    pub fn normalize(&self) -> (matches: Vec<NormalizedMatch>)
        requires
            self@.well_formed(),
        ensures
            matches.deep_view() == self@.normalized(),
    {
        let mut out: Vec<NormalizedMatch> = Vec::new();
        match self {
            LeagueJsonFormat::OldFormat(o) => {
                let ghost rounds = o.rounds.deep_view();
                let mut i: usize = 0;
                while i < o.rounds.len()
                    invariant
                        i <= o.rounds.len(),
                        rounds == o.rounds.deep_view(),
                        o@.well_formed(),
                        out.deep_view() == rounds_normalized(rounds.take(i as int)),
                    decreases o.rounds.len() - i,
                {
                    let round = &o.rounds[i];
                    assert(o@.rounds[i as int].well_formed());
                    let ghost before = out.deep_view();
                    let mut j: usize = 0;
                    while j < round.matches.len()
                        invariant
                            j <= round.matches.len(),
                            round@.well_formed(),
                            out.deep_view() == before + round@.normalized().take(j as int),
                        decreases round.matches.len() - j,
                    {
                        let ghost prev = out.deep_view();
                        assert(round.matches[j as int]@ == round@.matches[j as int]);
                        let m = round.matches[j].normalized(round.name.as_str());
                        out.push(m);
                        assert(round@.normalized().take(j + 1) =~= round@.normalized().take(
                            j as int,
                        ).push(m@));
                        assert(before + round@.normalized().take(j + 1) =~= prev.push(m@));
                        j += 1;
                    }
                    proof {
                        lemma_rounds_normalized_step(rounds, i as int);
                    }
                    i += 1;
                }
                assert(rounds.take(i as int) =~= rounds);
            },
            LeagueJsonFormat::NewFormat(n) => {
                let mut i: usize = 0;
                while i < n.matches.len()
                    invariant
                        i <= n.matches.len(),
                        n@.well_formed(),
                        out.deep_view() == flat_normalized(n@.matches).take(i as int),
                    decreases n.matches.len() - i,
                {
                    let ghost prev = out.deep_view();
                    assert(n.matches[i as int]@ == n@.matches[i as int]);
                    let m = n.matches[i].normalized();
                    out.push(m);
                    assert(flat_normalized(n@.matches).take(i + 1) =~= prev.push(m@));
                    i += 1;
                }
                assert(flat_normalized(n@.matches).take(i as int) =~= flat_normalized(
                    n@.matches,
                ));
            },
        }
        out
    }
}

} // verus!
