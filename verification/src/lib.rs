//! Quake-style game-server log analysis: a zero-copy line parser that turns
//! raw log text into typed events, and a match aggregator that folds the
//! event stream into per-match kill statistics.

pub mod aggregate;
pub mod events;
pub mod laws;
pub mod parser;

use vstd::prelude::*;

use crate::aggregate::{
    assoc_get_or, assoc_has, parse_matches, spec_parse_matches, Match, SpecMatch,
};
use crate::events::MeansOfDeath;

verus! {

/// Reserved killer id the server uses for environmental deaths; never a real player.
pub const WORLD_ID: u32 = 1022;

/// The kill-count projection of one completed match: the total, the player
/// names in first-appearance order, and net kills keyed by player name.
/// A kill entry whose id never got a name binding is omitted rather than
/// failing the report.
pub struct MatchKills<'a> {
    pub total_kills: u64,
    pub players: Vec<&'a str>,
    pub kills: Vec<(&'a str, i64)>,
}

/// The by-cause projection of one completed match.
pub struct MatchByMeans {
    pub kills_by_means: Vec<(MeansOfDeath, i64)>,
}

/// Both projections for every completed match, in match order: the same
/// index in either list describes the same match.
pub struct Report<'a> {
    pub match_kills: Vec<MatchKills<'a>>,
    pub match_by_means: Vec<MatchByMeans>,
}

/// Mathematical form of [`MatchKills`].
pub struct SpecMatchKills {
    pub total_kills: int,
    pub players: Seq<Seq<char>>,
    pub kills: Seq<(Seq<char>, int)>,
}

/// Mathematical form of [`MatchByMeans`].
pub struct SpecMatchByMeans {
    pub kills_by_means: Seq<(MeansOfDeath, int)>,
}

/// Mathematical form of [`Report`].
pub struct SpecReport {
    pub match_kills: Seq<SpecMatchKills>,
    pub match_by_means: Seq<SpecMatchByMeans>,
}

impl View for MatchKills<'_> {
    type V = SpecMatchKills;

    open spec fn view(&self) -> SpecMatchKills {
        SpecMatchKills {
            total_kills: self.total_kills as int,
            players: Seq::new(self.players@.len(), |i: int| self.players@[i]@),
            kills: Seq::new(self.kills@.len(), |i: int| (self.kills@[i].0@, self.kills@[i].1 as int)),
        }
    }
}

impl View for MatchByMeans {
    type V = SpecMatchByMeans;

    open spec fn view(&self) -> SpecMatchByMeans {
        SpecMatchByMeans {
            kills_by_means: Seq::new(
                self.kills_by_means@.len(),
                |i: int| (self.kills_by_means@[i].0, self.kills_by_means@[i].1 as int),
            ),
        }
    }
}

impl View for Report<'_> {
    type V = SpecReport;

    open spec fn view(&self) -> SpecReport {
        SpecReport {
            match_kills: Seq::new(self.match_kills@.len(), |i: int| self.match_kills@[i]@),
            match_by_means: Seq::new(
                self.match_by_means@.len(),
                |i: int| self.match_by_means@[i]@,
            ),
        }
    }
}

/// The name-keyed kill rows of a match: one row per kill-delta entry whose
/// id has a nickname, in the entry order, under that nickname.
pub open spec fn spec_name_rows(
    players: Seq<(u32, Seq<char>)>,
    kills: Seq<(u32, int)>,
) -> Seq<(Seq<char>, int)>
    decreases kills.len(),
{
    if kills.len() == 0 {
        Seq::empty()
    } else {
        let rest = spec_name_rows(players, kills.drop_last());
        let last = kills.last();
        if assoc_has(players, last.0) {
            rest.push((assoc_get_or(players, last.0, Seq::empty()), last.1))
        } else {
            rest
        }
    }
}

/// What the kill-count projection of a match holds.
pub open spec fn spec_match_kills(m: SpecMatch) -> SpecMatchKills {
    SpecMatchKills {
        total_kills: m.total,
        players: Seq::new(m.players.len(), |i: int| m.players[i].1),
        kills: spec_name_rows(m.players, m.kills),
    }
}

/// What the by-cause projection of a match holds.
pub open spec fn spec_match_by_means(m: SpecMatch) -> SpecMatchByMeans {
    SpecMatchByMeans { kills_by_means: m.kills_by_mean }
}

/// What the whole report of a log text holds.
pub open spec fn spec_report(s: Seq<char>) -> SpecReport {
    let ms = spec_parse_matches(s);
    SpecReport {
        match_kills: Seq::new(ms.len(), |i: int| spec_match_kills(ms[i])),
        match_by_means: Seq::new(ms.len(), |i: int| spec_match_by_means(ms[i])),
    }
}

impl<'a> Match<'a> {
    /// Project one completed match into its two report views.
    #[verifier::loop_isolation(false)]
    pub fn into_parts(self) -> (r: (MatchKills<'a>, MatchByMeans))
        ensures
            r.0@ == spec_match_kills(self@),
            r.1@ == spec_match_by_means(self@),
    {
        let mut names: Vec<&'a str> = Vec::new();
        let pn = self.players.len();
        let mut i: usize = 0;
        while i < pn
            invariant
                i <= pn,
                names@.len() == i,
                forall|k: int| 0 <= k < i ==> #[trigger] names@[k] == self.players@[k].1,
            decreases pn - i,
        {
            names.push(self.players[i].1);
            i += 1;
        }
        let mut rows: Vec<(&'a str, i64)> = Vec::new();
        let kn = self.kills.len();
        let mut j: usize = 0;
        while j < kn
            invariant
                j <= kn,
                Seq::new(rows@.len(), |k: int| (rows@[k].0@, rows@[k].1 as int))
                    == spec_name_rows(self@.players, self@.kills.subrange(0, j as int)),
            decreases kn - j,
        {
            let entry = self.kills[j];
            let ghost prefix = self@.kills.subrange(0, j as int);
            match self.player_name(entry.0) {
                Some(name) => {
                    rows.push((name, entry.1));
                },
                None => {},
            }
            proof {
                assert(self@.kills.subrange(0, j + 1).drop_last() =~= prefix);
                assert(self@.kills.subrange(0, j + 1).last() == self@.kills[j as int]);
                assert(Seq::new(rows@.len(), |k: int| (rows@[k].0@, rows@[k].1 as int))
                    =~= spec_name_rows(self@.players, self@.kills.subrange(0, j + 1)));
            }
            j += 1;
        }
        proof {
            assert(self@.kills.subrange(0, kn as int) =~= self@.kills);
        }
        let match_kills = MatchKills { total_kills: self.total, players: names, kills: rows };
        let match_by_means = MatchByMeans { kills_by_means: self.kill_by_mean };
        proof {
            assert(match_kills@.players =~= spec_match_kills(self@).players);
            assert(match_kills@.kills =~= spec_match_kills(self@).kills);
            assert(match_by_means@.kills_by_means =~= spec_match_by_means(self@).kills_by_means);
        }
        (match_kills, match_by_means)
    }
}

/// Build the full report for a log text: parse every line, fold the events
/// into completed matches, and project each match into its two views.
#[verifier::loop_isolation(false)]
pub fn generate_report<'a>(input: &'a str) -> (r: Report<'a>)
    ensures
        r@ == spec_report(input@),
{
    let mut ms = parse_matches(input);
    let n0 = ms.len();
    let ghost sm = spec_parse_matches(input@);
    let ghost orig = ms@;
    let mut match_kills: Vec<MatchKills<'a>> = Vec::new();
    let mut match_by_means: Vec<MatchByMeans> = Vec::new();
    let mut done: usize = 0;
    proof {
        assert(ms@ =~= orig.subrange(0, orig.len() as int));
        assert(orig.len() == n0 as int);
    }
    while ms.len() > 0
        invariant
            done + ms@.len() == orig.len(),
            ms@ == orig.subrange(done as int, orig.len() as int),
            match_kills@.len() == done,
            match_by_means@.len() == done,
            forall|i: int|
                0 <= i < done ==> #[trigger] match_kills@[i]@ == spec_match_kills(sm[i]),
            forall|i: int|
                0 <= i < done ==> #[trigger] match_by_means@[i]@ == spec_match_by_means(sm[i]),
        decreases ms@.len(),
    {
        let m = ms.remove(0);
        proof {
            assert(m@ == sm[done as int]);
            assert(ms@ =~= orig.subrange(done + 1, orig.len() as int));
        }
        let parts = m.into_parts();
        match_kills.push(parts.0);
        match_by_means.push(parts.1);
        done += 1;
    }
    let r = Report { match_kills, match_by_means };
    proof {
        assert(r@.match_kills =~= spec_report(input@).match_kills);
        assert(r@.match_by_means =~= spec_report(input@).match_by_means);
    }
    r
}

} // verus!
