//! The match aggregator: folds the parsed event stream into per-match kill
//! statistics, one completed match per `ShutdownGame` event.
//!
//! A [`Match`] keeps its three id-keyed tables as association vectors in
//! first-insertion order, so every projection of a match is deterministic.
//! Their mathematical form is [`SpecMatch`], an association sequence per
//! table, with the `assoc_*` functions below as the table operations.

use vstd::prelude::*;

use crate::events::{EventKind, MeansOfDeath, SpecEvent, SpecEventKind};
use crate::parser::{
    lemma_parsed_line_min_len, lemma_run_end_bounds, lemma_run_end_shift, run_end,
    spec_parse_line,
};
use crate::WORLD_ID;
use vstd::string::StrSliceExecFns;

verus! {

/// Whether the association sequence has an entry with this key.
pub open spec fn assoc_has<K, V>(s: Seq<(K, V)>, key: K) -> bool {
    exists|k: int| 0 <= k < s.len() && s[k].0 == key
}

/// Index of the first entry with this key (`s.len()` if there is none).
pub open spec fn assoc_find<K, V>(s: Seq<(K, V)>, key: K) -> int
    decreases s.len(),
{
    if s.len() == 0 {
        0
    } else if s[0].0 == key {
        0
    } else {
        1 + assoc_find(s.subrange(1, s.len() as int), key)
    }
}

/// The value stored under this key, or `dflt` if the key is absent.
pub open spec fn assoc_get_or<K, V>(s: Seq<(K, V)>, key: K, dflt: V) -> V {
    if assoc_has(s, key) {
        s[assoc_find(s, key)].1
    } else {
        dflt
    }
}

/// Store `v` under `key`: overwrite the first entry with that key, or append
/// a new entry at the end.
pub open spec fn assoc_set<K, V>(s: Seq<(K, V)>, key: K, v: V) -> Seq<(K, V)> {
    if assoc_has(s, key) {
        s.update(assoc_find(s, key), (key, v))
    } else {
        s.push((key, v))
    }
}

/// Add `d` to the value under `key`, treating an absent key as zero.
pub open spec fn assoc_bump<K>(s: Seq<(K, int)>, key: K, d: int) -> Seq<(K, int)> {
    assoc_set(s, key, assoc_get_or(s, key, 0) + d)
}

/// Where the first entry with a present key sits, and that nothing with the
/// same key comes before it.
pub proof fn lemma_assoc_find_props<K, V>(s: Seq<(K, V)>, key: K)
    requires
        assoc_has(s, key),
    ensures
        0 <= assoc_find(s, key) < s.len(),
        s[assoc_find(s, key)].0 == key,
        forall|k: int| 0 <= k < assoc_find(s, key) ==> (#[trigger] s[k]).0 != key,
    decreases s.len(),
{
    if s.len() > 0 && s[0].0 != key {
        let t = s.subrange(1, s.len() as int);
        assert(assoc_has(t, key)) by {
            let w = choose|k: int| 0 <= k < s.len() && s[k].0 == key;
            assert(t[w - 1].0 == key);
        }
        lemma_assoc_find_props(t, key);
        assert(forall|k: int| 1 <= k < s.len() ==> s[k] == t[k - 1]);
    }
}

/// An index that carries `key`, with no earlier entry carrying it, is where
/// `assoc_find` lands.
pub proof fn lemma_assoc_find_is<K, V>(s: Seq<(K, V)>, key: K, i: int)
    requires
        0 <= i < s.len(),
        s[i].0 == key,
        forall|k: int| 0 <= k < i ==> (#[trigger] s[k]).0 != key,
    ensures
        assoc_has(s, key),
        assoc_find(s, key) == i,
    decreases s.len(),
{
    if s[0].0 != key {
        let t = s.subrange(1, s.len() as int);
        assert(t[i - 1] == s[i]);
        assert(forall|k: int| 0 <= k < i - 1 ==> t[k] == s[k + 1]);
        lemma_assoc_find_is(t, key, i - 1);
    }
}

/// How bumping one key reads back: the bumped key gained `d`, every other
/// key is untouched, and no key appears or disappears except the bumped one.
pub proof fn lemma_assoc_bump_get<K>(s: Seq<(K, int)>, key: K, d: int, k: K)
    ensures
        assoc_get_or(assoc_bump(s, key, d), k, 0) == if k == key {
            assoc_get_or(s, key, 0) + d
        } else {
            assoc_get_or(s, k, 0)
        },
        assoc_has(assoc_bump(s, key, d), k) == (k == key || assoc_has(s, k)),
{
    let s2 = assoc_bump(s, key, d);
    if assoc_has(s, key) {
        let f = assoc_find(s, key);
        lemma_assoc_find_props(s, key);
        assert(forall|j: int| 0 <= j < s.len() ==> (#[trigger] s2[j]).0 == s[j].0);
        if k == key {
            lemma_assoc_find_is(s2, key, f);
        } else {
            if assoc_has(s, k) {
                let f2 = assoc_find(s, k);
                lemma_assoc_find_props(s, k);
                lemma_assoc_find_is(s2, k, f2);
            } else {
                assert(!assoc_has(s2, k)) by {
                    if assoc_has(s2, k) {
                        let w = choose|j: int| 0 <= j < s2.len() && s2[j].0 == k;
                        assert(s[w].0 == k);
                    }
                }
            }
        }
    } else {
        assert(forall|j: int| 0 <= j < s.len() ==> (#[trigger] s[j]).0 != key);
        if k == key {
            lemma_assoc_find_is(s2, key, s.len() as int);
        } else {
            if assoc_has(s, k) {
                let f2 = assoc_find(s, k);
                lemma_assoc_find_props(s, k);
                assert(forall|j: int| 0 <= j < f2 ==> (#[trigger] s2[j]).0 != k);
                lemma_assoc_find_is(s2, k, f2);
            } else {
                assert(!assoc_has(s2, k)) by {
                    if assoc_has(s2, k) {
                        let w = choose|j: int| 0 <= j < s2.len() && s2[j].0 == k;
                        assert(w == s.len() || s[w].0 == k);
                    }
                }
            }
        }
    }
}

/// Mathematical form of a [`Match`]: the running totals of one match, with
/// each table an association sequence in first-insertion order.
pub struct SpecMatch {
    pub total: int,
    pub players: Seq<(u32, Seq<char>)>,
    pub kills: Seq<(u32, int)>,
    pub kills_by_mean: Seq<(MeansOfDeath, int)>,
}

impl SpecMatch {
    /// A match with nothing recorded yet.
    pub open spec fn empty() -> SpecMatch {
        SpecMatch {
            total: 0,
            players: Seq::empty(),
            kills: Seq::empty(),
            kills_by_mean: Seq::empty(),
        }
    }

    /// Player-id to latest nickname, as a map.
    pub open spec fn players_map(self) -> Map<u32, Seq<char>> {
        Map::new(
            |id: u32| assoc_has(self.players, id),
            |id: u32| assoc_get_or(self.players, id, Seq::empty()),
        )
    }

    /// Player-id to net kill delta, as a map.
    pub open spec fn kills_map(self) -> Map<u32, int> {
        Map::new(
            |id: u32| assoc_has(self.kills, id),
            |id: u32| assoc_get_or(self.kills, id, 0),
        )
    }

    /// Cause of death to kill count, as a map.
    pub open spec fn means_map(self) -> Map<MeansOfDeath, int> {
        Map::new(
            |m: MeansOfDeath| assoc_has(self.kills_by_mean, m),
            |m: MeansOfDeath| assoc_get_or(self.kills_by_mean, m, 0),
        )
    }

    /// Effect of a player-name (re)binding: last write wins.
    pub open spec fn add_player(self, id: u32, nickname: Seq<char>) -> SpecMatch {
        SpecMatch { players: assoc_set(self.players, id, nickname), ..self }
    }

    /// Effect of a kill on the killer's net delta.
    pub open spec fn killed(self, killer: u32) -> SpecMatch {
        SpecMatch { kills: assoc_bump(self.kills, killer, 1), ..self }
    }

    /// Effect of a world kill: the victim, not a killer, is penalized.
    pub open spec fn killed_by_world(self, victim: u32) -> SpecMatch {
        SpecMatch { kills: assoc_bump(self.kills, victim, -1), ..self }
    }

    /// Effect of a kill on the totals bucketed by cause.
    pub open spec fn kill_by_mean(self, mean: MeansOfDeath) -> SpecMatch {
        SpecMatch {
            total: self.total + 1,
            kills_by_mean: assoc_bump(self.kills_by_mean, mean, 1),
            ..self
        }
    }

    /// The transition of the aggregator on one event that is not a
    /// `ShutdownGame` (those are handled by [`spec_aggregate`]).
    pub open spec fn step(self, kind: SpecEventKind) -> SpecMatch {
        match kind {
            SpecEventKind::InitGame => self,
            SpecEventKind::Irrelevant => self,
            SpecEventKind::ShutdownGame => self,
            SpecEventKind::ClientUserInfoChanged(c) => self.add_player(c.id, c.nickname),
            SpecEventKind::Kill(k) => {
                let m = self.kill_by_mean(k.mean);
                if k.killer == WORLD_ID {
                    m.killed_by_world(k.victim)
                } else {
                    m.killed(k.killer)
                }
            },
        }
    }
}

/// Folding the event stream: the completed matches emitted so far (one per
/// `ShutdownGame`, in input order) and the in-progress accumulator.
pub open spec fn spec_aggregate(es: Seq<SpecEvent>) -> (Seq<SpecMatch>, SpecMatch)
    decreases es.len(),
{
    if es.len() == 0 {
        (Seq::empty(), SpecMatch::empty())
    } else {
        let (out, cur) = spec_aggregate(es.drop_last());
        if es.last().kind is ShutdownGame {
            (out.push(cur), SpecMatch::empty())
        } else {
            (out, cur.step(es.last().kind))
        }
    }
}

/// The completed matches of an event stream. Whatever accumulated after the
/// last `ShutdownGame` is discarded.
pub open spec fn spec_matches(es: Seq<SpecEvent>) -> Seq<SpecMatch> {
    spec_aggregate(es).0
}

/// One match being accumulated: total kills, id-to-nickname bindings,
/// net kills per id, and kills per cause, each in first-insertion order.
#[derive(Debug)]
pub struct Match<'a> {
    pub total: u64,
    pub players: Vec<(u32, &'a str)>,
    pub kills: Vec<(u32, i64)>,
    pub kill_by_mean: Vec<(MeansOfDeath, i64)>,
}

impl View for Match<'_> {
    type V = SpecMatch;

    open spec fn view(&self) -> SpecMatch {
        SpecMatch {
            total: self.total as int,
            players: Seq::new(self.players@.len(), |i: int| (self.players@[i].0, self.players@[i].1@)),
            kills: Seq::new(self.kills@.len(), |i: int| (self.kills@[i].0, self.kills@[i].1 as int)),
            kills_by_mean: Seq::new(
                self.kill_by_mean@.len(),
                |i: int| (self.kill_by_mean@[i].0, self.kill_by_mean@[i].1 as int),
            ),
        }
    }
}

impl<'a> Match<'a> {
    /// A fresh accumulator with nothing recorded.
    pub fn new() -> (m: Match<'a>)
        ensures
            m@ == SpecMatch::empty(),
    {
        let m = Match { total: 0, players: Vec::new(), kills: Vec::new(), kill_by_mean: Vec::new() };
        proof {
            assert(m@.players =~= Seq::<(u32, Seq<char>)>::empty());
            assert(m@.kills =~= Seq::<(u32, int)>::empty());
            assert(m@.kills_by_mean =~= Seq::<(MeansOfDeath, int)>::empty());
        }
        m
    }

    /// Bind (or rebind) a player's nickname.
    #[verifier::loop_isolation(false)]
    pub fn add_player(&mut self, id: u32, name: &'a str)
        ensures
            final(self)@ == old(self)@.add_player(id, name@),
    {
        let ghost pre = *self;
        let n = self.players.len();
        let mut i: usize = 0;
        while i < n
            invariant
                *self == pre,
                n == self.players@.len(),
                i <= n,
                forall|k: int| 0 <= k < i ==> (#[trigger] self.players@[k]).0 != id,
            decreases n - i,
        {
            if self.players[i].0 == id {
                self.players[i] = (id, name);
                proof {
                    lemma_assoc_find_is(pre@.players, id, i as int);
                    assert(self@.players =~= pre@.players.update(i as int, (id, name@)));
                    assert(self@.kills =~= pre@.kills);
                    assert(self@.kills_by_mean =~= pre@.kills_by_mean);
                }
                return ;
            }
            i += 1;
        }
        self.players.push((id, name));
        proof {
            assert(!assoc_has(pre@.players, id)) by {
                if assoc_has(pre@.players, id) {
                    let w = choose|k: int|
                        0 <= k < pre@.players.len() && pre@.players[k].0 == id;
                }
            }
            assert(self@.players =~= pre@.players.push((id, name@)));
            assert(self@.kills =~= pre@.kills);
            assert(self@.kills_by_mean =~= pre@.kills_by_mean);
        }
    }

    /// Credit one kill to a killer's net delta.
    #[verifier::loop_isolation(false)]
    pub fn killed(&mut self, killer: u32)
        requires
            assoc_get_or(old(self)@.kills, killer, 0) < i64::MAX,
        ensures
            final(self)@ == old(self)@.killed(killer),
    {
        let ghost pre = *self;
        let n = self.kills.len();
        let mut i: usize = 0;
        while i < n
            invariant
                *self == pre,
                n == self.kills@.len(),
                i <= n,
                forall|k: int| 0 <= k < i ==> (#[trigger] self.kills@[k]).0 != killer,
            decreases n - i,
        {
            if self.kills[i].0 == killer {
                proof {
                    lemma_assoc_find_is(pre@.kills, killer, i as int);
                }
                let v = self.kills[i].1;
                assert(v as int == assoc_get_or(pre@.kills, killer, 0));
                self.kills[i] = (killer, v + 1);
                proof {
                    assert(self@.kills =~= pre@.kills.update(i as int, (killer, (v + 1) as int)));
                    assert(self@.players =~= pre@.players);
                    assert(self@.kills_by_mean =~= pre@.kills_by_mean);
                }
                return ;
            }
            i += 1;
        }
        self.kills.push((killer, 1));
        proof {
            assert(!assoc_has(pre@.kills, killer)) by {
                if assoc_has(pre@.kills, killer) {
                    let w = choose|k: int| 0 <= k < pre@.kills.len() && pre@.kills[k].0 == killer;
                }
            }
            assert(self@.kills =~= pre@.kills.push((killer, 1int)));
            assert(self@.players =~= pre@.players);
            assert(self@.kills_by_mean =~= pre@.kills_by_mean);
        }
    }

    /// Debit one kill from a victim killed by the world.
    #[verifier::loop_isolation(false)]
    pub fn killed_by_world(&mut self, victim: u32)
        requires
            assoc_get_or(old(self)@.kills, victim, 0) > i64::MIN,
        ensures
            final(self)@ == old(self)@.killed_by_world(victim),
    {
        let ghost pre = *self;
        let n = self.kills.len();
        let mut i: usize = 0;
        while i < n
            invariant
                *self == pre,
                n == self.kills@.len(),
                i <= n,
                forall|k: int| 0 <= k < i ==> (#[trigger] self.kills@[k]).0 != victim,
            decreases n - i,
        {
            if self.kills[i].0 == victim {
                proof {
                    lemma_assoc_find_is(pre@.kills, victim, i as int);
                }
                let v = self.kills[i].1;
                assert(v as int == assoc_get_or(pre@.kills, victim, 0));
                self.kills[i] = (victim, v - 1);
                proof {
                    assert(self@.kills =~= pre@.kills.update(i as int, (victim, (v - 1) as int)));
                    assert(self@.players =~= pre@.players);
                    assert(self@.kills_by_mean =~= pre@.kills_by_mean);
                }
                return ;
            }
            i += 1;
        }
        self.kills.push((victim, -1));
        proof {
            assert(!assoc_has(pre@.kills, victim)) by {
                if assoc_has(pre@.kills, victim) {
                    let w = choose|k: int| 0 <= k < pre@.kills.len() && pre@.kills[k].0 == victim;
                }
            }
            assert(self@.kills =~= pre@.kills.push((victim, -1int)));
            assert(self@.players =~= pre@.players);
            assert(self@.kills_by_mean =~= pre@.kills_by_mean);
        }
    }

    /// Count one kill under its cause, and in the match total.
    #[verifier::loop_isolation(false)]
    pub fn kill_by_mean(&mut self, mean: MeansOfDeath)
        requires
            old(self)@.total < u64::MAX,
            assoc_get_or(old(self)@.kills_by_mean, mean, 0) < i64::MAX,
        ensures
            final(self)@ == old(self)@.kill_by_mean(mean),
    {
        let ghost pre = *self;
        self.total = self.total + 1;
        let n = self.kill_by_mean.len();
        let mut i: usize = 0;
        while i < n
            invariant
                self.total == pre.total + 1,
                self.players@ == pre.players@,
                self.kills@ == pre.kills@,
                self.kill_by_mean@ == pre.kill_by_mean@,
                n == self.kill_by_mean@.len(),
                i <= n,
                forall|k: int| 0 <= k < i ==> (#[trigger] self.kill_by_mean@[k]).0 != mean,
            decreases n - i,
        {
            if self.kill_by_mean[i].0 == mean {
                proof {
                    lemma_assoc_find_is(pre@.kills_by_mean, mean, i as int);
                }
                let v = self.kill_by_mean[i].1;
                assert(v as int == assoc_get_or(pre@.kills_by_mean, mean, 0));
                self.kill_by_mean[i] = (mean, v + 1);
                proof {
                    assert(self@.kills_by_mean =~= pre@.kills_by_mean.update(
                        i as int,
                        (mean, (v + 1) as int),
                    ));
                    assert(self@.players =~= pre@.players);
                    assert(self@.kills =~= pre@.kills);
                }
                return ;
            }
            i += 1;
        }
        self.kill_by_mean.push((mean, 1));
        proof {
            assert(!assoc_has(pre@.kills_by_mean, mean)) by {
                if assoc_has(pre@.kills_by_mean, mean) {
                    let w = choose|k: int|
                        0 <= k < pre@.kills_by_mean.len() && pre@.kills_by_mean[k].0 == mean;
                }
            }
            assert(self@.kills_by_mean =~= pre@.kills_by_mean.push((mean, 1int)));
            assert(self@.players =~= pre@.players);
            assert(self@.kills =~= pre@.kills);
        }
    }
}

impl<'a> Match<'a> {
    /// The latest nickname bound to a player id, if any: the recoverable
    /// answer to a name lookup at report time.
    #[verifier::loop_isolation(false)]
    pub fn player_name(&self, id: u32) -> (r: Option<&'a str>)
        ensures
            match r {
                Some(n) => assoc_has(self@.players, id) && n@ == assoc_get_or(
                    self@.players,
                    id,
                    Seq::empty(),
                ),
                None => !assoc_has(self@.players, id),
            },
    {
        let n = self.players.len();
        let mut i: usize = 0;
        while i < n
            invariant
                i <= n,
                forall|k: int| 0 <= k < i ==> (#[trigger] self.players@[k]).0 != id,
            decreases n - i,
        {
            if self.players[i].0 == id {
                proof {
                    lemma_assoc_find_is(self@.players, id, i as int);
                }
                return Some(self.players[i].1);
            }
            i += 1;
        }
        proof {
            assert(!assoc_has(self@.players, id)) by {
                if assoc_has(self@.players, id) {
                    let w = choose|k: int|
                        0 <= k < self@.players.len() && self@.players[k].0 == id;
                }
            }
        }
        None
    }
}

impl Default for Match<'_> {
    fn default() -> (m: Self)
        ensures
            m@ == SpecMatch::empty(),
    {
        Match::new()
    }
}

/// Characters that belong to the current line.
pub open spec fn line_pred() -> spec_fn(char) -> bool {
    |c: char| c != '\n'
}

/// A line with a trailing carriage return loses it before parsing.
pub open spec fn strip_cr(l: Seq<char>) -> Seq<char> {
    if l.len() > 0 && l.last() == '\r' {
        l.drop_last()
    } else {
        l
    }
}

/// The events of a whole log text: the text is cut at every newline, each
/// piece loses a trailing carriage return, and the pieces that parse
/// contribute their event, in input order.
pub open spec fn spec_line_events(s: Seq<char>) -> Seq<SpecEvent>
    decreases s.len(),
{
    if s.len() == 0 {
        Seq::empty()
    } else {
        let e = run_end(s, 0, line_pred());
        if 0 <= e && e < s.len() {
            let line = s.subrange(0, e);
            let rest = s.subrange(e + 1, s.len() as int);
            match spec_parse_line(strip_cr(line), 0) {
                Some(ev) => seq![ev] + spec_line_events(rest),
                None => spec_line_events(rest),
            }
        } else {
            match spec_parse_line(strip_cr(s), 0) {
                Some(ev) => seq![ev],
                None => Seq::empty(),
            }
        }
    }
}

/// The completed matches of a whole log text.
pub open spec fn spec_parse_matches(s: Seq<char>) -> Seq<SpecMatch> {
    spec_matches(spec_line_events(s))
}

/// The accumulator stays bounded by the number of events folded so far:
/// the total by the event count, and every per-key tally by the total.
pub proof fn lemma_aggregate_bounds(es: Seq<SpecEvent>)
    ensures
        0 <= spec_aggregate(es).1.total <= es.len(),
        forall|id: u32|
            -spec_aggregate(es).1.total <= #[trigger] assoc_get_or(
                spec_aggregate(es).1.kills,
                id,
                0,
            ) <= spec_aggregate(es).1.total,
        forall|m: MeansOfDeath|
            0 <= #[trigger] assoc_get_or(spec_aggregate(es).1.kills_by_mean, m, 0)
                <= spec_aggregate(es).1.total,
    decreases es.len(),
{
    if es.len() > 0 {
        lemma_aggregate_bounds(es.drop_last());
        let cur0 = spec_aggregate(es.drop_last()).1;
        let cur = spec_aggregate(es).1;
        match es.last().kind {
            SpecEventKind::Kill(k) => {
                assert forall|m: MeansOfDeath|
                    0 <= #[trigger] assoc_get_or(cur.kills_by_mean, m, 0) <= cur.total by {
                    lemma_assoc_bump_get(cur0.kills_by_mean, k.mean, 1, m);
                }
                let key = if k.killer == WORLD_ID {
                    k.victim
                } else {
                    k.killer
                };
                let d: int = if k.killer == WORLD_ID {
                    -1
                } else {
                    1
                };
                assert forall|id: u32|
                    -cur.total <= #[trigger] assoc_get_or(cur.kills, id, 0) <= cur.total by {
                    lemma_assoc_bump_get(cur0.kills, key, d, id);
                }
            },
            _ => {},
        }
    }
}

/// One aggregation step, phrased over `push`: a `ShutdownGame` completes
/// the accumulator, anything else folds into it.
pub proof fn lemma_aggregate_push(es: Seq<SpecEvent>, ev: SpecEvent)
    ensures
        spec_aggregate(es.push(ev)) == (if ev.kind is ShutdownGame {
            (spec_aggregate(es).0.push(spec_aggregate(es).1), SpecMatch::empty())
        } else {
            (spec_aggregate(es).0, spec_aggregate(es).1.step(ev.kind))
        }),
{
    assert(es.push(ev).drop_last() =~= es);
    assert(es.push(ev).last() == ev);
}

/// Unrolling [`spec_line_events`] one line at a time, positionally: the
/// events of the text from `pos` are the first line's contribution followed
/// by the events of the text after that line's newline.
pub proof fn lemma_line_events_step(s: Seq<char>, pos: int)
    requires
        0 <= pos < s.len(),
    ensures
        pos <= run_end(s, pos, line_pred()) <= s.len(),
        ({
            let e = run_end(s, pos, line_pred());
            let next = if e < s.len() {
                e + 1
            } else {
                e
            };
            spec_line_events(s.subrange(pos, s.len() as int)) == match spec_parse_line(
                strip_cr(s.subrange(pos, e)),
                0,
            ) {
                Some(ev) => seq![ev] + spec_line_events(s.subrange(next, s.len() as int)),
                None => spec_line_events(s.subrange(next, s.len() as int)),
            }
        }),
{
    lemma_run_end_bounds(s, pos, line_pred());
    lemma_run_end_shift(s, pos, line_pred());
    let suffix = s.subrange(pos, s.len() as int);
    let e = run_end(s, pos, line_pred());
    assert(run_end(suffix, 0, line_pred()) == e - pos);
    if e < s.len() {
        assert(suffix.subrange(0, e - pos) =~= s.subrange(pos, e));
        assert(suffix.subrange(e - pos + 1, suffix.len() as int) =~= s.subrange(
            e + 1,
            s.len() as int,
        ));
    } else {
        assert(suffix =~= s.subrange(pos, e));
        assert(s.subrange(e, s.len() as int) =~= Seq::<char>::empty());
        if let Some(ev) = spec_parse_line(strip_cr(suffix), 0) {
            assert(seq![ev] + spec_line_events(Seq::<char>::empty()) =~= seq![ev]);
        }
    }
}

/// Parse every line of a log text and fold the events into completed
/// matches: exactly one match per `ShutdownGame`, in input order, with
/// whatever accumulated after the last `ShutdownGame` discarded.
#[verifier::loop_isolation(false)]
#[verifier::rlimit(100)]
pub fn parse_matches<'a>(input: &'a str) -> (r: Vec<Match<'a>>)
    ensures
        r@.len() == spec_parse_matches(input@).len(),
        forall|i: int| 0 <= i < r@.len() ==> #[trigger] r@[i]@ == spec_parse_matches(input@)[i],
{
    let len = input.unicode_len();
    let ghost s = input@;
    let mut matches: Vec<Match<'a>> = Vec::new();
    let mut current = Match::new();
    let mut pos: usize = 0;
    let ghost mut events: Seq<SpecEvent> = Seq::empty();
    proof {
        assert(s.subrange(0, len as int) =~= s);
        assert(Seq::<SpecEvent>::empty() + spec_line_events(s) =~= spec_line_events(s));
    }
    while pos < len
        invariant
            pos <= len,
            3 * events.len() <= pos,
            spec_line_events(s) == events + spec_line_events(
                s.subrange(pos as int, len as int),
            ),
            current@ == spec_aggregate(events).1,
            matches@.len() == spec_aggregate(events).0.len(),
            forall|i: int|
                0 <= i < matches@.len() ==> #[trigger] matches@[i]@ == spec_aggregate(
                    events,
                ).0[i],
        decreases len - pos,
    {
        let mut e: usize = pos;
        #[verifier::loop_isolation(true)]
        loop
            invariant
                input@ == s,
                len == s.len(),
                pos <= e <= len,
                run_end(s, pos as int, line_pred()) == run_end(s, e as int, line_pred()),
            ensures
                pos <= e <= len,
                e as int == run_end(s, pos as int, line_pred()),
            decreases len - e,
        {
            if e < len {
                if input.get_char(e) != '\n' {
                    e += 1;
                } else {
                    break ;
                }
            } else {
                break ;
            }
        }
        let mut line_end = e;
        if line_end > pos && input.get_char(line_end - 1) == '\r' {
            line_end -= 1;
        }
        let line = input.substring_char(pos, line_end);
        proof {
            assert(line@ =~= strip_cr(s.subrange(pos as int, e as int)));
        }
        let ev = crate::parser::parse(line);
        let ghost next_pos: int = if e < len {
            e + 1
        } else {
            e as int
        };
        proof {
            lemma_line_events_step(s, pos as int);
        }
        let ghost tail = spec_line_events(s.subrange(next_pos, len as int));
        match ev {
            Some(event) => {
                let ghost ev_v = event@;
                proof {
                    lemma_parsed_line_min_len(line@);
                    lemma_aggregate_bounds(events);
                    lemma_aggregate_push(events, ev_v);
                    assert((events + seq![ev_v]) + tail =~= events + (seq![ev_v] + tail));
                    assert(events + seq![ev_v] =~= events.push(ev_v));
                }
                match event.kind {
                    EventKind::ClientUserInfoChanged(user) => {
                        current.add_player(user.id, user.nickname);
                    },
                    EventKind::Kill(kill) => {
                        current.kill_by_mean(kill.mean);
                        if kill.killer == WORLD_ID {
                            current.killed_by_world(kill.victim);
                        } else {
                            current.killed(kill.killer);
                        }
                    },
                    EventKind::ShutdownGame => {
                        matches.push(current);
                        current = Match::new();
                    },
                    EventKind::InitGame => {},
                    EventKind::Irrelevant => {},
                }
                proof {
                    events = events.push(ev_v);
                }
            },
            None => {},
        }
        pos = if e < len {
            e + 1
        } else {
            e
        };
    }
    proof {
        assert(s.subrange(len as int, len as int) =~= Seq::<char>::empty());
        assert(events + Seq::<SpecEvent>::empty() =~= events);
    }
    matches
}

} // verus!
