//! The library's laws: proved statements that tie the parser's and the
//! aggregator's contracts together, over all inputs they speak of.

use vstd::prelude::*;

use crate::aggregate::{
    assoc_get_or, assoc_has, lemma_aggregate_push, lemma_assoc_bump_get, spec_aggregate,
    spec_matches, SpecMatch,
};
use crate::events::{
    Kill, MeansOfDeath, SpecClientUserInfoChanged, SpecEvent, SpecEventKind,
};
use crate::parser::{
    alpha_pred, dec_value, digit_pred, digit_val, is_digit_char, lemma_run_end_is, nick_pred,
    run_end, space_pred, spec_number, spec_parse_line,
};
use crate::WORLD_ID;

verus! {

/// The digit character of one decimal digit value.
pub open spec fn digit_char_of(d: int) -> char {
    if d == 0 {
        '0'
    } else if d == 1 {
        '1'
    } else if d == 2 {
        '2'
    } else if d == 3 {
        '3'
    } else if d == 4 {
        '4'
    } else if d == 5 {
        '5'
    } else if d == 6 {
        '6'
    } else if d == 7 {
        '7'
    } else if d == 8 {
        '8'
    } else {
        '9'
    }
}

/// The canonical decimal rendering of a non-negative number.
pub open spec fn dec_digits(n: int) -> Seq<char>
    decreases n,
{
    if n < 10 {
        seq![digit_char_of(n)]
    } else {
        dec_digits(n / 10).push(digit_char_of(n % 10))
    }
}

/// The canonical rendering is all digits, non-empty, and reads back to the
/// number it renders.
pub proof fn lemma_dec_digits(n: int)
    requires
        0 <= n,
    ensures
        dec_digits(n).len() >= 1,
        forall|k: int| 0 <= k < dec_digits(n).len() ==> is_digit_char(#[trigger] dec_digits(n)[k]),
        dec_value(dec_digits(n)) == n,
    decreases n,
{
    if n < 10 {
        assert(seq![digit_char_of(n)].drop_last() =~= Seq::<char>::empty());
        assert(seq![digit_char_of(n)].last() == digit_char_of(n));
        assert(dec_value(Seq::<char>::empty()) == 0);
        assert(dec_value(seq![digit_char_of(n)]) == digit_val(digit_char_of(n)));
        assert(digit_val(digit_char_of(n)) == n);
    } else {
        lemma_dec_digits(n / 10);
        crate::parser::lemma_dec_value_push(dec_digits(n / 10), digit_char_of(n % 10));
        assert(dec_value(dec_digits(n)) == dec_value(dec_digits(n / 10)) * 10 + digit_val(
            digit_char_of(n % 10),
        ));
        assert(0 <= n % 10 < 10);
        assert(digit_val(digit_char_of(n % 10)) == n % 10);
        assert(n / 10 * 10 + n % 10 == n);
    }
}

/// A maximal digit run spelling `d` at position `i` parses as the number
/// `d` spells (or fails, past the whole run, if that number overflows).
pub proof fn lemma_number_at(s: Seq<char>, i: int, d: Seq<char>)
    requires
        0 <= i,
        i + d.len() <= s.len(),
        d.len() >= 1,
        forall|k: int| 0 <= k < d.len() ==> s[i + k] == #[trigger] d[k],
        forall|k: int| 0 <= k < d.len() ==> is_digit_char(#[trigger] d[k]),
        i + d.len() < s.len() ==> !is_digit_char(s[i + d.len()]),
    ensures
        run_end(s, i, digit_pred()) == i + d.len(),
        spec_number(s, i) == (if dec_value(d) <= u32::MAX {
            (Some(dec_value(d) as u32), i + d.len())
        } else {
            (None::<u32>, i + d.len())
        }),
{
    assert forall|k: int| i <= k < i + d.len() implies digit_pred()(#[trigger] s[k]) by {
        assert(s[k] == d[k - i]);
    }
    lemma_run_end_is(s, i, i + d.len(), digit_pred());
    assert(s.subrange(i, i + d.len()) =~= d);
}

/// Events that leave the accumulator untouched.
pub open spec fn is_noop_event(e: SpecEvent) -> bool {
    e.kind is InitGame || e.kind is Irrelevant
}

/// The events that do something.
pub open spec fn effective_pred() -> spec_fn(SpecEvent) -> bool {
    |e: SpecEvent| !is_noop_event(e)
}

/// `InitGame` and `Irrelevant` events are invisible to the aggregator:
/// dropping any number of them anywhere in the stream changes neither the
/// completed matches nor the in-progress accumulator.
pub proof fn lemma_noop_events_ignored(es: Seq<SpecEvent>)
    ensures
        spec_aggregate(es.filter(effective_pred())).0 == spec_aggregate(es).0,
        spec_aggregate(es.filter(effective_pred())).1 == spec_aggregate(es).1,
    decreases es.len(),
{
    reveal_with_fuel(Seq::filter, 2);
    if es.len() > 0 {
        lemma_noop_events_ignored(es.drop_last());
        let e = es.last();
        if is_noop_event(e) {
            assert(es.filter(effective_pred()) == es.drop_last().filter(effective_pred()));
        } else {
            assert(es.filter(effective_pred()) == es.drop_last().filter(effective_pred()).push(
                e,
            ));
            lemma_aggregate_push(es.drop_last().filter(effective_pred()), e);
        }
    }
}

/// The world-kill rule: a kill by the reserved world id counts toward the
/// total and the cause bucket, debits the victim's net delta, and gives the
/// world id itself no entry.
pub proof fn lemma_world_kill(m: SpecMatch, victim: u32, mean: MeansOfDeath)
    requires
        victim != WORLD_ID,
    ensures
        ({
            let m2 = m.step(
                SpecEventKind::Kill(Kill { victim, killer: WORLD_ID, mean }),
            );
            &&& m2.total == m.total + 1
            &&& assoc_get_or(m2.kills_by_mean, mean, 0) == assoc_get_or(
                m.kills_by_mean,
                mean,
                0,
            ) + 1
            &&& assoc_get_or(m2.kills, victim, 0) == assoc_get_or(m.kills, victim, 0) - 1
            &&& assoc_has(m2.kills, WORLD_ID) == assoc_has(m.kills, WORLD_ID)
            &&& m2.players == m.players
        }),
{
    lemma_assoc_bump_get(m.kills_by_mean, mean, 1, mean);
    lemma_assoc_bump_get(m.kills, victim, -1, victim);
    lemma_assoc_bump_get(m.kills, victim, -1, WORLD_ID);
}

/// Match segmentation: two matches, each holding one kill and closed by its
/// own `ShutdownGame`, come out as exactly two completed matches with one
/// kill apiece, in input order.
pub proof fn lemma_match_segmentation(
    d: (u32, u32),
    a: u32,
    b: u32,
    m1: MeansOfDeath,
    m2: MeansOfDeath,
)
    ensures
        ({
            let es = seq![
                SpecEvent { date: d, kind: SpecEventKind::InitGame },
                SpecEvent { date: d, kind: SpecEventKind::Kill(Kill { victim: b, killer: a, mean: m1 }) },
                SpecEvent { date: d, kind: SpecEventKind::ShutdownGame },
                SpecEvent { date: d, kind: SpecEventKind::InitGame },
                SpecEvent { date: d, kind: SpecEventKind::Kill(Kill { victim: a, killer: b, mean: m2 }) },
                SpecEvent { date: d, kind: SpecEventKind::ShutdownGame },
            ];
            &&& spec_matches(es).len() == 2
            &&& spec_matches(es)[0].total == 1
            &&& spec_matches(es)[1].total == 1
        }),
{
    let e1 = SpecEvent { date: d, kind: SpecEventKind::InitGame };
    let e2 = SpecEvent {
        date: d,
        kind: SpecEventKind::Kill(Kill { victim: b, killer: a, mean: m1 }),
    };
    let e3 = SpecEvent { date: d, kind: SpecEventKind::ShutdownGame };
    let e4 = SpecEvent { date: d, kind: SpecEventKind::InitGame };
    let e5 = SpecEvent {
        date: d,
        kind: SpecEventKind::Kill(Kill { victim: a, killer: b, mean: m2 }),
    };
    let e6 = SpecEvent { date: d, kind: SpecEventKind::ShutdownGame };
    let s0 = Seq::<SpecEvent>::empty();
    let s1 = s0.push(e1);
    let s2 = s1.push(e2);
    let s3 = s2.push(e3);
    let s4 = s3.push(e4);
    let s5 = s4.push(e5);
    let s6 = s5.push(e6);
    lemma_aggregate_push(s0, e1);
    lemma_aggregate_push(s1, e2);
    lemma_aggregate_push(s2, e3);
    lemma_aggregate_push(s3, e4);
    lemma_aggregate_push(s4, e5);
    lemma_aggregate_push(s5, e6);
    assert(seq![e1, e2, e3, e4, e5, e6] =~= s6);
}

/// Sum of the per-cause counts of a by-cause table.
pub open spec fn cause_count_sum(s: Seq<(MeansOfDeath, int)>) -> int
    decreases s.len(),
{
    if s.len() == 0 {
        0
    } else {
        cause_count_sum(s.drop_last()) + s.last().1
    }
}

proof fn lemma_sum_update(s: Seq<(MeansOfDeath, int)>, i: int, e: (MeansOfDeath, int))
    requires
        0 <= i < s.len(),
    ensures
        cause_count_sum(s.update(i, e)) == cause_count_sum(s) - s[i].1 + e.1,
    decreases s.len(),
{
    if i == s.len() - 1 {
        assert(s.update(i, e).drop_last() =~= s.drop_last());
        assert(s.update(i, e).last() == e);
    } else {
        assert(s.update(i, e).drop_last() =~= s.drop_last().update(i, e));
        assert(s.update(i, e).last() == s.last());
        lemma_sum_update(s.drop_last(), i, e);
    }
}

proof fn lemma_sum_bump(s: Seq<(MeansOfDeath, int)>, key: MeansOfDeath, d: int)
    ensures
        cause_count_sum(crate::aggregate::assoc_bump(s, key, d)) == cause_count_sum(s) + d,
{
    if assoc_has(s, key) {
        crate::aggregate::lemma_assoc_find_props(s, key);
        let f = crate::aggregate::assoc_find(s, key);
        lemma_sum_update(s, f, (key, s[f].1 + d));
    } else {
        let s2 = s.push((key, d));
        assert(s2.drop_last() =~= s);
        assert(s2.last() == (key, d));
    }
}

/// Inside every accumulator the aggregator builds — the in-progress one and
/// each completed match — the kill total equals the sum of the per-cause
/// counts.
pub proof fn lemma_total_is_cause_sum(es: Seq<SpecEvent>)
    ensures
        spec_aggregate(es).1.total == cause_count_sum(spec_aggregate(es).1.kills_by_mean),
        forall|i: int|
            0 <= i < spec_aggregate(es).0.len() ==> (#[trigger] spec_aggregate(
                es,
            ).0[i]).total == cause_count_sum(spec_aggregate(es).0[i].kills_by_mean),
    decreases es.len(),
{
    if es.len() > 0 {
        lemma_total_is_cause_sum(es.drop_last());
        let cur0 = spec_aggregate(es.drop_last()).1;
        match es.last().kind {
            SpecEventKind::Kill(k) => {
                lemma_sum_bump(cur0.kills_by_mean, k.mean, 1);
            },
            _ => {},
        }
    }
}

/// A stream with no `ShutdownGame` completes no match at all: in
/// particular, a trailing in-progress match is discarded.
pub proof fn lemma_no_shutdown_no_matches(es: Seq<SpecEvent>)
    requires
        forall|i: int| 0 <= i < es.len() ==> !((#[trigger] es[i]).kind is ShutdownGame),
    ensures
        spec_matches(es).len() == 0,
    decreases es.len(),
{
    if es.len() > 0 {
        assert(forall|i: int|
            0 <= i < es.drop_last().len() ==> es.drop_last()[i] == es[i]);
        lemma_no_shutdown_no_matches(es.drop_last());
    }
}

/// The canonical shape of a `Kill` log line: timestamp, the `Kill` marker,
/// the three numeric fields, and an arbitrary free-text trailer.
pub open spec fn kill_line(h: u32, m: u32, k: u32, v: u32, c: u32, rest: Seq<char>) -> Seq<char> {
    "  "@ + dec_digits(h as int) + ":"@ + dec_digits(m as int) + " Kill: "@ + dec_digits(k as int)
        + " "@ + dec_digits(v as int) + " "@ + dec_digits(c as int) + ":"@ + rest
}

/// Every `Kill` line with an in-range cause ordinal parses to exactly that
/// kill, whatever the trailer says; one with an out-of-range ordinal yields
/// no event at all.
#[verifier::rlimit(100)]
#[verifier::spinoff_prover]
pub proof fn lemma_parse_kill_line(h: u32, m: u32, k: u32, v: u32, c: u32, rest: Seq<char>)
    ensures
        ({
            let s = kill_line(h, m, k, v, c, rest);
            match MeansOfDeath::spec_from_ordinal(c) {
                Some(mean) => spec_parse_line(s, 0) == Some(
                    SpecEvent {
                        date: (h, m),
                        kind: SpecEventKind::Kill(Kill { victim: v, killer: k, mean }),
                    },
                ),
                None => spec_parse_line(s, 0) is None,
            }
        }),
{
    reveal(spec_parse_line);
    reveal_strlit("  ");
    reveal_strlit(":");
    reveal_strlit(" Kill: ");
    reveal_strlit(" ");
    reveal_strlit("Kill");
    lemma_dec_digits(h as int);
    lemma_dec_digits(m as int);
    lemma_dec_digits(k as int);
    lemma_dec_digits(v as int);
    lemma_dec_digits(c as int);
    let dh = dec_digits(h as int);
    let dm = dec_digits(m as int);
    let dk = dec_digits(k as int);
    let dv = dec_digits(v as int);
    let dc = dec_digits(c as int);
    let s = kill_line(h, m, k, v, c, rest);
    let p2 = 2 + dh.len() as int;
    let p4 = p2 + 1 + dm.len();
    let p5 = p4 + 7;
    let p6 = p5 + dk.len();
    let p8 = p6 + 1 + dv.len();
    let p10 = p8 + 1 + dc.len();
    assert(s.len() == p10 + 1 + rest.len());
    assert(s[0] == ' ' && s[1] == ' ');
    assert(s.subrange(2, p2) =~= dh);
    assert(s[p2] == ':');
    assert(s.subrange(p2 + 1, p4) =~= dm);
    assert(s[p4] == ' ');
    assert(s[p4 + 1] == 'K' && s[p4 + 2] == 'i' && s[p4 + 3] == 'l' && s[p4 + 4] == 'l');
    assert(s[p4 + 5] == ':');
    assert(s[p4 + 6] == ' ');
    assert(s.subrange(p5, p6) =~= dk);
    assert(s[p6] == ' ');
    assert(s.subrange(p6 + 1, p8) =~= dv);
    assert(s[p8] == ' ');
    assert(s.subrange(p8 + 1, p10) =~= dc);
    assert(s[p10] == ':');
    // leading whitespace
    lemma_run_end_is(s, 0, 2, space_pred());
    assert(crate::parser::spec_skip_ws(s, 0) == 2);
    // hour
    assert forall|j: int| 0 <= j < dh.len() implies s[2 + j] == #[trigger] dh[j] by {
        assert(s.subrange(2, p2)[j] == s[2 + j]);
    }
    lemma_number_at(s, 2, dh);
    assert(spec_number(s, 2) == (Some(h), p2));
    // minute
    assert forall|j: int| 0 <= j < dm.len() implies s[p2 + 1 + j] == #[trigger] dm[j] by {
        assert(s.subrange(p2 + 1, p4)[j] == s[p2 + 1 + j]);
    }
    lemma_number_at(s, p2 + 1, dm);
    assert(spec_number(s, p2 + 1) == (Some(m), p4));
    assert(crate::parser::spec_parse_hour(s, 2) == (Some((h, m)), p4));
    // whitespace, then the event name run
    lemma_run_end_is(s, p4, p4 + 1, space_pred());
    lemma_run_end_is(s, p4 + 1, p4 + 5, alpha_pred());
    assert(s.subrange(p4 + 1, p4 + 5) =~= "Kill"@);
    assert(crate::parser::spec_event_name(s, p4 + 1) == ("Kill"@, p4 + 5));
    // the colon after the name, then one space before the payload
    lemma_run_end_is(s, p4 + 6, p5, space_pred());
    // killer, victim, cause
    assert forall|j: int| 0 <= j < dk.len() implies s[p5 + j] == #[trigger] dk[j] by {
        assert(s.subrange(p5, p6)[j] == s[p5 + j]);
    }
    lemma_number_at(s, p5, dk);
    assert forall|j: int| 0 <= j < dv.len() implies s[p6 + 1 + j] == #[trigger] dv[j] by {
        assert(s.subrange(p6 + 1, p8)[j] == s[p6 + 1 + j]);
    }
    lemma_number_at(s, p6 + 1, dv);
    assert forall|j: int| 0 <= j < dc.len() implies s[p8 + 1 + j] == #[trigger] dc[j] by {
        assert(s.subrange(p8 + 1, p10)[j] == s[p8 + 1 + j]);
    }
    lemma_number_at(s, p8 + 1, dc);
}

/// The canonical shape of a `ClientUserinfoChanged` log line: timestamp,
/// the marker, the client id, the nickname between the first two
/// backslashes, and the remaining userinfo pairs.
pub open spec fn client_line(h: u32, m: u32, id: u32, name: Seq<char>, rest: Seq<char>) -> Seq<
    char,
> {
    "  "@ + dec_digits(h as int) + ":"@ + dec_digits(m as int) + " ClientUserinfoChanged: "@
        + dec_digits(id as int) + " n"@ + "\\"@ + name + "\\"@ + rest
}

/// Every `ClientUserinfoChanged` line parses to that id and exactly the
/// nickname written before the first unescaped backslash; the remaining
/// key/value pairs are ignored.
#[verifier::rlimit(100)]
#[verifier::spinoff_prover]
pub proof fn lemma_parse_client_line(h: u32, m: u32, id: u32, name: Seq<char>, rest: Seq<char>)
    requires
        forall|j: int| 0 <= j < name.len() ==> #[trigger] name[j] != '\\',
    ensures
        spec_parse_line(client_line(h, m, id, name, rest), 0) == Some(
            SpecEvent {
                date: (h, m),
                kind: SpecEventKind::ClientUserInfoChanged(
                    SpecClientUserInfoChanged { id, nickname: name },
                ),
            },
        ),
{
    reveal(spec_parse_line);
    reveal_strlit("  ");
    reveal_strlit(":");
    reveal_strlit(" ClientUserinfoChanged: ");
    reveal_strlit("ClientUserinfoChanged");
    reveal_strlit("Kill");
    reveal_strlit(" n");
    reveal_strlit("\\");
    lemma_dec_digits(h as int);
    lemma_dec_digits(m as int);
    lemma_dec_digits(id as int);
    let dh = dec_digits(h as int);
    let dm = dec_digits(m as int);
    let di = dec_digits(id as int);
    let s = client_line(h, m, id, name, rest);
    let p2 = 2 + dh.len() as int;
    let p4 = p2 + 1 + dm.len();
    let p5 = p4 + 24;
    let p6 = p5 + di.len();
    let p7 = p6 + 3;
    assert(s.len() == p7 + name.len() + 1 + rest.len());
    assert(s[0] == ' ' && s[1] == ' ');
    assert(s.subrange(2, p2) =~= dh);
    assert(s[p2] == ':');
    assert(s.subrange(p2 + 1, p4) =~= dm);
    assert(s[p4] == ' ');
    assert(s.subrange(p4 + 1, p4 + 22) =~= "ClientUserinfoChanged"@);
    assert(s[p4 + 22] == ':');
    assert(s[p4 + 23] == ' ');
    assert(s.subrange(p5, p6) =~= di);
    assert(s[p6] == ' ');
    assert(s[p6 + 1] == 'n');
    assert(s[p6 + 2] == '\\');
    assert(s.subrange(p7, p7 + name.len()) =~= name);
    assert(s[p7 + name.len()] == '\\');
    // leading whitespace, then the timestamp
    lemma_run_end_is(s, 0, 2, space_pred());
    assert forall|j: int| 0 <= j < dh.len() implies s[2 + j] == #[trigger] dh[j] by {
        assert(s.subrange(2, p2)[j] == s[2 + j]);
    }
    lemma_number_at(s, 2, dh);
    assert(spec_number(s, 2) == (Some(h), p2));
    assert forall|j: int| 0 <= j < dm.len() implies s[p2 + 1 + j] == #[trigger] dm[j] by {
        assert(s.subrange(p2 + 1, p4)[j] == s[p2 + 1 + j]);
    }
    lemma_number_at(s, p2 + 1, dm);
    assert(crate::parser::spec_parse_hour(s, 2) == (Some((h, m)), p4));
    // whitespace, then the event name run and its colon
    lemma_run_end_is(s, p4, p4 + 1, space_pred());
    assert forall|j: int| p4 + 1 <= j < p4 + 22 implies alpha_pred()(#[trigger] s[j]) by {
        assert(s[j] == "ClientUserinfoChanged"@[j - (p4 + 1)]);
    }
    lemma_run_end_is(s, p4 + 1, p4 + 22, alpha_pred());
    assert(crate::parser::spec_event_name(s, p4 + 1) == ("ClientUserinfoChanged"@, p4 + 22));
    assert("ClientUserinfoChanged"@ != "Kill"@);
    // whitespace before the payload, then the payload itself
    lemma_run_end_is(s, p4 + 23, p5, space_pred());
    lemma_run_end_is(s, p5, p5, space_pred());
    assert forall|j: int| 0 <= j < di.len() implies s[p5 + j] == #[trigger] di[j] by {
        assert(s.subrange(p5, p6)[j] == s[p5 + j]);
    }
    lemma_number_at(s, p5, di);
    assert(spec_number(s, p5) == (Some(id), p6));
    lemma_run_end_is(s, p6, p6 + 1, space_pred());
    // nickname: everything up to the next backslash
    assert forall|j: int| p7 <= j < p7 + name.len() implies nick_pred()(#[trigger] s[j]) by {
        assert(s[j] == name[j - p7]);
    }
    lemma_run_end_is(s, p7, p7 + name.len(), nick_pred());
    assert(crate::parser::spec_parse_client(s, p4 + 24).0 == Some((id, name)));
}

} // verus!
