//! A zero-copy recursive-descent parser for one line of a Quake-style log.
//!
//! The grammar is stated mathematically by the `spec_*` functions over
//! `Seq<char>`; the executable [`Parser`] walks a single forward cursor over
//! the line and is proved to return exactly what the specification says.

use vstd::prelude::*;

use crate::events::{ClientUserInfoChanged, Event, EventKind, Kill, MeansOfDeath, SpecClientUserInfoChanged, SpecEvent, SpecEventKind};
use vstd::string::StrSliceExecFns;

verus! {

/// The whitespace the parser tolerates between tokens (ASCII whitespace).
pub open spec fn is_space_char(c: char) -> bool {
    c == ' ' || c == '\t' || c == '\n' || c == '\r' || c == '\u{b}' || c == '\u{c}'
}

/// An ASCII decimal digit.
pub open spec fn is_digit_char(c: char) -> bool {
    '0' <= c && c <= '9'
}

/// An ASCII letter; event names are maximal runs of these.
pub open spec fn is_alpha_char(c: char) -> bool {
    ('a' <= c && c <= 'z') || ('A' <= c && c <= 'Z')
}

/// The numeric value of a digit character.
pub open spec fn digit_val(c: char) -> int {
    c as int - '0' as int
}

/// First position at or after `i` whose character fails `pred`
/// (or the end of `s`); the end of the maximal run of `pred`-characters.
pub open spec fn run_end(s: Seq<char>, i: int, pred: spec_fn(char) -> bool) -> int
    decreases s.len() - i,
{
    if 0 <= i && i < s.len() && pred(s[i]) {
        run_end(s, i + 1, pred)
    } else {
        i
    }
}

pub open spec fn space_pred() -> spec_fn(char) -> bool {
    |c: char| is_space_char(c)
}

pub open spec fn digit_pred() -> spec_fn(char) -> bool {
    |c: char| is_digit_char(c)
}

pub open spec fn alpha_pred() -> spec_fn(char) -> bool {
    |c: char| is_alpha_char(c)
}

/// Nicknames run up to (not including) the next backslash.
pub open spec fn nick_pred() -> spec_fn(char) -> bool {
    |c: char| c != '\\'
}

/// `run_end` stays within `[i, s.len()]`, every character of the run
/// satisfies the predicate, and the run is maximal.
pub proof fn lemma_run_end_bounds(s: Seq<char>, i: int, pred: spec_fn(char) -> bool)
    requires
        0 <= i <= s.len(),
    ensures
        i <= run_end(s, i, pred) <= s.len(),
        forall|k: int| i <= k < run_end(s, i, pred) ==> pred(#[trigger] s[k]),
        run_end(s, i, pred) < s.len() ==> !pred(s[run_end(s, i, pred)]),
    decreases s.len() - i,
{
    if i < s.len() && pred(s[i]) {
        lemma_run_end_bounds(s, i + 1, pred);
    }
}

/// A maximal run of `pred`-characters from `i` to `j` pins `run_end` to `j`.
pub proof fn lemma_run_end_is(s: Seq<char>, i: int, j: int, pred: spec_fn(char) -> bool)
    requires
        0 <= i <= j <= s.len(),
        forall|k: int| i <= k < j ==> pred(#[trigger] s[k]),
        j < s.len() ==> !pred(s[j]),
    ensures
        run_end(s, i, pred) == j,
    decreases j - i,
{
    if i < j {
        lemma_run_end_is(s, i + 1, j, pred);
    }
}

/// Runs are position-shift invariant: the run of a suffix is the run of the
/// whole, relocated.
pub proof fn lemma_run_end_shift(s: Seq<char>, i: int, pred: spec_fn(char) -> bool)
    requires
        0 <= i <= s.len(),
    ensures
        run_end(s.subrange(i, s.len() as int), 0, pred) == run_end(s, i, pred) - i,
{
    let t = s.subrange(i, s.len() as int);
    let re = run_end(s, i, pred);
    lemma_run_end_bounds(s, i, pred);
    assert forall|k: int| 0 <= k < re - i implies pred(#[trigger] t[k]) by {
        assert(t[k] == s[i + k]);
    }
    if re - i < t.len() {
        assert(t[re - i] == s[re]);
    }
    lemma_run_end_is(t, 0, re - i, pred);
}

/// The value of a sequence of decimal digits, most significant first.
pub open spec fn dec_value(s: Seq<char>) -> int
    decreases s.len(),
{
    if s.len() == 0 {
        0
    } else {
        dec_value(s.drop_last()) * 10 + digit_val(s.last())
    }
}

/// Appending one digit multiplies the value by ten and adds the digit.
pub proof fn lemma_dec_value_push(s: Seq<char>, c: char)
    ensures
        dec_value(s.push(c)) == dec_value(s) * 10 + digit_val(c),
{
    assert(s.push(c).drop_last() =~= s);
    assert(s.push(c).last() == c);
}

/// Where whitespace skipping from `i` stops.
pub open spec fn spec_skip_ws(s: Seq<char>, i: int) -> int {
    run_end(s, i, space_pred())
}

/// Parsing an unsigned number at `i`: the cursor always moves to the end of
/// the digit run; the value comes out only if the run is non-empty and fits.
pub open spec fn spec_number(s: Seq<char>, i: int) -> (Option<u32>, int) {
    let j = run_end(s, i, digit_pred());
    if j == i {
        (None::<u32>, j)
    } else {
        let v = dec_value(s.subrange(i, j));
        if v <= u32::MAX {
            (Some(v as u32), j)
        } else {
            (None::<u32>, j)
        }
    }
}

/// Consuming one expected character at `i`.
pub open spec fn spec_expect(s: Seq<char>, i: int, c: char) -> (Option<char>, int) {
    if 0 <= i && i < s.len() && s[i] == c {
        (Some(c), i + 1)
    } else {
        (None::<char>, i)
    }
}

/// The `hour:minute` timestamp at `i`.
pub open spec fn spec_parse_hour(s: Seq<char>, i: int) -> (Option<(u32, u32)>, int) {
    let (h, i1) = spec_number(s, i);
    match h {
        None => (None::<(u32, u32)>, i1),
        Some(hh) => {
            let (col, i2) = spec_expect(s, i1, ':');
            match col {
                None => (None::<(u32, u32)>, i2),
                Some(_) => {
                    let (m, i3) = spec_number(s, i2);
                    match m {
                        None => (None::<(u32, u32)>, i3),
                        Some(mm) => (Some((hh, mm)), i3),
                    }
                }
            }
        },
    }
}

/// The event name at `i`: the maximal run of ASCII letters.
pub open spec fn spec_event_name(s: Seq<char>, i: int) -> (Seq<char>, int) {
    let j = run_end(s, i, alpha_pred());
    (s.subrange(i, j), j)
}

/// The `killer victim cause:` payload of a `Kill` line.
pub open spec fn spec_parse_kill(s: Seq<char>, i: int) -> (Option<Kill>, int) {
    let (k, i1) = spec_number(s, i);
    match k {
        None => (None::<Kill>, i1),
        Some(killer) => {
            let (sp1, i2) = spec_expect(s, i1, ' ');
            match sp1 {
                None => (None::<Kill>, i2),
                Some(_) => {
                    let (v, i3) = spec_number(s, i2);
                    match v {
                        None => (None::<Kill>, i3),
                        Some(victim) => {
                            let (sp2, i4) = spec_expect(s, i3, ' ');
                            match sp2 {
                                None => (None::<Kill>, i4),
                                Some(_) => {
                                    let (c, i5) = spec_number(s, i4);
                                    match c {
                                        None => (None::<Kill>, i5),
                                        Some(ord) => {
                                            let (col, i6) = spec_expect(s, i5, ':');
                                            match col {
                                                None => (None::<Kill>, i6),
                                                Some(_) => match MeansOfDeath::spec_from_ordinal(
                                                    ord,
                                                ) {
                                                    None => (None::<Kill>, i6),
                                                    Some(mean) => (
                                                        Some(Kill { victim, killer, mean }),
                                                        i6,
                                                    ),
                                                },
                                            }
                                        },
                                    }
                                },
                            }
                        },
                    }
                },
            }
        },
    }
}

/// The `id n\nickname\...` payload of a `ClientUserinfoChanged` line.
/// The single `n` and `\` are consumed leniently: their absence does not
/// fail the line.
pub open spec fn spec_parse_client(s: Seq<char>, i: int) -> (Option<(u32, Seq<char>)>, int) {
    let i1 = spec_skip_ws(s, i);
    let (id, i2) = spec_number(s, i1);
    match id {
        None => (None::<(u32, Seq<char>)>, i2),
        Some(idv) => {
            let i3 = spec_skip_ws(s, i2);
            let (_n, i4) = spec_expect(s, i3, 'n');
            let (_b, i5) = spec_expect(s, i4, '\\');
            let j = run_end(s, i5, nick_pred());
            (Some((idv, s.subrange(i5, j))), j)
        },
    }
}

/// What parsing one whole line starting at `i` yields: `Some` event, or
/// `None` for a line the grammar rejects.
#[verifier::opaque]
pub open spec fn spec_parse_line(s: Seq<char>, i: int) -> Option<SpecEvent> {
    let i1 = spec_skip_ws(s, i);
    let (date, i2) = spec_parse_hour(s, i1);
    match date {
        None => None::<SpecEvent>,
        Some(d) => {
            let i3 = spec_skip_ws(s, i2);
            let (name, i4) = spec_event_name(s, i3);
            let (col, i5) = spec_expect(s, i4, ':');
            if name.len() == 0 || col is None {
                None::<SpecEvent>
            } else {
                let i6 = spec_skip_ws(s, i5);
                if name == "Kill"@ {
                    match spec_parse_kill(s, i6).0 {
                        None => None::<SpecEvent>,
                        Some(k) => Some(SpecEvent { date: d, kind: SpecEventKind::Kill(k) }),
                    }
                } else if name == "ClientUserinfoChanged"@ {
                    match spec_parse_client(s, i6).0 {
                        None => None::<SpecEvent>,
                        Some(p) => Some(
                            SpecEvent {
                                date: d,
                                kind: SpecEventKind::ClientUserInfoChanged(
                                    SpecClientUserInfoChanged { id: p.0, nickname: p.1 },
                                ),
                            },
                        ),
                    }
                } else if name == "InitGame"@ {
                    Some(SpecEvent { date: d, kind: SpecEventKind::InitGame })
                } else if name == "ShutdownGame"@ {
                    Some(SpecEvent { date: d, kind: SpecEventKind::ShutdownGame })
                } else {
                    Some(SpecEvent { date: d, kind: SpecEventKind::Irrelevant })
                }
            }
        },
    }
}

/// Any line the grammar accepts holds at least a timestamp, so it is at
/// least three characters long.
pub proof fn lemma_parsed_line_min_len(s: Seq<char>)
    requires
        spec_parse_line(s, 0) is Some,
    ensures
        s.len() >= 3,
{
    reveal(spec_parse_line);
    let i1 = spec_skip_ws(s, 0);
    lemma_run_end_bounds(s, 0, space_pred());
    assert(spec_parse_hour(s, i1).0 is Some);
    let j1 = run_end(s, i1, digit_pred());
    lemma_run_end_bounds(s, i1, digit_pred());
    assert(spec_number(s, i1).0 is Some);
    assert(j1 > i1);
    assert(spec_expect(s, j1, ':').0 is Some);
    assert(j1 < s.len());
    let i2 = j1 + 1;
    let j2 = run_end(s, i2, digit_pred());
    lemma_run_end_bounds(s, i2, digit_pred());
    assert(spec_number(s, i2).0 is Some);
    assert(j2 > i2);
    assert(j2 <= s.len());
}

/// Executable test for [`is_space_char`].
fn space_char(c: char) -> (b: bool)
    ensures
        b == is_space_char(c),
{
    c == ' ' || c == '\t' || c == '\n' || c == '\r' || c == '\u{b}' || c == '\u{c}'
}

/// Executable test for [`is_digit_char`].
fn digit_char(c: char) -> (b: bool)
    ensures
        b == is_digit_char(c),
{
    '0' <= c && c <= '9'
}

/// Executable test for [`is_alpha_char`].
fn alpha_char(c: char) -> (b: bool)
    ensures
        b == is_alpha_char(c),
{
    ('a' <= c && c <= 'z') || ('A' <= c && c <= 'Z')
}

/// Character-wise string equality, proved to decide view equality.
fn str_eq(a: &str, b: &str) -> (r: bool)
    ensures
        r == (a@ == b@),
{
    let alen = a.unicode_len();
    let blen = b.unicode_len();
    if alen != blen {
        return false;
    }
    let mut i: usize = 0;
    while i < alen
        invariant
            i <= alen,
            alen as int == a@.len(),
            alen as int == b@.len(),
            forall|k: int| 0 <= k < i ==> a@[k] == b@[k],
        decreases alen - i,
    {
        if a.get_char(i) != b.get_char(i) {
            return false;
        }
        i += 1;
    }
    proof {
        assert(a@ =~= b@);
    }
    true
}

/// A forward cursor over one log line. `position` counts characters of the
/// view, so the cursor's progress is stated directly over `Seq<char>`.
pub struct Parser<'a> {
    input: &'a str,
    len: usize,
    position: usize,
}

impl<'a> Parser<'a> {
    /// The characters of the line under the cursor.
    pub closed spec fn src(&self) -> Seq<char> {
        self.input@
    }

    /// The cursor, as a character index into [`Parser::src`].
    pub closed spec fn pos(&self) -> int {
        self.position as int
    }

    /// The cursor never leaves the line.
    pub closed spec fn wf(&self) -> bool {
        self.position <= self.input@.len() && self.len == self.input@.len()
    }

    pub fn new(input: &'a str) -> (p: Self)
        ensures
            p.wf(),
            p.src() == input@,
            p.pos() == 0,
    {
            let len = input.unicode_len();
        Parser { input, len, position: 0 }
    }

    /// The character under the cursor, if any, without advancing.
    pub fn peek(&self) -> (r: Option<char>)
        requires
            self.wf(),
        ensures
            r == (if self.pos() < self.src().len() {
                Some(self.src()[self.pos()])
            } else {
                None::<char>
            }),
    {
            if self.position < self.len {
            Some(self.input.get_char(self.position))
        } else {
            None
        }
    }

    /// The character under the cursor, advancing past it.
    pub fn next(&mut self) -> (r: Option<char>)
        requires
            old(self).wf(),
        ensures
            final(self).wf(),
            final(self).src() == old(self).src(),
            old(self).pos() < old(self).src().len() ==> r == Some(
                old(self).src()[old(self).pos()],
            ) && final(self).pos() == old(self).pos() + 1,
            old(self).pos() >= old(self).src().len() ==> r == None::<char> && final(self).pos()
                == old(self).pos(),
    {
        match self.peek() {
            Some(c) => {
                self.position = self.position + 1;
                Some(c)
            },
            None => None,
        }
    }

    /// Consume the cursor's character if it is `expected`.
    pub fn expect(&mut self, expected: char) -> (r: Option<char>)
        requires
            old(self).wf(),
        ensures
            final(self).wf(),
            final(self).src() == old(self).src(),
            (r, final(self).pos()) == spec_expect(old(self).src(), old(self).pos(), expected),
    {
        match self.peek() {
            Some(c) => {
                if c == expected {
                    self.position = self.position + 1;
                    Some(c)
                } else {
                    None
                }
            },
            None => None,
        }
    }

    /// Skip to the first non-whitespace character.
    pub fn skip_whitespace(&mut self)
        requires
            old(self).wf(),
        ensures
            final(self).wf(),
            final(self).src() == old(self).src(),
            final(self).pos() == spec_skip_ws(old(self).src(), old(self).pos()),
    {
        let ghost s = self.src();
        let ghost start = self.pos();
        loop
            invariant
                self.wf(),
                self.src() == s,
                start <= self.pos() <= s.len(),
                run_end(s, start, space_pred()) == run_end(s, self.pos(), space_pred()),
            ensures
                self.wf(),
                self.src() == s,
                self.pos() == run_end(s, start, space_pred()),
            decreases s.len() - self.pos(),
        {
            match self.peek() {
                Some(c) => {
                    if space_char(c) {
                        self.next();
                    } else {
                        break ;
                    }
                },
                None => {
                    break ;
                },
            }
        }
    }

    /// Take the maximal run of ASCII letters under the cursor as a slice of
    /// the original line.
    fn take_alpha(&mut self) -> (r: &'a str)
        requires
            old(self).wf(),
        ensures
            final(self).wf(),
            final(self).src() == old(self).src(),
            final(self).pos() == run_end(old(self).src(), old(self).pos(), alpha_pred()),
            r@ == old(self).src().subrange(old(self).pos(), final(self).pos()),
    {
        let ghost s = self.src();
        let start = self.position;
        loop
            invariant
                self.wf(),
                self.src() == s,
                start as int <= self.pos() <= s.len(),
                run_end(s, start as int, alpha_pred()) == run_end(s, self.pos(), alpha_pred()),
            ensures
                self.wf(),
                self.src() == s,
                start as int <= self.pos(),
                self.pos() == run_end(s, start as int, alpha_pred()),
            decreases s.len() - self.pos(),
        {
            match self.peek() {
                Some(c) => {
                    if alpha_char(c) {
                        self.next();
                    } else {
                        break ;
                    }
                },
                None => {
                    break ;
                },
            }
        }
        self.input.substring_char(start, self.position)
    }

    /// Take everything up to (not including) the next backslash as a slice
    /// of the original line.
    fn take_nick(&mut self) -> (r: &'a str)
        requires
            old(self).wf(),
        ensures
            final(self).wf(),
            final(self).src() == old(self).src(),
            final(self).pos() == run_end(old(self).src(), old(self).pos(), nick_pred()),
            r@ == old(self).src().subrange(old(self).pos(), final(self).pos()),
    {
        let ghost s = self.src();
        let start = self.position;
        loop
            invariant
                self.wf(),
                self.src() == s,
                start as int <= self.pos() <= s.len(),
                run_end(s, start as int, nick_pred()) == run_end(s, self.pos(), nick_pred()),
            ensures
                self.wf(),
                self.src() == s,
                start as int <= self.pos(),
                self.pos() == run_end(s, start as int, nick_pred()),
            decreases s.len() - self.pos(),
        {
            match self.peek() {
                Some(c) => {
                    if c != '\\' {
                        self.next();
                    } else {
                        break ;
                    }
                },
                None => {
                    break ;
                },
            }
        }
        self.input.substring_char(start, self.position)
    }

    /// Parse an unsigned decimal number: `Some` exactly when at least one
    /// digit is present and the value fits in `u32`; the cursor moves past
    /// the whole digit run either way.
    pub fn number(&mut self) -> (r: Option<u32>)
        requires
            old(self).wf(),
        ensures
            final(self).wf(),
            final(self).src() == old(self).src(),
            (r, final(self).pos()) == spec_number(old(self).src(), old(self).pos()),
    {
        let ghost s = self.src();
        let ghost start = self.pos();
        let start_pos = self.position;
        let mut value: u64 = 0;
        let mut overflow: bool = false;
        loop
            invariant
                self.wf(),
                self.src() == s,
                start == start_pos as int,
                start <= self.pos() <= s.len(),
                forall|k: int| start <= k < self.pos() ==> is_digit_char(#[trigger] s[k]),
                run_end(s, start, digit_pred()) == run_end(s, self.pos(), digit_pred()),
                !overflow ==> value == dec_value(s.subrange(start, self.pos())) && value
                    <= u32::MAX as u64,
                overflow ==> dec_value(s.subrange(start, self.pos())) > u32::MAX,
            ensures
                self.wf(),
                self.src() == s,
                start <= self.pos(),
                self.pos() == run_end(s, start, digit_pred()),
                !overflow ==> value == dec_value(s.subrange(start, self.pos())) && value
                    <= u32::MAX as u64,
                overflow ==> dec_value(s.subrange(start, self.pos())) > u32::MAX,
            decreases s.len() - self.pos(),
        {
            match self.peek() {
                Some(c) => {
                    if digit_char(c) {
                        self.next();
                        proof {
                            assert(s.subrange(start, self.pos()) =~= s.subrange(
                                start,
                                self.pos() - 1,
                            ).push(c));
                            lemma_dec_value_push(s.subrange(start, self.pos() - 1), c);
                        }
                        let d: u64 = (c as u32 - '0' as u32) as u64;
                        if !overflow {
                            let nv = value * 10 + d;
                            if nv > u32::MAX as u64 {
                                overflow = true;
                            } else {
                                value = nv;
                            }
                        }
                    } else {
                        break ;
                    }
                },
                None => {
                    break ;
                },
            }
        }
        if self.position == start_pos {
            None
        } else if overflow {
            None
        } else {
            Some(value as u32)
        }
    }

    /// Parse the `hour:minute` timestamp.
    pub fn parse_hour(&mut self) -> (r: Option<(u32, u32)>)
        requires
            old(self).wf(),
        ensures
            final(self).wf(),
            final(self).src() == old(self).src(),
            (r, final(self).pos()) == spec_parse_hour(old(self).src(), old(self).pos()),
    {
        let hour = match self.number() {
            Some(h) => h,
            None => {
                return None;
            },
        };
        if self.expect(':').is_none() {
            return None;
        }
        let minutes = match self.number() {
            Some(m) => m,
            None => {
                return None;
            },
        };
        Some((hour, minutes))
    }

    /// Parse the event name: the maximal run of ASCII letters, as a slice of
    /// the original line. Never fails; the run may be empty.
    pub fn parse_event(&mut self) -> (r: Option<&'a str>)
        requires
            old(self).wf(),
        ensures
            final(self).wf(),
            final(self).src() == old(self).src(),
            r matches Some(name) && name@ == spec_event_name(
                old(self).src(),
                old(self).pos(),
            ).0,
            final(self).pos() == spec_event_name(old(self).src(), old(self).pos()).1,
    {
        Some(self.take_alpha())
    }

    /// Parse the `killer victim cause:` payload of a `Kill` line.
    pub fn parse_kill(&mut self) -> (r: Option<Kill>)
        requires
            old(self).wf(),
        ensures
            final(self).wf(),
            final(self).src() == old(self).src(),
            (r, final(self).pos()) == spec_parse_kill(old(self).src(), old(self).pos()),
    {
        let killer = match self.number() {
            Some(k) => k,
            None => {
                return None;
            },
        };
        if self.expect(' ').is_none() {
            return None;
        }
        let victim = match self.number() {
            Some(v) => v,
            None => {
                return None;
            },
        };
        if self.expect(' ').is_none() {
            return None;
        }
        let item = match self.number() {
            Some(c) => c,
            None => {
                return None;
            },
        };
        if self.expect(':').is_none() {
            return None;
        }
        match MeansOfDeath::from_ordinal(item) {
            Some(mean) => Some(Kill { victim, killer, mean }),
            None => None,
        }
    }

    /// [`Parser::parse_kill`], wrapped as an event payload.
    pub fn parse_kill_event(&mut self) -> (r: Option<EventKind<'a>>)
        requires
            old(self).wf(),
        ensures
            final(self).wf(),
            final(self).src() == old(self).src(),
            final(self).pos() == spec_parse_kill(old(self).src(), old(self).pos()).1,
            match spec_parse_kill(old(self).src(), old(self).pos()).0 {
                Some(k) => r matches Some(ek) && ek@ == SpecEventKind::Kill(k),
                None => r is None,
            },
    {
        let kill = match self.parse_kill() {
            Some(k) => k,
            None => {
                return None;
            },
        };
        Some(EventKind::Kill(kill))
    }

    /// Parse the `id n\nickname\...` payload of a `ClientUserinfoChanged`
    /// line. The nickname is a slice of the original line.
    pub fn parse_client_user_changed(&mut self) -> (r: Option<EventKind<'a>>)
        requires
            old(self).wf(),
        ensures
            final(self).wf(),
            final(self).src() == old(self).src(),
            final(self).pos() == spec_parse_client(old(self).src(), old(self).pos()).1,
            match spec_parse_client(old(self).src(), old(self).pos()).0 {
                Some(p) => r matches Some(ek) && ek@ == SpecEventKind::ClientUserInfoChanged(
                    SpecClientUserInfoChanged { id: p.0, nickname: p.1 },
                ),
                None => r is None,
            },
    {
        self.skip_whitespace();
        let id = match self.number() {
            Some(i) => i,
            None => {
                return None;
            },
        };
        self.skip_whitespace();
        let _ = self.expect('n');
        let _ = self.expect('\\');
        let nickname = self.take_nick();
        Some(EventKind::ClientUserInfoChanged(ClientUserInfoChanged { id, nickname }))
    }

    /// Parse one whole line from the cursor onward.
    pub fn parse(&mut self) -> (r: Option<Event<'a>>)
        requires
            old(self).wf(),
        ensures
            final(self).wf(),
            final(self).src() == old(self).src(),
            match r {
                Some(e) => spec_parse_line(old(self).src(), old(self).pos()) == Some(e@),
                None => spec_parse_line(old(self).src(), old(self).pos()) is None,
            },
    {
        proof {
            reveal(spec_parse_line);
        }
        self.skip_whitespace();
        let date = match self.parse_hour() {
            Some(d) => d,
            None => {
                return None;
            },
        };
        self.skip_whitespace();
        let event = match self.parse_event() {
            Some(e) => e,
            None => {
                return None;
            },
        };
        if self.expect(':').is_none() {
            return None;
        }
        if event.is_empty() {
            return None;
        }
        self.skip_whitespace();
        let kind = if str_eq(event, "Kill") {
            match self.parse_kill_event() {
                Some(k) => k,
                None => {
                    return None;
                },
            }
        } else if str_eq(event, "ClientUserinfoChanged") {
            match self.parse_client_user_changed() {
                Some(k) => k,
                None => {
                    return None;
                },
            }
        } else if str_eq(event, "InitGame") {
            EventKind::InitGame
        } else if str_eq(event, "ShutdownGame") {
            EventKind::ShutdownGame
        } else {
            EventKind::Irrelevant
        };
        Some(Event { date, kind })
    }
}

/// Parse one line of log text to an event, if the line follows the grammar.
pub fn parse<'a>(input: &'a str) -> (r: Option<Event<'a>>)
    ensures
        match r {
            Some(e) => spec_parse_line(input@, 0) == Some(e@),
            None => spec_parse_line(input@, 0) is None,
        },
{
    let mut parser = Parser::new(input);
    parser.parse()
}

} // verus!
