//! The state seam's shapes: the session's shape and the events custody
//! serves back, as the member answers them.

use vstd::prelude::*;
use vstd::string::*;
use crate::gate::relay::{find_delimiter, first_delimiter_at, undelimited};
use crate::json::{
    json_count, json_count_of, json_entries, json_entries_of, json_items, json_items_of,
    json_member, json_member_of, json_text, json_text_of, text_of,
};
use crate::text::{decimal, decimal_string, utf8_lossy, utf8_lossy_of};

verus! {

/// One event off either serving answer: the envelope's facts the asking loop
/// composes with, and the elected pairs as custody kept them, each value the
/// canonical JSON text.
#[derive(Debug, Clone, PartialEq)]
pub struct Recalled {
    pub kind: String,
    pub run: String,
    pub turn: Option<String>,
    pub sequence: String,
    pub pairs: Vec<(String, String)>,
}

/// A recalled event's characters.
pub struct RecalledView {
    pub kind: Seq<char>,
    pub run: Seq<char>,
    pub turn: Option<Seq<char>>,
    pub sequence: Seq<char>,
    pub pairs: Seq<(Seq<char>, Seq<char>)>,
}

impl View for Recalled {
    type V = RecalledView;

    open spec fn view(&self) -> RecalledView {
        RecalledView {
            kind: self.kind@,
            run: self.run@,
            turn: match self.turn {
                Some(t) => Some(t@),
                None => None,
            },
            sequence: self.sequence@,
            pairs: self.pairs.deep_view(),
        }
    }
}

/// How long the seam waits on an answer, in milliseconds.
pub const ANSWER_BOUND_MS: u16 = 2000;

/// The longest answer the seam buffers while waiting for its line, in bytes.
pub const ANSWER_BOUND_BYTES: usize = 1048576;

/// One run's shape: its name and each kind's count, in key order.
#[derive(Debug, Clone, PartialEq)]
pub struct RunShape {
    pub run: String,
    pub kinds: Vec<(String, u64)>,
}

/// The session's shape, run by run.
#[derive(Debug, Clone, PartialEq)]
pub struct SessionShape {
    pub runs: Vec<RunShape>,
}

pub struct RunShapeView {
    pub run: Seq<char>,
    pub kinds: Seq<(Seq<char>, u64)>,
}

impl View for RunShape {
    type V = RunShapeView;

    open spec fn view(&self) -> RunShapeView {
        RunShapeView { run: self.run@, kinds: self.kinds@.map_values(|k: (String, u64)| (k.0@, k.1)) }
    }
}

impl View for SessionShape {
    type V = Seq<RunShapeView>;

    open spec fn view(&self) -> Seq<RunShapeView> {
        self.runs@.map_values(|r: RunShape| r@)
    }
}

/// The member `key` of `doc`, read as a JSON string.
pub open spec fn text_member(doc: Seq<char>, key: Seq<char>) -> Option<Seq<char>> {
    match json_member_of(doc, key) {
        Some(member) => json_text_of(member),
        None => None,
    }
}

/// The member at `first` then `second` then `third` of `doc`.
pub open spec fn member_path(doc: Seq<char>, first: Seq<char>, second: Seq<char>, third: Seq<char>) -> Option<
    Seq<char>,
> {
    match json_member_of(doc, first) {
        None => None,
        Some(a) => match json_member_of(a, second) {
            None => None,
            Some(b) => json_member_of(b, third),
        },
    }
}

/// Each kind with its count, where every count reads as an unsigned count.
pub open spec fn kinds_of(entries: Seq<(Seq<char>, Seq<char>)>) -> Option<Seq<(Seq<char>, u64)>>
    decreases entries.len(),
{
    if entries.len() == 0 {
        Some(Seq::empty())
    } else {
        match kinds_of(entries.drop_last()) {
            None => None,
            Some(kinds) => match json_count_of(entries.last().1) {
                None => None,
                Some(count) => Some(kinds.push((entries.last().0, count))),
            },
        }
    }
}

/// One run of the shape answer: its name, a string, and its kinds, an
/// object of counts.
pub open spec fn run_shape_of(entry: Seq<char>) -> Option<RunShapeView> {
    match text_member(entry, "run"@) {
        None => None,
        Some(run) => match json_member_of(entry, "kinds"@) {
            None => None,
            Some(kinds) => match json_entries_of(kinds) {
                None => None,
                Some(entries) => match kinds_of(entries) {
                    None => None,
                    Some(kinds) => Some(RunShapeView { run, kinds }),
                },
            },
        },
    }
}

/// Every run of the answer, or nothing where one does not read.
pub open spec fn runs_of(entries: Seq<Seq<char>>) -> Option<Seq<RunShapeView>>
    decreases entries.len(),
{
    if entries.len() == 0 {
        Some(Seq::empty())
    } else {
        match runs_of(entries.drop_last()) {
            None => None,
            Some(runs) => match run_shape_of(entries.last()) {
                None => None,
                Some(run) => Some(runs.push(run)),
            },
        }
    }
}

/// The shape answer read whole or not at all: `answer.shape.runs`, an
/// array of runs.
pub open spec fn shape_answer(line: Seq<char>) -> Option<Seq<RunShapeView>> {
    match member_path(line, "answer"@, "shape"@, "runs"@) {
        None => None,
        Some(runs) => match json_items_of(runs) {
            None => None,
            Some(entries) => runs_of(entries),
        },
    }
}

/// A count that does not read in a prefix leaves the whole unread.
proof fn lemma_kinds_unread_stands(entries: Seq<(Seq<char>, Seq<char>)>, i: int)
    requires
        0 <= i <= entries.len(),
        kinds_of(entries.take(i)) is None,
    ensures
        kinds_of(entries) is None,
    decreases entries.len() - i,
{
    if i < entries.len() {
        assert(entries.take(i + 1).drop_last() =~= entries.take(i));
        lemma_kinds_unread_stands(entries, i + 1);
    } else {
        assert(entries.take(i) =~= entries);
    }
}

/// A run that does not read in a prefix leaves the whole unread.
proof fn lemma_runs_unread_stands(entries: Seq<Seq<char>>, i: int)
    requires
        0 <= i <= entries.len(),
        runs_of(entries.take(i)) is None,
    ensures
        runs_of(entries) is None,
    decreases entries.len() - i,
{
    if i < entries.len() {
        assert(entries.take(i + 1).drop_last() =~= entries.take(i));
        lemma_runs_unread_stands(entries, i + 1);
    } else {
        assert(entries.take(i) =~= entries);
    }
}

fn text_member_exec(doc: &str, key: &str) -> (text: Option<String>)
    ensures
        text_of(text) == text_member(doc@, key@),
{
    match json_member(doc, key) {
        Some(member) => json_text(member.as_str()),
        None => None,
    }
}

fn member_path_exec(doc: &str, first: &str, second: &str, third: &str) -> (member: Option<String>)
    ensures
        text_of(member) == member_path(doc@, first@, second@, third@),
{
    let a = match json_member(doc, first) {
        Some(a) => a,
        None => return None,
    };
    let b = match json_member(a.as_str(), second) {
        Some(b) => b,
        None => return None,
    };
    json_member(b.as_str(), third)
}

fn run_shape(entry: &str) -> (shape: Option<RunShape>)
    ensures
        match shape {
            Some(r) => run_shape_of(entry@) == Some(r@),
            None => run_shape_of(entry@) is None,
        },
{
    let run = match text_member_exec(entry, "run") {
        Some(run) => run,
        None => return None,
    };
    let raw_kinds = match json_member(entry, "kinds") {
        Some(kinds) => kinds,
        None => return None,
    };
    let entries = match json_entries(raw_kinds.as_str()) {
        Some(entries) => entries,
        None => return None,
    };
    let ghost ev = entries.deep_view();
    let mut kinds: Vec<(String, u64)> = Vec::new();
    let mut i: usize = 0;
    proof {
        assert(ev.take(0) =~= Seq::<(Seq<char>, Seq<char>)>::empty());
        assert(kinds@.map_values(|k: (String, u64)| (k.0@, k.1)) =~= Seq::<(Seq<char>, u64)>::empty());
    }
    while i < entries.len()
        invariant
            ev == entries.deep_view(),
            text_member(entry@, "run"@) == Some(run@),
            json_member_of(entry@, "kinds"@) == Some(raw_kinds@),
            json_entries_of(raw_kinds@) == Some(ev),
            i <= entries@.len(),
            kinds_of(ev.take(i as int)) == Some(kinds@.map_values(|k: (String, u64)| (k.0@, k.1))),
        decreases entries@.len() - i,
    {
        proof {
            assert(ev.take(i + 1).drop_last() =~= ev.take(i as int));
            assert(ev.take(i + 1).last() == ev[i as int]);
        }
        let count = match json_count(entries[i].1.as_str()) {
            Some(count) => count,
            None => {
                proof {
                    assert(ev[i as int].1 == entries@[i as int].1@);
                    assert(kinds_of(ev.take(i + 1)) is None);
                    lemma_kinds_unread_stands(ev, i + 1);
                }
                return None;
            },
        };
        let ghost before = kinds@;
        kinds.push((entries[i].0.clone(), count));
        proof {
            assert(kinds@.map_values(|k: (String, u64)| (k.0@, k.1)) =~= before.map_values(
                |k: (String, u64)| (k.0@, k.1),
            ).push((ev[i as int].0, count)));
        }
        i = i + 1;
    }
    proof {
        assert(ev.take(i as int) =~= ev);
    }
    Some(RunShape { run, kinds })
}

/// The shape answer, read whole or not at all.
pub fn parse_shape_answer(line: &str) -> (shape: Option<SessionShape>)
    ensures
        match shape {
            Some(s) => shape_answer(line@) == Some(s@),
            None => shape_answer(line@) is None,
        },
{
    let raw = match member_path_exec(line, "answer", "shape", "runs") {
        Some(raw) => raw,
        None => return None,
    };
    let entries = match json_items(raw.as_str()) {
        Some(entries) => entries,
        None => return None,
    };
    let ghost ev = entries.deep_view();
    let mut runs: Vec<RunShape> = Vec::new();
    let mut i: usize = 0;
    proof {
        assert(ev.take(0) =~= Seq::<Seq<char>>::empty());
        assert(runs@.map_values(|r: RunShape| r@) =~= Seq::<RunShapeView>::empty());
    }
    while i < entries.len()
        invariant
            ev == entries.deep_view(),
            member_path(line@, "answer"@, "shape"@, "runs"@) == Some(raw@),
            json_items_of(raw@) == Some(ev),
            i <= entries@.len(),
            runs_of(ev.take(i as int)) == Some(runs@.map_values(|r: RunShape| r@)),
        decreases entries@.len() - i,
    {
        proof {
            assert(ev.take(i + 1).drop_last() =~= ev.take(i as int));
            assert(ev.take(i + 1).last() == ev[i as int]);
        }
        let run = match run_shape(entries[i].as_str()) {
            Some(run) => run,
            None => {
                proof {
                    assert(ev[i as int] == entries@[i as int]@);
                    assert(runs_of(ev.take(i + 1)) is None);
                    lemma_runs_unread_stands(ev, i + 1);
                }
                return None;
            },
        };
        let ghost before = runs@;
        let ghost rv = run@;
        runs.push(run);
        proof {
            assert(runs@.map_values(|r: RunShape| r@) =~= before.map_values(|r: RunShape| r@).push(rv));
        }
        i = i + 1;
    }
    proof {
        assert(ev.take(i as int) =~= ev);
    }
    Some(SessionShape { runs })
}

/// One served event read from its rendering: the envelope's kind, run and
/// sequence, each a string, are required, its turn is read where it is a
/// string, and the pairs are the object's members as custody kept them, none
/// where the event carries no object under `pairs`.
pub open spec fn recalled_of(event: Seq<char>) -> Option<RecalledView> {
    match json_member_of(event, "envelope"@) {
        None => None,
        Some(envelope) => {
            let pairs = match json_member_of(event, "pairs"@) {
                Some(p) => match json_entries_of(p) {
                    Some(entries) => entries,
                    None => Seq::empty(),
                },
                None => Seq::empty(),
            };
            match text_member(envelope, "kind"@) {
                None => None,
                Some(kind) => match text_member(envelope, "run"@) {
                    None => None,
                    Some(run) => match text_member(envelope, "sequence"@) {
                        None => None,
                        Some(sequence) => Some(
                            RecalledView {
                                kind,
                                run,
                                turn: text_member(envelope, "turn"@),
                                sequence,
                                pairs,
                            },
                        ),
                    },
                },
            }
        },
    }
}

/// Every served event, or nothing where one does not read.
pub open spec fn events_of(items: Seq<Seq<char>>) -> Option<Seq<RecalledView>>
    decreases items.len(),
{
    if items.len() == 0 {
        Some(Seq::empty())
    } else {
        match events_of(items.drop_last()) {
            None => None,
            Some(events) => match recalled_of(items.last()) {
                None => None,
                Some(event) => Some(events.push(event)),
            },
        }
    }
}

/// An answer's events under its own name, `answer.<name>.events`, read whole
/// or not at all.
pub open spec fn events_answer(line: Seq<char>, name: Seq<char>) -> Option<Seq<RecalledView>> {
    match member_path(line, "answer"@, name, "events"@) {
        None => None,
        Some(events) => match json_items_of(events) {
            None => None,
            Some(items) => events_of(items),
        },
    }
}

proof fn lemma_events_unread_stands(items: Seq<Seq<char>>, i: int)
    requires
        0 <= i <= items.len(),
        events_of(items.take(i)) is None,
    ensures
        events_of(items) is None,
    decreases items.len() - i,
{
    if i < items.len() {
        assert(items.take(i + 1).drop_last() =~= items.take(i));
        lemma_events_unread_stands(items, i + 1);
    } else {
        assert(items.take(i) =~= items);
    }
}

fn recalled(event: &str) -> (r: Option<Recalled>)
    ensures
        match r {
            Some(e) => recalled_of(event@) == Some(e@),
            None => recalled_of(event@) is None,
        },
{
    let envelope = match json_member(event, "envelope") {
        Some(envelope) => envelope,
        None => return None,
    };
    let pairs: Vec<(String, String)> = match json_member(event, "pairs") {
        Some(p) => match json_entries(p.as_str()) {
            Some(entries) => entries,
            None => Vec::new(),
        },
        None => Vec::new(),
    };
    let kind = match text_member_exec(envelope.as_str(), "kind") {
        Some(kind) => kind,
        None => return None,
    };
    let run = match text_member_exec(envelope.as_str(), "run") {
        Some(run) => run,
        None => return None,
    };
    let sequence = match text_member_exec(envelope.as_str(), "sequence") {
        Some(sequence) => sequence,
        None => return None,
    };
    let turn = text_member_exec(envelope.as_str(), "turn");
    let e = Recalled { kind, run, turn, sequence, pairs };
    proof {
        assert(pairs@.len() == 0 ==> e@.pairs =~= Seq::<(Seq<char>, Seq<char>)>::empty());
    }
    Some(e)
}

/// The events an answer carries under `name`, read whole or not at all.
fn parse_events_answer(line: &str, name: &str) -> (events: Option<Vec<Recalled>>)
    ensures
        match events {
            Some(v) => events_answer(line@, name@) == Some(v@.map_values(|e: Recalled| e@)),
            None => events_answer(line@, name@) is None,
        },
{
    let raw = match member_path_exec(line, "answer", name, "events") {
        Some(raw) => raw,
        None => return None,
    };
    let items = match json_items(raw.as_str()) {
        Some(items) => items,
        None => return None,
    };
    let ghost iv = items.deep_view();
    let mut events: Vec<Recalled> = Vec::new();
    let mut i: usize = 0;
    proof {
        assert(iv.take(0) =~= Seq::<Seq<char>>::empty());
        assert(events@.map_values(|e: Recalled| e@) =~= Seq::<RecalledView>::empty());
    }
    while i < items.len()
        invariant
            iv == items.deep_view(),
            member_path(line@, "answer"@, name@, "events"@) == Some(raw@),
            json_items_of(raw@) == Some(iv),
            i <= items@.len(),
            events_of(iv.take(i as int)) == Some(events@.map_values(|e: Recalled| e@)),
        decreases items@.len() - i,
    {
        proof {
            assert(iv.take(i + 1).drop_last() =~= iv.take(i as int));
            assert(iv.take(i + 1).last() == iv[i as int]);
            assert(iv[i as int] == items@[i as int]@);
        }
        let event = match recalled(items[i].as_str()) {
            Some(event) => event,
            None => {
                proof {
                    assert(events_of(iv.take(i + 1)) is None);
                    lemma_events_unread_stands(iv, i + 1);
                }
                return None;
            },
        };
        let ghost before = events@;
        let ghost ev = event@;
        events.push(event);
        proof {
            assert(events@.map_values(|e: Recalled| e@) =~= before.map_values(|e: Recalled| e@).push(ev));
        }
        i = i + 1;
    }
    proof {
        assert(iv.take(i as int) =~= iv);
    }
    Some(events)
}

/// The replay answer's events, read whole or not at all.
pub fn parse_replay_answer(line: &str) -> (events: Option<Vec<Recalled>>)
    ensures
        match events {
            Some(v) => events_answer(line@, "replay"@) == Some(v@.map_values(|e: Recalled| e@)),
            None => events_answer(line@, "replay"@) is None,
        },
{
    parse_events_answer(line, "replay")
}

/// The recall answer's events, read whole or not at all.
pub fn parse_recall_answer(line: &str) -> (events: Option<Vec<Recalled>>)
    ensures
        match events {
            Some(v) => events_answer(line@, "recall"@) == Some(v@.map_values(|e: Recalled| e@)),
            None => events_answer(line@, "recall"@) is None,
        },
{
    parse_events_answer(line, "recall")
}

/// The shape ask, as it crosses the seam.
pub open spec fn shape_ask() -> Seq<char> {
    "{\"ask\":{\"shape\":{}}}\n"@
}

/// The replay ask, as it crosses the seam.
pub open spec fn replay_ask() -> Seq<char> {
    "{\"ask\":{\"replay\":{}}}\n"@
}

/// The recall ask, bounded to the last turns where a bound is given.
pub open spec fn recall_ask_spec(last_turns: Option<u64>) -> Seq<char> {
    match last_turns {
        Some(bound) => "{\"ask\":{\"recall\":{\"last-turns\":"@ + decimal(bound as nat)
            + "}}}\n"@,
        None => "{\"ask\":{\"recall\":{}}}\n"@,
    }
}

/// The recall ask's line.
pub fn recall_ask(last_turns: Option<u64>) -> (ask: String)
    ensures
        ask@ == recall_ask_spec(last_turns),
{
    match last_turns {
        Some(bound) => {
            let mut ask = String::from_str("{\"ask\":{\"recall\":{\"last-turns\":");
            ask.append(decimal_string(bound).as_str());
            ask.append("}}}\n");
            ask
        },
        None => String::from_str("{\"ask\":{\"recall\":{}}}\n"),
    }
}

/// What the seam's buffer holds while it waits for an answer.
#[derive(Debug)]
pub enum AwaitedLine {
    /// The answer's line, up to its newline, read leniently.
    Line(String),
    /// The buffer passed its bound with no line in it: no answer.
    Overlong,
    /// No line yet: keep reading.
    Waiting,
}

/// The seam's reading of what it has buffered.
pub fn awaited_line(buffer: &Vec<u8>) -> (line: AwaitedLine)
    ensures
        match line {
            AwaitedLine::Line(text) => exists|i: int|
                first_delimiter_at(buffer@, i) && text@ == utf8_lossy_of(buffer@.take(i)),
            AwaitedLine::Overlong => undelimited(buffer@) && buffer@.len() > ANSWER_BOUND_BYTES,
            AwaitedLine::Waiting => undelimited(buffer@) && buffer@.len() <= ANSWER_BOUND_BYTES,
        },
{
    match find_delimiter(buffer) {
        Some(at) => {
            let head = vstd::slice::slice_subrange(buffer.as_slice(), 0, at);
            proof {
                assert(head@ =~= buffer@.take(at as int));
            }
            AwaitedLine::Line(utf8_lossy(head))
        },
        None => if buffer.len() > ANSWER_BOUND_BYTES {
            AwaitedLine::Overlong
        } else {
            AwaitedLine::Waiting
        },
    }
}

/// One poll's wait with `remaining` milliseconds left: the remainder,
/// capped at the longest wait a poll takes.
pub fn poll_slice(remaining: u128) -> (slice: u16)
    ensures
        slice == (if remaining < 65535 { remaining } else { 65535 }),
{
    if remaining < 65535 {
        remaining as u16
    } else {
        65535
    }
}

/// The seam's health: it retires on its first failed exchange and asks
/// nothing after.
#[derive(Debug, Clone, Copy, PartialEq, Eq, Structural)]
pub struct SeamHealth {
    pub dead: bool,
}

impl SeamHealth {
    /// A seam that has not failed.
    pub fn fresh() -> (h: SeamHealth)
        ensures
            !h.dead,
    {
        SeamHealth { dead: false }
    }

    /// Whether the seam may still ask.
    pub fn may_ask(&self) -> (may: bool)
        ensures
            may == !self.dead,
    {
        !self.dead
    }

    /// Records an exchange's end: one that went unanswered retires the seam.
    pub fn record(&mut self, answered: bool)
        ensures
            final(self).dead == (old(self).dead || !answered),
    {
        if !answered {
            self.dead = true;
        }
    }
}

/// The seam's health after a run of exchanges, each answered or not.
pub open spec fn health_after(dead: bool, answers: Seq<bool>) -> bool
    decreases answers.len(),
{
    if answers.len() == 0 {
        dead
    } else {
        health_after(dead, answers.drop_last()) || !answers.last()
    }
}

/// **One strike retires the seam.** Once an exchange went unanswered, the
/// seam is dead after any run of later exchanges, answered or not; and a
/// seam whose every exchange was answered is alive.
pub proof fn lemma_a_retired_seam_stays_retired(answers: Seq<bool>, strike: int)
    requires
        0 <= strike < answers.len(),
        !answers[strike],
    ensures
        health_after(false, answers),
    decreases answers.len(),
{
    if strike < answers.len() - 1 {
        lemma_a_retired_seam_stays_retired(answers.drop_last(), strike);
    }
}

/// A seam whose every exchange was answered stays alive.
pub proof fn lemma_an_answered_seam_lives(answers: Seq<bool>)
    requires
        forall|i: int| 0 <= i < answers.len() ==> answers[i],
    ensures
        !health_after(false, answers),
    decreases answers.len(),
{
    if answers.len() > 0 {
        lemma_an_answered_seam_lives(answers.drop_last());
    }
}

} // verus!

