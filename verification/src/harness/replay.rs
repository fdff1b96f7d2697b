//! The diagnostic replay's grouping and certification: the served holdings
//! grouped by turn into recorded generations and the resident edits between
//! them, and one re-fed generation held to its recorded path. The walk that
//! drives the seat around these runs at the composition root.

use vstd::prelude::*;
use vstd::string::*;
use crate::harness::state::{Recalled, RecalledView};
use crate::json::{
    json_canonical, json_canonical_of, json_member, json_member_debug, json_member_debug_of, json_member_equals, json_member_equals_of,
    json_member_of, json_text, json_text_of, json_tokens, json_tokens_of, text_of,
};
use crate::text::{decimal, decimal_string};
use crate::wire::Generation;
use crate::text::{cat2, cat3, cat4, cat5, less_text, parse_count, parsed_count, same_text, text_less};

verus! {

/// The first value paired with `key`, in pair order.
pub open spec fn pair_of(pairs: Seq<(Seq<char>, Seq<char>)>, key: Seq<char>) -> Option<Seq<char>>
    decreases pairs.len(),
{
    if pairs.len() == 0 {
        None
    } else if pairs[0].0 == key {
        Some(pairs[0].1)
    } else {
        pair_of(pairs.drop_first(), key)
    }
}

/// The value the event pairs with `key`, as custody kept it.
pub fn pair<'a>(event: &'a Recalled, key: &str) -> (value: Option<&'a str>)
    ensures
        match value {
            Some(v) => pair_of(event@.pairs, key@) == Some(v@),
            None => pair_of(event@.pairs, key@) is None,
        },
{
    let mut i: usize = 0;
    proof {
        assert(event@.pairs.skip(0) =~= event@.pairs);
    }
    while i < event.pairs.len()
        invariant
            i <= event.pairs@.len(),
            pair_of(event@.pairs, key@) == pair_of(event@.pairs.skip(i as int), key@),
        decreases event.pairs@.len() - i,
    {
        proof {
            assert(event@.pairs.skip(i as int).drop_first() =~= event@.pairs.skip(i + 1));
            assert(event@.pairs.skip(i as int)[0] == event@.pairs[i as int]);
        }
        if same_text(event.pairs[i].0.as_str(), key) {
            return Some(event.pairs[i].1.as_str());
        }
        i = i + 1;
    }
    None
}

/// A resident edit the source made between turns, with the counts the record
/// carried for it.
#[derive(Debug, Clone, Copy, PartialEq, Eq, Structural)]
pub enum Edit {
    Flush { before: u64, after: u64 },
    Elision { from: u64, to: u64, before: u64, after: u64 },
}

/// A recorded request's members, half a generation until its measurement
/// lands.
#[derive(Debug)]
pub struct PendingRequest {
    pub rendered: String,
    pub template: String,
    pub sampling: String,
}

#[verifier::ext_equal]
pub struct PendingView {
    pub rendered: Seq<char>,
    pub template: Seq<char>,
    pub sampling: Seq<char>,
}

impl View for PendingRequest {
    type V = PendingView;

    open spec fn view(&self) -> PendingView {
        PendingView {
            rendered: self.rendered@,
            template: self.template@,
            sampling: self.sampling@,
        }
    }
}

/// One recorded generation: the request's members beside the measurement's.
/// The sampling is held as the JSON text the record carried for it.
#[derive(Debug)]
pub struct SourceGeneration {
    pub rendered: String,
    pub template: String,
    pub sampling: String,
    pub input_tokens: Vec<u32>,
    pub output_tokens: Vec<u32>,
    pub model: String,
    pub weights_hash: String,
}

#[verifier::ext_equal]
pub struct GenerationView {
    pub rendered: Seq<char>,
    pub template: Seq<char>,
    pub sampling: Seq<char>,
    pub input_tokens: Seq<u32>,
    pub output_tokens: Seq<u32>,
    pub model: Seq<char>,
    pub weights_hash: Seq<char>,
}

impl View for SourceGeneration {
    type V = GenerationView;

    open spec fn view(&self) -> GenerationView {
        GenerationView {
            rendered: self.rendered@,
            template: self.template@,
            sampling: self.sampling@,
            input_tokens: self.input_tokens@,
            output_tokens: self.output_tokens@,
            model: self.model@,
            weights_hash: self.weights_hash@,
        }
    }
}

pub open spec fn missing_request(turn: Seq<char>, key: Seq<char>) -> Seq<char> {
    "the model.request of turn "@ + turn + " holds no "@ + key
}

/// The request's elected members, or the first of them that is absent or
/// does not parse.
pub open spec fn request_spec(pairs: Seq<(Seq<char>, Seq<char>)>, turn: Seq<char>) -> Result<
    PendingView,
    Seq<char>,
> {
    match pair_of(pairs, "rendered"@) {
        None => Err(missing_request(turn, "rendered"@)),
        Some(raw_rendered) => match json_text_of(raw_rendered) {
            None => Err("the rendered form of turn "@ + turn + " does not parse"@),
            Some(rendered) => match pair_of(pairs, "template"@) {
                None => Err(missing_request(turn, "template"@)),
                Some(raw_template) => match json_text_of(raw_template) {
                    None => Err("the template of turn "@ + turn + " does not parse"@),
                    Some(template) => match pair_of(pairs, "sampling"@) {
                        None => Err(missing_request(turn, "sampling"@)),
                        Some(raw_sampling) => if json_canonical_of(raw_sampling) is None {
                            Err("the sampling of turn "@ + turn + " does not parse"@)
                        } else {
                            Ok(PendingView { rendered, template, sampling: raw_sampling })
                        },
                    },
                },
            },
        },
    }
}

/// The request's elected members, half a generation until its measurement.
pub fn request_members(event: &Recalled, turn: &str) -> (r: Result<PendingRequest, String>)
    ensures
        match r {
            Ok(p) => request_spec(event@.pairs, turn@) == Ok::<PendingView, Seq<char>>(p@),
            Err(m) => request_spec(event@.pairs, turn@) == Err::<PendingView, Seq<char>>(m@),
        },
{
    let raw_rendered = match pair(event, "rendered") {
        Some(raw) => raw,
        None => return Err(cat4("the model.request of turn ", turn, " holds no ", "rendered")),
    };
    let rendered = match json_text(raw_rendered) {
        Some(text) => text,
        None => return Err(cat3("the rendered form of turn ", turn, " does not parse")),
    };
    let raw_template = match pair(event, "template") {
        Some(raw) => raw,
        None => return Err(cat4("the model.request of turn ", turn, " holds no ", "template")),
    };
    let template = match json_text(raw_template) {
        Some(text) => text,
        None => return Err(cat3("the template of turn ", turn, " does not parse")),
    };
    let raw_sampling = match pair(event, "sampling") {
        Some(raw) => raw,
        None => return Err(cat4("the model.request of turn ", turn, " holds no ", "sampling")),
    };
    if json_canonical(raw_sampling).is_none() {
        return Err(cat3("the sampling of turn ", turn, " does not parse"));
    }
    let sampling = String::from_str(raw_sampling);
    Ok(PendingRequest { rendered, template, sampling })
}

pub open spec fn missing_measurement(turn: Seq<char>, key: Seq<char>) -> Seq<char> {
    "the model.measurement of turn "@ + turn + " holds no "@ + key
}

/// The measurement's members completing `request`, or the first of them
/// that is absent or does not parse, checked in the record's order: the four
/// are present, the model and the weights hash read as strings, the output
/// reads as tokens and is not empty, and the input reads as tokens.
pub open spec fn measurement_spec(
    pairs: Seq<(Seq<char>, Seq<char>)>,
    turn: Seq<char>,
    request: PendingView,
) -> Result<GenerationView, Seq<char>> {
    match pair_of(pairs, "input_tokens"@) {
        None => Err(missing_measurement(turn, "input_tokens"@)),
        Some(input) => match pair_of(pairs, "output_tokens"@) {
            None => Err(missing_measurement(turn, "output_tokens"@)),
            Some(output) => match pair_of(pairs, "model"@) {
                None => Err(missing_measurement(turn, "model"@)),
                Some(raw_model) => match json_text_of(raw_model) {
                    None => Err("the model of turn "@ + turn + " does not parse"@),
                    Some(model) => match pair_of(pairs, "weights_hash"@) {
                        None => Err(missing_measurement(turn, "weights_hash"@)),
                        Some(raw_hash) => match json_text_of(raw_hash) {
                            None => Err("the weights hash of turn "@ + turn + " does not parse"@),
                            Some(weights_hash) => match json_tokens_of(output) {
                                None => Err(
                                    "the output_tokens of turn "@ + turn + " do not parse"@,
                                ),
                                Some(output_tokens) => if output_tokens.len() == 0 {
                                    Err(
                                        "turn "@ + turn + " records a generation with no output"@,
                                    )
                                } else {
                                    match json_tokens_of(input) {
                                        None => Err(
                                            "the input_tokens of turn "@ + turn
                                                + " do not parse"@,
                                        ),
                                        Some(input_tokens) => Ok(
                                            GenerationView {
                                                rendered: request.rendered,
                                                template: request.template,
                                                sampling: request.sampling,
                                                input_tokens,
                                                output_tokens,
                                                model,
                                                weights_hash,
                                            },
                                        ),
                                    }
                                },
                            },
                        },
                    },
                },
            },
        },
    }
}

/// The measurement's members, completing the request into a generation.
pub fn measurement_members(event: &Recalled, turn: &str, request: PendingRequest) -> (r: Result<
    SourceGeneration,
    String,
>)
    ensures
        match r {
            Ok(g) => measurement_spec(event@.pairs, turn@, request@) == Ok::<
                GenerationView,
                Seq<char>,
            >(g@),
            Err(m) => measurement_spec(event@.pairs, turn@, request@) == Err::<
                GenerationView,
                Seq<char>,
            >(m@),
        },
{
    let input = match pair(event, "input_tokens") {
        Some(raw) => raw,
        None => return Err(cat4("the model.measurement of turn ", turn, " holds no ", "input_tokens")),
    };
    let output = match pair(event, "output_tokens") {
        Some(raw) => raw,
        None => return Err(
            cat4("the model.measurement of turn ", turn, " holds no ", "output_tokens"),
        ),
    };
    let raw_model = match pair(event, "model") {
        Some(raw) => raw,
        None => return Err(cat4("the model.measurement of turn ", turn, " holds no ", "model")),
    };
    let model = match json_text(raw_model) {
        Some(text) => text,
        None => return Err(cat3("the model of turn ", turn, " does not parse")),
    };
    let raw_hash = match pair(event, "weights_hash") {
        Some(raw) => raw,
        None => return Err(cat4("the model.measurement of turn ", turn, " holds no ", "weights_hash")),
    };
    let weights_hash = match json_text(raw_hash) {
        Some(text) => text,
        None => return Err(cat3("the weights hash of turn ", turn, " does not parse")),
    };
    let output_tokens = match json_tokens(output) {
        Some(tokens) => tokens,
        None => return Err(cat3("the output_tokens of turn ", turn, " do not parse")),
    };
    if output_tokens.len() == 0 {
        return Err(cat3("turn ", turn, " records a generation with no output"));
    }
    let input_tokens = match json_tokens(input) {
        Some(tokens) => tokens,
        None => return Err(cat3("the input_tokens of turn ", turn, " do not parse")),
    };
    Ok(
        SourceGeneration {
            rendered: request.rendered,
            template: request.template,
            sampling: request.sampling,
            input_tokens,
            output_tokens,
            model,
            weights_hash,
        },
    )
}


/// The grouping walk's state after a prefix of the holdings: the run held,
/// the turns in the order their first request landed, the unpaired requests
/// in landing order, each turn's paired generations (parallel to the order),
/// the edits with the count of turns before them, whether the record carries
/// the recall kind, the flush no recall has followed yet, and the first flush
/// a request met instead.
#[verifier::ext_equal]
pub struct WalkState {
    pub run: Option<Seq<char>>,
    pub order: Seq<Seq<char>>,
    pub pending: Seq<(Seq<char>, PendingView)>,
    pub paired: Seq<Seq<GenerationView>>,
    pub edits: Seq<(usize, Edit)>,
    pub carries_recall: bool,
    pub flushed: Option<Seq<char>>,
    pub unaccounted: Option<(Seq<char>, Seq<char>)>,
}

pub open spec fn initial_walk() -> WalkState {
    WalkState {
        run: None,
        order: Seq::empty(),
        pending: Seq::empty(),
        paired: Seq::empty(),
        edits: Seq::empty(),
        carries_recall: false,
        flushed: None,
        unaccounted: None,
    }
}

/// The turns the unpaired requests stand in.
pub open spec fn keys_of(pending: Seq<(Seq<char>, PendingView)>) -> Seq<Seq<char>> {
    pending.map_values(|entry: (Seq<char>, PendingView)| entry.0)
}

/// The least of the keys in string order, the first a sorted map yields.
pub open spec fn least_of(keys: Seq<Seq<char>>) -> Seq<char>
    decreases keys.len(),
{
    if keys.len() <= 1 {
        keys[0]
    } else {
        let rest = least_of(keys.drop_last());
        if text_less(keys.last(), rest) {
            keys.last()
        } else {
            rest
        }
    }
}

/// `i` is the first unpaired request in turn `turn`.
pub open spec fn first_pending_at(pending: Seq<(Seq<char>, PendingView)>, turn: Seq<char>, i: int) -> bool {
    &&& 0 <= i < pending.len()
    &&& pending[i].0 == turn
    &&& forall|j: int| 0 <= j < i ==> pending[j].0 != turn
}

/// `i` is the first place `turn` stands in the order.
pub open spec fn first_turn_at(order: Seq<Seq<char>>, turn: Seq<char>, i: int) -> bool {
    &&& 0 <= i < order.len()
    &&& order[i] == turn
    &&& forall|j: int| 0 <= j < i ==> order[j] != turn
}

pub open spec fn span_message(held: Seq<char>, run: Seq<char>) -> Seq<char> {
    "the holdings span runs "@ + held + " and "@ + run + ", and this pass replays one"@
}

/// A request: it joins the order where its turn is new, refuses a turn that
/// resumes after another intervened or already stands unpaired, accounts a
/// pending flush to its turn, and stands unpaired.
pub open spec fn request_step(s: WalkState, e: RecalledView) -> Result<WalkState, Seq<char>> {
    match e.turn {
        None => Err("a model.request carries no turn"@),
        Some(t) => if s.order.contains(t) && s.order.last() != t {
            Err("turn "@ + t + " resumes after another turn intervened"@)
        } else if exists|i: int| first_pending_at(s.pending, t, i) {
            Err("two model.request events stand unpaired in turn "@ + t)
        } else {
            match request_spec(e.pairs, t) {
                Err(m) => Err(m),
                Ok(r) => Ok(
                    WalkState {
                        order: if s.order.contains(t) { s.order } else { s.order.push(t) },
                        paired: if s.order.contains(t) { s.paired } else { s.paired.push(Seq::empty()) },
                        pending: s.pending.push((t, r)),
                        flushed: None,
                        unaccounted: match s.flushed {
                            Some(f) => if s.unaccounted is None { Some((f, t)) } else { s.unaccounted },
                            None => s.unaccounted,
                        },
                        ..s
                    },
                ),
            }
        },
    }
}

/// A measurement: it pairs with the unpaired request of its turn, and the
/// generation joins that turn's.
pub open spec fn measurement_step(s: WalkState, e: RecalledView) -> Result<WalkState, Seq<char>> {
    match e.turn {
        None => Err("a model.measurement carries no turn"@),
        Some(t) => if exists|i: int| first_pending_at(s.pending, t, i) {
            let i = choose|i: int| first_pending_at(s.pending, t, i);
            match measurement_spec(e.pairs, t, s.pending[i].1) {
                Err(m) => Err(m),
                Ok(g) => if exists|k: int| first_turn_at(s.order, t, k) {
                    let k = choose|k: int| first_turn_at(s.order, t, k);
                    Ok(
                        WalkState {
                            pending: s.pending.remove(i),
                            paired: s.paired.update(k, s.paired[k].push(g)),
                            ..s
                        },
                    )
                } else {
                    Ok(WalkState { pending: s.pending.remove(i), ..s })
                },
            }
        } else {
            Err("a model.measurement in turn "@ + t + " has no preceding unpaired request"@)
        },
    }
}

pub open spec fn count_message(kind: Seq<char>, sequence: Seq<char>, key: Seq<char>) -> Seq<char> {
    "the "@ + kind + " at sequence "@ + sequence + " holds no "@ + key
}

/// The count the event pairs with `key`, read as `u64`'s `FromStr` reads it.
pub open spec fn count_of(e: RecalledView, key: Seq<char>) -> Option<u64> {
    match pair_of(e.pairs, key) {
        Some(raw) => parsed_count(raw),
        None => None,
    }
}

/// A flush or an elision: a step of the walk placed after the turns before
/// it, refused while a request stands unpaired or where a count is missing.
pub open spec fn edit_step(s: WalkState, e: RecalledView) -> Result<WalkState, Seq<char>> {
    if s.pending.len() > 0 {
        Err("a "@ + e.kind + " lands inside turn "@ + least_of(keys_of(s.pending)))
    } else if e.kind == "flush"@ {
        match count_of(e, "resident_before"@) {
            None => Err(count_message(e.kind, e.sequence, "resident_before"@)),
            Some(before) => match count_of(e, "resident_after"@) {
                None => Err(count_message(e.kind, e.sequence, "resident_after"@)),
                Some(after) => Ok(
                    WalkState {
                        edits: s.edits.push((s.order.len() as usize, Edit::Flush { before, after })),
                        flushed: Some(e.sequence),
                        ..s
                    },
                ),
            },
        }
    } else {
        match count_of(e, "from"@) {
            None => Err(count_message(e.kind, e.sequence, "from"@)),
            Some(from) => match count_of(e, "to"@) {
                None => Err(count_message(e.kind, e.sequence, "to"@)),
                Some(to) => match count_of(e, "resident_before"@) {
                    None => Err(count_message(e.kind, e.sequence, "resident_before"@)),
                    Some(before) => match count_of(e, "resident_after"@) {
                        None => Err(count_message(e.kind, e.sequence, "resident_after"@)),
                        Some(after) => Ok(
                            WalkState {
                                edits: s.edits.push(
                                    (s.order.len() as usize, Edit::Elision { from, to, before, after }),
                                ),
                                ..s
                            },
                        ),
                    },
                },
            },
        }
    }
}

/// The verb a recall event's ask names, where the ask parses and names one.
pub open spec fn recall_verb(e: RecalledView) -> Option<Seq<char>> {
    match pair_of(e.pairs, "ask"@) {
        None => None,
        Some(raw) => match json_member_of(raw, "verb"@) {
            None => None,
            Some(verb) => json_text_of(verb),
        },
    }
}

pub open spec fn fault_message(sequence: Seq<char>) -> Seq<char> {
    "the source's open recorded an identity_prefix_unrecorded fault at sequence "@ + sequence
        + ", so its opening input is not in the record"@
}

/// One event of the walk, after the run is checked: requests, measurements,
/// edits and recalls move the state, an unrecorded opening refuses, and every
/// other kind passes by.
pub open spec fn kind_step(s: WalkState, e: RecalledView) -> Result<WalkState, Seq<char>> {
    if e.kind == "model.request"@ {
        request_step(s, e)
    } else if e.kind == "model.measurement"@ {
        measurement_step(s, e)
    } else if e.kind == "flush"@ || e.kind == "elision"@ {
        edit_step(s, e)
    } else if e.kind == "recall"@ {
        Ok(
            WalkState {
                carries_recall: true,
                flushed: if recall_verb(e) == Some("recall"@) { None } else { s.flushed },
                ..s
            },
        )
    } else if e.kind == "fault"@ && pair_of(e.pairs, "case"@) == Some(
        "\"identity_prefix_unrecorded\""@,
    ) {
        Err(fault_message(e.sequence))
    } else {
        Ok(s)
    }
}

/// One event of the walk: the holdings replay one run, so a second run
/// refuses.
pub open spec fn step(s: WalkState, e: RecalledView) -> Result<WalkState, Seq<char>> {
    match s.run {
        Some(held) => if held != e.run {
            Err(span_message(held, e.run))
        } else {
            kind_step(WalkState { run: Some(e.run), ..s }, e)
        },
        None => kind_step(WalkState { run: Some(e.run), ..s }, e),
    }
}

/// The walk over the holdings in landing order, stopping at the first
/// refusal.
pub open spec fn walk(events: Seq<RecalledView>) -> Result<WalkState, Seq<char>>
    decreases events.len(),
{
    if events.len() == 0 {
        Ok(initial_walk())
    } else {
        match walk(events.drop_last()) {
            Err(m) => Err(m),
            Ok(s) => step(s, events.last()),
        }
    }
}

/// The holdings grouped: the recorded turns in landing order, each with its
/// generations, and each edit with the number of turns before it.
#[verifier::ext_equal]
pub struct GroupedView {
    pub turns: Seq<(Seq<char>, Seq<GenerationView>)>,
    pub edits: Seq<(usize, Edit)>,
}

/// `k` is the first turn that paired no generation.
pub open spec fn first_unpaired_at(paired: Seq<Seq<GenerationView>>, k: int) -> bool {
    &&& 0 <= k < paired.len()
    &&& paired[k].len() == 0
    &&& forall|j: int| 0 <= j < k ==> paired[j].len() > 0
}

pub open spec fn unaccounted_message(flush: Seq<char>, turn: Seq<char>) -> Seq<char> {
    "the flush at sequence "@ + flush + " is followed by turn "@ + turn
        + "'s request with no recall between them, on a record that carries the recall kind, so the post-flush input's provenance is not in the record"@
}

/// The walk's end: a request left unpaired refuses, a flush no recall
/// accounted for refuses on a record that carries the recall kind, and a
/// turn with no generation refuses.
pub open spec fn finish(s: WalkState) -> Result<GroupedView, Seq<char>> {
    if s.pending.len() > 0 {
        Err("a model.request in turn "@ + least_of(keys_of(s.pending)) + " pairs with nothing"@)
    } else if s.carries_recall && s.unaccounted is Some {
        let (flush, turn) = s.unaccounted.unwrap();
        Err(unaccounted_message(flush, turn))
    } else if exists|k: int| first_unpaired_at(s.paired, k) {
        let k = choose|k: int| first_unpaired_at(s.paired, k);
        Err("turn "@ + s.order[k] + " pairs no generation"@)
    } else {
        Ok(
            GroupedView {
                turns: Seq::new(s.order.len(), |k: int| (s.order[k], s.paired[k])),
                edits: s.edits,
            },
        )
    }
}

/// The grouping rule: events group by run and turn in landing order,
/// requests pairing to the first unpaired measurement after them within one
/// turn, edits placed between turns, and a grouping the record does not
/// determine refused with the reason.
pub open spec fn group_spec(events: Seq<RecalledView>) -> Result<GroupedView, Seq<char>> {
    match walk(events) {
        Err(m) => Err(m),
        Ok(s) => finish(s),
    }
}

/// The holdings' events as custody served them, each by its characters.
pub open spec fn recalled_views(events: Seq<Recalled>) -> Seq<RecalledView> {
    events.map_values(|e: Recalled| e@)
}

/// The generations' members, in order.
pub open spec fn generations_view(g: Seq<SourceGeneration>) -> Seq<GenerationView> {
    g.map_values(|x: SourceGeneration| x@)
}

/// Each turn by its name's characters and its generations' members.
pub open spec fn turns_view(turns: Seq<(String, Vec<SourceGeneration>)>) -> Seq<
    (Seq<char>, Seq<GenerationView>),
> {
    turns.map_values(|t: (String, Vec<SourceGeneration>)| (t.0@, generations_view(t.1@)))
}

/// The holdings grouped: the recorded turns in landing order, each with its
/// generations, and each edit with the number of turns before it.
pub struct Grouped {
    pub turns: Vec<(String, Vec<SourceGeneration>)>,
    pub edits: Vec<(usize, Edit)>,
}

impl View for Grouped {
    type V = GroupedView;

    open spec fn view(&self) -> GroupedView {
        GroupedView {
            turns: turns_view(self.turns@),
            edits: self.edits@,
        }
    }
}

/// The grouping walk as it runs; its state is the walk's state.
struct Walk {
    run: Option<String>,
    order: Vec<String>,
    pending: Vec<(String, PendingRequest)>,
    paired: Vec<Vec<SourceGeneration>>,
    edits: Vec<(usize, Edit)>,
    carries_recall: bool,
    flushed: Option<String>,
    unaccounted: Option<(String, String)>,
}

spec fn order_view(o: Seq<String>) -> Seq<Seq<char>> {
    o.map_values(|t: String| t@)
}

spec fn pending_view(p: Seq<(String, PendingRequest)>) -> Seq<(Seq<char>, PendingView)> {
    p.map_values(|e: (String, PendingRequest)| (e.0@, e.1@))
}

spec fn paired_view(p: Seq<Vec<SourceGeneration>>) -> Seq<Seq<GenerationView>> {
    p.map_values(|g: Vec<SourceGeneration>| generations_view(g@))
}

spec fn unaccounted_view(u: Option<(String, String)>) -> Option<(Seq<char>, Seq<char>)> {
    match u {
        Some(p) => Some((p.0@, p.1@)),
        None => None,
    }
}

impl Walk {
    spec fn state(&self) -> WalkState {
        WalkState {
            run: text_of(self.run),
            order: order_view(self.order@),
            pending: pending_view(self.pending@),
            paired: paired_view(self.paired@),
            edits: self.edits@,
            carries_recall: self.carries_recall,
            flushed: text_of(self.flushed),
            unaccounted: unaccounted_view(self.unaccounted),
        }
    }

    /// Each turn in the order has its place among the paired generations.
    spec fn wf(&self) -> bool {
        self.paired@.len() == self.order@.len()
    }
}

/// The exec walk's outcome is the spec walk's.
spec fn walked(r: Result<Walk, String>, s: Result<WalkState, Seq<char>>) -> bool {
    match r {
        Ok(w) => s == Ok::<WalkState, Seq<char>>(w.state()) && w.wf(),
        Err(m) => s == Err::<WalkState, Seq<char>>(m@),
    }
}

/// The first place `turn` stands in the order, if it stands there.
fn find_turn(order: &Vec<String>, turn: &str) -> (at: Option<usize>)
    ensures
        match at {
            Some(k) => first_turn_at(order_view(order@), turn@, k as int),
            None => !order_view(order@).contains(turn@),
        },
{
    let mut k: usize = 0;
    while k < order.len()
        invariant
            k <= order@.len(),
            forall|j: int| 0 <= j < k ==> order_view(order@)[j] != turn@,
        decreases order@.len() - k,
    {
        if same_text(order[k].as_str(), turn) {
            return Some(k);
        }
        k = k + 1;
    }
    None
}

/// The first unpaired request standing in `turn`, if one stands.
fn find_pending(pending: &Vec<(String, PendingRequest)>, turn: &str) -> (at: Option<usize>)
    ensures
        match at {
            Some(i) => first_pending_at(pending_view(pending@), turn@, i as int),
            None => forall|j: int|
                0 <= j < pending@.len() ==> pending_view(pending@)[j].0 != turn@,
        },
{
    let mut i: usize = 0;
    while i < pending.len()
        invariant
            i <= pending@.len(),
            forall|j: int| 0 <= j < i ==> pending_view(pending@)[j].0 != turn@,
        decreases pending@.len() - i,
    {
        if same_text(pending[i].0.as_str(), turn) {
            return Some(i);
        }
        i = i + 1;
    }
    None
}

/// The least turn among the unpaired requests, the first a sorted map yields.
fn least_pending(pending: &Vec<(String, PendingRequest)>) -> (least: String)
    requires
        pending@.len() > 0,
    ensures
        least@ == least_of(keys_of(pending_view(pending@))),
{
    let ghost keys = keys_of(pending_view(pending@));
    let mut best: usize = 0;
    let mut i: usize = 1;
    proof {
        assert(keys.take(1).len() == 1);
    }
    while i < pending.len()
        invariant
            keys == keys_of(pending_view(pending@)),
            1 <= i <= pending@.len(),
            best < i,
            keys[best as int] == least_of(keys.take(i as int)),
        decreases pending@.len() - i,
    {
        proof {
            assert(keys.take(i + 1).drop_last() =~= keys.take(i as int));
        }
        if less_text(pending[i].0.as_str(), pending[best].0.as_str()) {
            best = i;
        }
        i = i + 1;
    }
    proof {
        assert(keys.take(i as int) =~= keys);
    }
    pending[best].0.clone()
}

/// The count the event pairs with `key`.
fn count(e: &Recalled, key: &str) -> (c: Option<u64>)
    ensures
        c == count_of(e@, key@),
{
    match pair(e, key) {
        Some(raw) => parse_count(raw),
        None => None,
    }
}

/// The refusal naming the count an edit lacks.
fn count_missing(e: &Recalled, key: &str) -> (m: String)
    ensures
        m@ == count_message(e@.kind, e@.sequence, key@),
{
    let mut m = cat4("the ", e.kind.as_str(), " at sequence ", e.sequence.as_str());
    m.append(" holds no ");
    m.append(key);
    m
}

/// The verb a recall's ask names.
fn ask_verb(e: &Recalled) -> (verb: Option<String>)
    ensures
        text_of(verb) == recall_verb(e@),
{
    match pair(e, "ask") {
        None => None,
        Some(raw) => match json_member(raw, "verb") {
            None => None,
            Some(verb) => json_text(verb.as_str()),
        },
    }
}

/// A request's step of the walk.
fn request_step_exec(w: Walk, e: &Recalled) -> (r: Result<Walk, String>)
    requires
        w.wf(),
    ensures
        walked(r, request_step(w.state(), e@)),
{
    let ghost s = w.state();
    let turn: &String = match &e.turn {
        Some(t) => t,
        None => return Err(String::from_str("a model.request carries no turn")),
    };
    let known = find_turn(&w.order, turn.as_str());
    proof {
        if s.order.contains(turn@) {
            let j = choose|j: int| 0 <= j < s.order.len() && s.order[j] == turn@;
            assert(s.order[j] == turn@);
        }
    }
    if known.is_some() && !same_text(w.order[w.order.len() - 1].as_str(), turn.as_str()) {
        return Err(cat3("turn ", turn.as_str(), " resumes after another turn intervened"));
    }
    if find_pending(&w.pending, turn.as_str()).is_some() {
        return Err(cat2("two model.request events stand unpaired in turn ", turn.as_str()));
    }
    let request = match request_members(e, turn.as_str()) {
        Ok(request) => request,
        Err(m) => return Err(m),
    };
    let Walk { run, mut order, mut pending, mut paired, edits, carries_recall, flushed, unaccounted } =
        w;
    if known.is_none() {
        order.push(turn.clone());
        paired.push(Vec::new());
    }
    let unaccounted = match flushed {
        Some(flush) => if unaccounted.is_none() {
            Some((flush, turn.clone()))
        } else {
            unaccounted
        },
        None => unaccounted,
    };
    pending.push((turn.clone(), request));
    let next = Walk {
        run,
        order,
        pending,
        paired,
        edits,
        carries_recall,
        flushed: None,
        unaccounted,
    };
    proof {
        let t = turn@;
        let ex = WalkState {
            order: if s.order.contains(t) { s.order } else { s.order.push(t) },
            paired: if s.order.contains(t) { s.paired } else { s.paired.push(Seq::empty()) },
            pending: s.pending.push((t, request_spec(e@.pairs, t)->Ok_0)),
            flushed: None,
            unaccounted: match s.flushed {
                Some(f) => if s.unaccounted is None { Some((f, t)) } else { s.unaccounted },
                None => s.unaccounted,
            },
            ..s
        };
        assert(next.state().order =~= ex.order);
        if !s.order.contains(t) {
            assert(next.state().paired[s.paired.len() as int] =~= Seq::<GenerationView>::empty());
        }
        assert(next.state().paired =~= ex.paired);
        assert(next.state().pending =~= ex.pending);
        assert(next.state() =~= ex);
    }
    Ok(next)
}

/// A measurement's step of the walk.
fn measurement_step_exec(w: Walk, e: &Recalled) -> (r: Result<Walk, String>)
    requires
        w.wf(),
    ensures
        walked(r, measurement_step(w.state(), e@)),
{
    let ghost s = w.state();
    let turn: &String = match &e.turn {
        Some(t) => t,
        None => return Err(String::from_str("a model.measurement carries no turn")),
    };
    let i = match find_pending(&w.pending, turn.as_str()) {
        Some(i) => i,
        None => return Err(
            cat3("a model.measurement in turn ", turn.as_str(), " has no preceding unpaired request"),
        ),
    };
    proof {
        assert forall|j: int| first_pending_at(s.pending, turn@, j) implies j == i by {
            if j < i {
                assert(s.pending[j].0 != turn@);
            } else if j > i {
                assert(s.pending[i as int].0 != turn@);
            }
        }
    }
    let Walk { run, order, mut pending, mut paired, edits, carries_recall, flushed, unaccounted } =
        w;
    let (_, request) = pending.remove(i);
    let generation = match measurement_members(e, turn.as_str(), request) {
        Ok(generation) => generation,
        Err(m) => return Err(m),
    };
    let ghost g = generation@;
    let at = find_turn(&order, turn.as_str());
    match at {
        Some(k) => {
            paired[k].push(generation);
        },
        None => {},
    }
    let next = Walk { run, order, pending, paired, edits, carries_recall, flushed, unaccounted };
    proof {
        assert(next.state().pending =~= s.pending.remove(i as int));
        match at {
            Some(k) => {
                assert forall|j: int| first_turn_at(s.order, turn@, j) implies j == k by {
                    if j < k {
                        assert(s.order[j] != turn@);
                    } else if j > k {
                        assert(s.order[k as int] != turn@);
                    }
                }
                assert(next.state().paired[k as int] =~= s.paired[k as int].push(g));
                assert(next.state().paired =~= s.paired.update(k as int, s.paired[k as int].push(g)));
            },
            None => {
                assert(!exists|k: int| first_turn_at(s.order, turn@, k));
                assert(next.state().paired =~= s.paired);
            },
        }
    }
    Ok(next)
}

/// An edit's step of the walk.
fn edit_step_exec(w: Walk, e: &Recalled) -> (r: Result<Walk, String>)
    requires
        w.wf(),
    ensures
        walked(r, edit_step(w.state(), e@)),
{
    let ghost s = w.state();
    if w.pending.len() > 0 {
        let least = least_pending(&w.pending);
        return Err(cat4("a ", e.kind.as_str(), " lands inside turn ", least.as_str()));
    }
    let Walk { run, order, pending, paired, mut edits, carries_recall, flushed, unaccounted } = w;
    if same_text(e.kind.as_str(), "flush") {
        let before = match count(e, "resident_before") {
            Some(c) => c,
            None => return Err(count_missing(e, "resident_before")),
        };
        let after = match count(e, "resident_after") {
            Some(c) => c,
            None => return Err(count_missing(e, "resident_after")),
        };
        edits.push((order.len(), Edit::Flush { before, after }));
        let next = Walk {
            run,
            order,
            pending,
            paired,
            edits,
            carries_recall,
            flushed: Some(e.sequence.clone()),
            unaccounted,
        };
        proof {
            assert(next.state() =~= WalkState {
                edits: s.edits.push((s.order.len() as usize, Edit::Flush { before, after })),
                flushed: Some(e@.sequence),
                ..s
            });
        }
        Ok(next)
    } else {
        let from = match count(e, "from") {
            Some(c) => c,
            None => return Err(count_missing(e, "from")),
        };
        let to = match count(e, "to") {
            Some(c) => c,
            None => return Err(count_missing(e, "to")),
        };
        let before = match count(e, "resident_before") {
            Some(c) => c,
            None => return Err(count_missing(e, "resident_before")),
        };
        let after = match count(e, "resident_after") {
            Some(c) => c,
            None => return Err(count_missing(e, "resident_after")),
        };
        edits.push((order.len(), Edit::Elision { from, to, before, after }));
        let next = Walk { run, order, pending, paired, edits, carries_recall, flushed, unaccounted };
        proof {
            assert(next.state() =~= WalkState {
                edits: s.edits.push(
                    (s.order.len() as usize, Edit::Elision { from, to, before, after }),
                ),
                ..s
            });
        }
        Ok(next)
    }
}

/// One event's step of the walk once the run is checked.
fn kind_step_exec(w: Walk, e: &Recalled) -> (r: Result<Walk, String>)
    requires
        w.wf(),
    ensures
        walked(r, kind_step(w.state(), e@)),
{
    let kind = e.kind.as_str();
    if same_text(kind, "model.request") {
        request_step_exec(w, e)
    } else if same_text(kind, "model.measurement") {
        measurement_step_exec(w, e)
    } else if same_text(kind, "flush") || same_text(kind, "elision") {
        edit_step_exec(w, e)
    } else if same_text(kind, "recall") {
        let ghost s = w.state();
        let verb = ask_verb(e);
        let is_recall = match &verb {
            Some(v) => same_text(v.as_str(), "recall"),
            None => false,
        };
        let Walk { run, order, pending, paired, edits, carries_recall, flushed, unaccounted } = w;
        let next = Walk {
            run,
            order,
            pending,
            paired,
            edits,
            carries_recall: true,
            flushed: if is_recall {
                None
            } else {
                flushed
            },
            unaccounted,
        };
        proof {
            assert(next.state() =~= WalkState {
                carries_recall: true,
                flushed: if recall_verb(e@) == Some("recall"@) { None } else { s.flushed },
                ..s
            });
        }
        Ok(next)
    } else if same_text(kind, "fault") && match pair(e, "case") {
        Some(case) => same_text(case, "\"identity_prefix_unrecorded\""),
        None => false,
    } {
        Err(
            cat3(
                "the source's open recorded an identity_prefix_unrecorded fault at sequence ",
                e.sequence.as_str(),
                ", so its opening input is not in the record",
            ),
        )
    } else {
        Ok(w)
    }
}

/// One event's step of the walk.
fn step_exec(w: Walk, e: &Recalled) -> (r: Result<Walk, String>)
    requires
        w.wf(),
    ensures
        walked(r, step(w.state(), e@)),
{
    let mut w = w;
    match &w.run {
        Some(held) => {
            if !same_text(held.as_str(), e.run.as_str()) {
                return Err(
                    cat5(
                        "the holdings span runs ",
                        held.as_str(),
                        " and ",
                        e.run.as_str(),
                        ", and this pass replays one",
                    ),
                );
            }
        },
        None => {},
    }
    let ghost s = w.state();
    w.run = Some(e.run.clone());
    proof {
        assert(w.state() =~= WalkState { run: Some(e@.run), ..s });
    }
    kind_step_exec(w, e)
}

/// The walk's end, from the exec walk.
fn finish_exec(w: Walk) -> (r: Result<Grouped, String>)
    requires
        w.wf(),
    ensures
        match r {
            Ok(g) => finish(w.state()) == Ok::<GroupedView, Seq<char>>(g@),
            Err(m) => finish(w.state()) == Err::<GroupedView, Seq<char>>(m@),
        },
{
    let ghost s = w.state();
    if w.pending.len() > 0 {
        let least = least_pending(&w.pending);
        return Err(cat3("a model.request in turn ", least.as_str(), " pairs with nothing"));
    }
    if w.carries_recall {
        match &w.unaccounted {
            Some((flush, turn)) => {
                return Err(
                    cat5(
                        "the flush at sequence ",
                        flush.as_str(),
                        " is followed by turn ",
                        turn.as_str(),
                        "'s request with no recall between them, on a record that carries the recall kind, so the post-flush input's provenance is not in the record",
                    ),
                );
            },
            None => {},
        }
    }
    let mut k: usize = 0;
    while k < w.paired.len()
        invariant
            w.wf(),
            s == w.state(),
            s.pending.len() == 0,
            !(s.carries_recall && s.unaccounted is Some),
            k <= w.paired@.len(),
            forall|j: int| 0 <= j < k ==> s.paired[j].len() > 0,
        decreases w.paired@.len() - k,
    {
        if w.paired[k].len() == 0 {
            proof {
                assert(first_unpaired_at(s.paired, k as int));
                assert forall|j: int| first_unpaired_at(s.paired, j) implies j == k by {
                    if j > k {
                        assert(s.paired[k as int].len() > 0);
                    }
                }
            }
            let m = cat3("turn ", w.order[k].as_str(), " pairs no generation");
            proof {
                assert(s.order[k as int] == w.order@[k as int]@);
                assert(s.pending.len() == 0);
                assert(!(s.carries_recall && s.unaccounted is Some));
                assert(exists|j: int| first_unpaired_at(s.paired, j));
                assert(finish(s) == Err::<GroupedView, Seq<char>>(m@));
            }
            return Err(m);
        }
        k = k + 1;
    }
    let Walk { run, mut order, pending, mut paired, edits, carries_recall, flushed, unaccounted } =
        w;
    let ghost n = order@.len();
    let mut turns: Vec<(String, Vec<SourceGeneration>)> = Vec::new();
    while order.len() > 0
        invariant
            order@.len() == paired@.len(),
            order@.len() <= n,
            order_view(order@) =~= s.order.take(order@.len() as int),
            paired_view(paired@) =~= s.paired.take(order@.len() as int),
            s.order.len() == n,
            s.paired.len() == n,
            turns_view(turns@) =~= Seq::new(
                (n - order@.len()) as nat,
                |j: int| (s.order[order@.len() + j], s.paired[order@.len() + j]),
            ),
        decreases order@.len(),
    {
        let ghost before_order = order@;
        let ghost before_paired = paired@;
        let ghost before_turns = turns@;
        let ghost last = (order@.len() - 1) as int;
        let turn = order.pop().unwrap();
        let generations = paired.pop().unwrap();
        proof {
            assert(order_view(before_order)[last] == s.order.take(last + 1)[last]);
            assert(paired_view(before_paired)[last] == s.paired.take(last + 1)[last]);
            assert(order_view(order@) =~= order_view(before_order).drop_last());
            assert(paired_view(paired@) =~= paired_view(before_paired).drop_last());
            assert(s.order.take(last + 1).drop_last() =~= s.order.take(last));
            assert(s.paired.take(last + 1).drop_last() =~= s.paired.take(last));
        }
        turns.insert(0, (turn, generations));
        proof {
            let now = turns_view(turns@);
            let then = turns_view(before_turns);
            assert(now.len() == then.len() + 1);
            assert(now[0] == (s.order[last], s.paired[last]));
            assert forall|j: int| 0 < j < now.len() implies now[j] == (
                s.order[last + j],
                s.paired[last + j],
            ) by {
                assert(turns@[j] == before_turns[j - 1]);
                assert(then[j - 1] == (s.order[last + 1 + (j - 1)], s.paired[last + 1 + (j - 1)]));
            }
        }
    }
    let grouped = Grouped { turns, edits };
    proof {
        assert(!exists|k: int| first_unpaired_at(s.paired, k));
        assert(grouped@ =~= GroupedView {
            turns: Seq::new(s.order.len(), |k: int| (s.order[k], s.paired[k])),
            edits: s.edits,
        });
    }
    Ok(grouped)
}

/// The walk's standing shape: one generation list per turn, each turn once
/// in the order, and every edit placed after no more turns than stand, the
/// edits in the order of their places.
pub open spec fn walk_shaped(s: WalkState) -> bool {
    &&& s.paired.len() == s.order.len()
    &&& forall|i: int, j: int|
        0 <= i < j < s.order.len() ==> #[trigger] s.order[i] != #[trigger] s.order[j]
    &&& forall|i: int| 0 <= i < s.edits.len() ==> #[trigger] s.edits[i].0 <= s.order.len()
    &&& forall|i: int, j: int|
        0 <= i < j < s.edits.len() ==> #[trigger] s.edits[i].0 <= #[trigger] s.edits[j].0
}

proof fn lemma_step_keeps_shape(s: WalkState, e: RecalledView)
    requires
        walk_shaped(s),
        s.order.len() < usize::MAX,
    ensures
        step(s, e) matches Ok(n) ==> walk_shaped(n) && n.order.len() <= s.order.len() + 1,
{
    let r = WalkState { run: Some(e.run), ..s };
    assert(walk_shaped(r));
    if e.kind == "model.request"@ {
        if let Ok(n) = request_step(r, e) {
            let t = e.turn->0;
            if !r.order.contains(t) {
                assert forall|i: int, j: int| 0 <= i < j < n.order.len() implies #[trigger] n.order[i]
                    != #[trigger] n.order[j] by {
                    if j == r.order.len() {
                        assert(n.order[j] == t);
                        assert(n.order[i] == r.order[i]);
                        if r.order[i] == t {
                            assert(r.order.contains(t));
                        }
                    } else {
                        assert(n.order[i] == r.order[i]);
                        assert(n.order[j] == r.order[j]);
                    }
                }
            }
        }
    } else if e.kind == "model.measurement"@ {
        if let Ok(n) = measurement_step(r, e) {
            assert(n.paired.len() == r.paired.len());
        }
    } else if e.kind == "flush"@ || e.kind == "elision"@ {
        if let Ok(n) = edit_step(r, e) {
            let place = r.order.len() as usize;
            assert(place == r.order.len());
            assert(n.edits == r.edits.push((place, n.edits.last().1)));
            assert forall|i: int| 0 <= i < n.edits.len() implies #[trigger] n.edits[i].0 <= n.order.len() by {
                if i < r.edits.len() {
                    assert(n.edits[i] == r.edits[i]);
                }
            }
            assert forall|i: int, j: int| 0 <= i < j < n.edits.len() implies #[trigger] n.edits[i].0
                <= #[trigger] n.edits[j].0 by {
                assert(n.edits[i] == r.edits[i]);
                if j < r.edits.len() {
                    assert(n.edits[j] == r.edits[j]);
                } else {
                    assert(n.edits[j].0 == place);
                    assert(r.edits[i].0 <= r.order.len());
                }
            }
        }
    }
}

proof fn lemma_walk_shaped(events: Seq<RecalledView>)
    requires
        events.len() <= usize::MAX,
    ensures
        walk(events) matches Ok(s) ==> walk_shaped(s) && s.order.len() <= events.len(),
    decreases events.len(),
{
    if events.len() > 0 {
        lemma_walk_shaped(events.drop_last());
        if let Ok(s) = walk(events.drop_last()) {
            lemma_step_keeps_shape(s, events.last());
        }
    }
}

proof fn lemma_a_turn_without_generation_is_found(paired: Seq<Seq<GenerationView>>, k: int)
    requires
        0 <= k < paired.len(),
        paired[k].len() == 0,
    ensures
        exists|f: int| first_unpaired_at(paired, f),
    decreases k,
{
    if forall|j: int| 0 <= j < k ==> paired[j].len() > 0 {
        assert(first_unpaired_at(paired, k));
    } else {
        let j = choose|j: int| 0 <= j < k && paired[j].len() == 0;
        lemma_a_turn_without_generation_is_found(paired, j);
    }
}

/// **A grouping holds each turn once, every turn with a generation, and the
/// edits between turns in the order they fell.** Where the holdings group, no
/// turn name stands twice (a turn resuming after another is refused); every
/// turn pairs at least one generation; and each edit is placed after no more
/// turns than the grouping holds, the edits' places never going back.
pub proof fn lemma_grouping_shape(events: Seq<RecalledView>)
    requires
        events.len() <= usize::MAX,
    ensures
        group_spec(events) matches Ok(g) ==> {
            &&& forall|i: int, j: int|
                0 <= i < j < g.turns.len() ==> #[trigger] g.turns[i].0 != #[trigger] g.turns[j].0
            &&& forall|k: int| 0 <= k < g.turns.len() ==> #[trigger] g.turns[k].1.len() > 0
            &&& forall|i: int| 0 <= i < g.edits.len() ==> #[trigger] g.edits[i].0 <= g.turns.len()
            &&& forall|i: int, j: int|
                0 <= i < j < g.edits.len() ==> #[trigger] g.edits[i].0 <= #[trigger] g.edits[j].0
        },
{
    lemma_walk_shaped(events);
    if let Ok(s) = walk(events) {
        if let Ok(g) = finish(s) {
            assert(!exists|f: int| first_unpaired_at(s.paired, f));
            assert forall|k: int| 0 <= k < g.turns.len() implies #[trigger] g.turns[k].1.len() > 0 by {
                assert(g.turns[k].1 == s.paired[k]);
                if s.paired[k].len() == 0 {
                    lemma_a_turn_without_generation_is_found(s.paired, k);
                }
            }
            assert forall|i: int, j: int| 0 <= i < j < g.turns.len() implies #[trigger] g.turns[i].0
                != #[trigger] g.turns[j].0 by {
                assert(g.turns[i].0 == s.order[i]);
                assert(g.turns[j].0 == s.order[j]);
            }
        }
    }
}

/// **The grouping refuses whole.** Once the walk refuses at some event, the
/// holdings are refused with that reason, whatever follows.
pub proof fn lemma_refusal_stands(events: Seq<RecalledView>, i: int, m: Seq<char>)
    requires
        0 <= i <= events.len(),
        walk(events.take(i)) == Err::<WalkState, Seq<char>>(m),
    ensures
        walk(events) == Err::<WalkState, Seq<char>>(m),
    decreases events.len() - i,
{
    if i < events.len() {
        assert(events.take(i + 1).drop_last() =~= events.take(i));
        lemma_refusal_stands(events, i + 1, m);
    } else {
        assert(events.take(i) =~= events);
    }
}

/// The grouping rule over the served holdings: the recorded turns in landing
/// order with their generations and the edits between them, or the reason
/// the record does not determine them.
pub fn group(events: &[Recalled]) -> (grouped: Result<Grouped, String>)
    ensures
        match grouped {
            Ok(g) => group_spec(recalled_views(events@)) == Ok::<GroupedView, Seq<char>>(g@),
            Err(m) => group_spec(recalled_views(events@)) == Err::<GroupedView, Seq<char>>(m@),
        },
{
    let ghost views = recalled_views(events@);
    let mut w = Walk {
        run: None,
        order: Vec::new(),
        pending: Vec::new(),
        paired: Vec::new(),
        edits: Vec::new(),
        carries_recall: false,
        flushed: None,
        unaccounted: None,
    };
    proof {
        assert(views.take(0) =~= Seq::<RecalledView>::empty());
        assert(w.state() =~= initial_walk());
    }
    let mut i: usize = 0;
    while i < events.len()
        invariant
            views == recalled_views(events@),
            i <= events@.len(),
            w.wf(),
            walk(views.take(i as int)) == Ok::<WalkState, Seq<char>>(w.state()),
        decreases events@.len() - i,
    {
        proof {
            assert(views.take(i + 1).drop_last() =~= views.take(i as int));
            assert(views.take(i + 1).last() == events@[i as int]@);
        }
        w = match step_exec(w, &events[i]) {
            Ok(next) => next,
            Err(m) => {
                proof {
                    lemma_refusal_stands(views, i + 1, m@);
                }
                return Err(m);
            },
        };
        i = i + 1;
    }
    proof {
        assert(views.take(i as int) =~= views);
    }
    finish_exec(w)
}

/// Where a replay first left the recorded path: the position is the resident
/// length at the token, and both identifiers are named.
#[derive(Debug, Clone, Copy, PartialEq, Eq, Structural)]
pub enum Divergence {
    TokenPath { position: u64, recorded: u32, recomputed: u32 },
}

/// One generation's certification.
#[derive(Debug, Clone, PartialEq, Eq)]
pub enum Comparison {
    Matches,
    Diverged(Divergence),
    IdentityBroken(String),
}

/// A certification's characters.
pub enum ComparisonView {
    Matches,
    Diverged(Divergence),
    IdentityBroken(Seq<char>),
}

impl View for Comparison {
    type V = ComparisonView;

    open spec fn view(&self) -> ComparisonView {
        match self {
            Comparison::Matches => ComparisonView::Matches,
            Comparison::Diverged(d) => ComparisonView::Diverged(*d),
            Comparison::IdentityBroken(m) => ComparisonView::IdentityBroken(m@),
        }
    }
}

/// `p` is the first slot both paths hold where they differ.
pub open spec fn first_differ(recorded: Seq<u32>, recomputed: Seq<u32>, p: int) -> bool {
    &&& 0 <= p < recorded.len()
    &&& p < recomputed.len()
    &&& recorded[p] != recomputed[p]
    &&& forall|j: int| 0 <= j < p ==> recorded[j] == recomputed[j]
}

/// The first divergence of two token paths laid from `floor`: the first slot
/// where they differ, else the slot where the shorter ends (the side that
/// holds no token there reads zero), else none.
pub open spec fn token_path(recorded: Seq<u32>, recomputed: Seq<u32>, floor: int) -> Option<
    (int, u32, u32),
> {
    if exists|p: int| first_differ(recorded, recomputed, p) {
        let p = choose|p: int| first_differ(recorded, recomputed, p);
        Some((floor + p, recorded[p], recomputed[p]))
    } else if recorded.len() != recomputed.len() {
        Some(
            (
                floor + if recorded.len() < recomputed.len() {
                    recorded.len() as int
                } else {
                    recomputed.len() as int
                },
                if recomputed.len() < recorded.len() {
                    recorded[recomputed.len() as int]
                } else {
                    0
                },
                if recorded.len() < recomputed.len() {
                    recomputed[recorded.len() as int]
                } else {
                    0
                },
            ),
        )
    } else {
        None
    }
}

/// The divergence `token_path` names, as the record carries it.
pub open spec fn divergence_of(found: Option<(int, u32, u32)>) -> Option<Divergence> {
    match found {
        Some((position, recorded, recomputed)) => Some(
            Divergence::TokenPath { position: position as u64, recorded, recomputed },
        ),
        None => None,
    }
}

/// The first divergence of the recomputed path from the recorded one, laid
/// from `floor`.
pub fn compare_tokens(recorded: &Vec<u32>, recomputed: &Vec<u32>, floor: u64) -> (found: Option<
    Divergence,
>)
    requires
        floor + recomputed@.len() <= u64::MAX,
    ensures
        found == divergence_of(token_path(recorded@, recomputed@, floor as int)),
{
    let mut p: usize = 0;
    while p < recorded.len() && p < recomputed.len()
        invariant
            p <= recorded@.len(),
            p <= recomputed@.len(),
            floor + recomputed@.len() <= u64::MAX,
            forall|j: int| 0 <= j < p ==> recorded@[j] == recomputed@[j],
        decreases recorded@.len() - p,
    {
        if recorded[p] != recomputed[p] {
            proof {
                assert(first_differ(recorded@, recomputed@, p as int));
                assert forall|q: int| first_differ(recorded@, recomputed@, q) implies q == p by {
                    if q < p {
                        assert(recorded@[q] == recomputed@[q]);
                    } else if q > p {
                        assert(recorded@[p as int] == recomputed@[p as int]);
                    }
                }
            }
            return Some(
                Divergence::TokenPath {
                    position: floor + p as u64,
                    recorded: recorded[p],
                    recomputed: recomputed[p],
                },
            );
        }
        p = p + 1;
    }
    proof {
        assert(!exists|q: int| first_differ(recorded@, recomputed@, q));
    }
    if recorded.len() != recomputed.len() {
        let recorded_there: u32 = if recomputed.len() < recorded.len() {
            recorded[recomputed.len()]
        } else {
            0
        };
        let recomputed_there: u32 = if recorded.len() < recomputed.len() {
            recomputed[recorded.len()]
        } else {
            0
        };
        Some(
            Divergence::TokenPath {
                position: floor + p as u64,
                recorded: recorded_there,
                recomputed: recomputed_there,
            },
        )
    } else {
        None
    }
}

/// The closing count's account of a re-fed generation that read as
/// `input` and `output`: the first draw sits the draws and the terminator
/// below the count, the appended input its own length below that, and the
/// recorded paths are held to the recomputed ones from those floors, input
/// first.
pub open spec fn judge_spec(
    source: GenerationView,
    input: Seq<u32>,
    output: Seq<u32>,
    resident: u64,
) -> ComparisonView {
    if resident < output.len() + 1 {
        ComparisonView::IdentityBroken(
            "the re-fed closing count "@ + decimal(resident as nat) + " cannot hold its "@
                + decimal(output.len()) + " draws and the terminator"@,
        )
    } else if resident - output.len() - 1 < input.len() {
        ComparisonView::IdentityBroken(
            "the re-fed closing count "@ + decimal(resident as nat) + " cannot hold its "@
                + decimal(input.len()) + " appended input tokens"@,
        )
    } else {
        let first_draw = resident - output.len() - 1;
        match divergence_of(token_path(source.input_tokens, input, first_draw - input.len())) {
            Some(d) => ComparisonView::Diverged(d),
            None => match divergence_of(token_path(source.output_tokens, output, first_draw)) {
                Some(d) => ComparisonView::Diverged(d),
                None => ComparisonView::Matches,
            },
        }
    }
}

/// The closing count's account of a re-fed generation whose measurement read
/// as `input` and `output`.
pub fn judge(source: &SourceGeneration, input: &Vec<u32>, output: &Vec<u32>, resident: u64) -> (c:
    Comparison)
    ensures
        c@ == judge_spec(source@, input@, output@, resident),
{
    let drawn = output.len() as u64;
    let appended = input.len() as u64;
    if resident <= drawn {
        let mut m = cat2("the re-fed closing count ", decimal_string(resident).as_str());
        m.append(" cannot hold its ");
        m.append(decimal_string(drawn).as_str());
        m.append(" draws and the terminator");
        return Comparison::IdentityBroken(m);
    }
    let first_draw = resident - drawn - 1;
    if first_draw < appended {
        let mut m = cat2("the re-fed closing count ", decimal_string(resident).as_str());
        m.append(" cannot hold its ");
        m.append(decimal_string(appended).as_str());
        m.append(" appended input tokens");
        return Comparison::IdentityBroken(m);
    }
    match compare_tokens(&source.input_tokens, input, first_draw - appended) {
        Some(d) => Comparison::Diverged(d),
        None => match compare_tokens(&source.output_tokens, output, first_draw) {
            Some(d) => Comparison::Diverged(d),
            None => Comparison::Matches,
        },
    }
}

/// The member `key` of `doc`, read as token identifiers.
pub open spec fn member_tokens(doc: Seq<char>, key: Seq<char>) -> Option<Seq<u32>> {
    match json_member_of(doc, key) {
        Some(member) => json_tokens_of(member),
        None => None,
    }
}

/// The member `key` of `doc` is the JSON string `text`.
pub open spec fn member_is_text(doc: Seq<char>, key: Seq<char>, text: Seq<char>) -> bool {
    match json_member_of(doc, key) {
        Some(member) => json_text_of(member) == Some(text),
        None => false,
    }
}

/// A recorded JSON text as the value it parses to is displayed: its compact
/// rendering, or the text itself where it does not parse.
pub open spec fn recorded_shown(raw: Seq<char>) -> Seq<char> {
    match json_canonical_of(raw) {
        Some(canonical) => canonical,
        None => raw,
    }
}

/// One generation's certification: the re-fed answer's request and
/// measurement against the recorded members. Both must parse, the
/// measurement must hold both token paths, the weights hash and the template
/// must be the recorded ones and the sampling the recorded block; then the
/// closing count's account decides.
pub open spec fn compare_spec(
    source: GenerationView,
    request: Seq<char>,
    measurement: Seq<char>,
    resident: u64,
) -> ComparisonView {
    if json_canonical_of(measurement) is None {
        ComparisonView::IdentityBroken("the re-fed measurement does not parse"@)
    } else if json_canonical_of(request) is None {
        ComparisonView::IdentityBroken("the re-fed request does not parse"@)
    } else {
        match member_tokens(measurement, "input_tokens"@) {
            None => ComparisonView::IdentityBroken(
                "the re-fed measurement holds no input_tokens"@,
            ),
            Some(input) => match member_tokens(measurement, "output_tokens"@) {
                None => ComparisonView::IdentityBroken(
                    "the re-fed measurement holds no output_tokens"@,
                ),
                Some(output) => if !member_is_text(
                    measurement,
                    "weights_hash"@,
                    source.weights_hash,
                ) {
                    ComparisonView::IdentityBroken(
                        "the loaded weights hash "@ + json_member_debug_of(
                            measurement,
                            "weights_hash"@,
                        ) + " is not the recorded "@ + source.weights_hash,
                    )
                } else if !member_is_text(request, "template"@, source.template) {
                    ComparisonView::IdentityBroken(
                        "the loaded template "@ + json_member_debug_of(request, "template"@)
                            + " is not the recorded "@ + source.template,
                    )
                } else if !json_member_equals_of(request, "sampling"@, source.sampling) {
                    ComparisonView::IdentityBroken(
                        "the effective sampling "@ + json_member_debug_of(request, "sampling"@)
                            + " is not the recorded "@ + recorded_shown(source.sampling),
                    )
                } else {
                    judge_spec(source, input, output, resident)
                },
            },
        }
    }
}

fn tokens_of_member(doc: &str, key: &str) -> (tokens: Option<Vec<u32>>)
    ensures
        match tokens {
            Some(t) => member_tokens(doc@, key@) == Some(t@),
            None => member_tokens(doc@, key@) is None,
        },
{
    match json_member(doc, key) {
        Some(member) => json_tokens(member.as_str()),
        None => None,
    }
}

fn text_member_is(doc: &str, key: &str, text: &str) -> (is: bool)
    ensures
        is == member_is_text(doc@, key@, text@),
{
    match json_member(doc, key) {
        Some(member) => match json_text(member.as_str()) {
            Some(found) => same_text(found.as_str(), text),
            None => false,
        },
        None => false,
    }
}

/// One generation's certification: the re-fed answer against the recorded
/// members.
pub fn compare(source: &SourceGeneration, refed: &Generation) -> (c: Comparison)
    ensures
        c@ == compare_spec(source@, refed.request@, refed.measurement@, refed.resident),
{
    let measurement = refed.measurement.as_str();
    let request = refed.request.as_str();
    if json_canonical(measurement).is_none() {
        return Comparison::IdentityBroken(String::from_str("the re-fed measurement does not parse"));
    }
    if json_canonical(request).is_none() {
        return Comparison::IdentityBroken(String::from_str("the re-fed request does not parse"));
    }
    let input = match tokens_of_member(measurement, "input_tokens") {
        Some(tokens) => tokens,
        None => return Comparison::IdentityBroken(
            String::from_str("the re-fed measurement holds no input_tokens"),
        ),
    };
    let output = match tokens_of_member(measurement, "output_tokens") {
        Some(tokens) => tokens,
        None => return Comparison::IdentityBroken(
            String::from_str("the re-fed measurement holds no output_tokens"),
        ),
    };
    if !text_member_is(measurement, "weights_hash", source.weights_hash.as_str()) {
        return Comparison::IdentityBroken(
            cat4(
                "the loaded weights hash ",
                json_member_debug(measurement, "weights_hash").as_str(),
                " is not the recorded ",
                source.weights_hash.as_str(),
            ),
        );
    }
    if !text_member_is(request, "template", source.template.as_str()) {
        return Comparison::IdentityBroken(
            cat4(
                "the loaded template ",
                json_member_debug(request, "template").as_str(),
                " is not the recorded ",
                source.template.as_str(),
            ),
        );
    }
    if !json_member_equals(request, "sampling", source.sampling.as_str()) {
        let shown = match json_canonical(source.sampling.as_str()) {
            Some(canonical) => canonical,
            None => String::from_str(source.sampling.as_str()),
        };
        return Comparison::IdentityBroken(
            cat4(
                "the effective sampling ",
                json_member_debug(request, "sampling").as_str(),
                " is not the recorded ",
                shown.as_str(),
            ),
        );
    }
    judge(source, &input, &output, refed.resident)
}

/// Why a replay was abandoned.
#[derive(Debug, Clone, PartialEq, Eq)]
pub enum AbandonReason {
    ReplayAskUnanswered,
    IdentityRefused { detail: String },
}

/// How a replay closed.
#[derive(Debug, Clone, PartialEq, Eq)]
pub enum ReplayOutcome {
    Certified,
    Diverged { divergence: Divergence },
    Abandoned { reason: AbandonReason },
}

/// The identity a replay establishes before any pass: the model, the
/// weights hash and the template the first recorded generation carried.
#[derive(Debug, Clone, PartialEq, Eq)]
pub struct ReplayIdentity {
    pub model: String,
    pub weights_hash: String,
    pub template: String,
}

/// The replay's input identity from the grouped holdings and the artifact
/// the load declared: the first recorded generation must exist and replay
/// the declared model.
pub open spec fn identity_spec(turns: Seq<(Seq<char>, Seq<GenerationView>)>, declared: Seq<char>) -> Result<
    (Seq<char>, Seq<char>, Seq<char>),
    Seq<char>,
> {
    if turns.len() == 0 || turns[0].1.len() == 0 {
        Err("the holdings pair no generation"@)
    } else {
        let first = turns[0].1[0];
        if first.model != declared {
            Err("the record replays "@ + first.model + " and the load declared "@ + declared)
        } else {
            Ok((first.model, first.weights_hash, first.template))
        }
    }
}

/// The replay's input identity, or why it is refused.
pub fn replay_identity(grouped: &Grouped, declared: &str) -> (identity: Result<ReplayIdentity, String>)
    ensures
        match identity_spec(grouped@.turns, declared@) {
            Ok((model, weights_hash, template)) => identity matches Ok(i) && i.model@ == model
                && i.weights_hash@ == weights_hash && i.template@ == template,
            Err(m) => identity matches Err(e) && e@ == m,
        },
{
    if grouped.turns.len() == 0 || grouped.turns[0].1.len() == 0 {
        return Err(String::from_str("the holdings pair no generation"));
    }
    let first = &grouped.turns[0].1[0];
    proof {
        assert(grouped@.turns[0].1[0] == first@);
    }
    if !same_text(first.model.as_str(), declared) {
        return Err(
            cat4("the record replays ", first.model.as_str(), " and the load declared ", declared),
        );
    }
    Ok(
        ReplayIdentity {
            model: first.model.clone(),
            weights_hash: first.weights_hash.clone(),
            template: first.template.clone(),
        },
    )
}

/// The edits placed before turn `index`, in the order they fell.
pub open spec fn edits_at_spec(edits: Seq<(usize, Edit)>, index: int) -> Seq<Edit>
    decreases edits.len(),
{
    if edits.len() == 0 {
        Seq::empty()
    } else {
        let rest = edits_at_spec(edits.drop_last(), index);
        if edits.last().0 == index {
            rest.push(edits.last().1)
        } else {
            rest
        }
    }
}

/// The edits placed before turn `index`, in the order they fell.
pub fn edits_at(edits: &Vec<(usize, Edit)>, index: usize) -> (placed: Vec<Edit>)
    ensures
        placed@ == edits_at_spec(edits@, index as int),
{
    let mut placed: Vec<Edit> = Vec::new();
    let mut i: usize = 0;
    proof {
        assert(edits@.take(0) =~= Seq::<(usize, Edit)>::empty());
    }
    while i < edits.len()
        invariant
            i <= edits@.len(),
            placed@ == edits_at_spec(edits@.take(i as int), index as int),
        decreases edits@.len() - i,
    {
        proof {
            assert(edits@.take(i + 1).drop_last() =~= edits@.take(i as int));
            assert(edits@.take(i + 1).last() == edits@[i as int]);
        }
        if edits[i].0 == index {
            placed.push(edits[i].1);
        }
        i = i + 1;
    }
    proof {
        assert(edits@.take(i as int) =~= edits@);
    }
    placed
}

/// What reproducing one recorded edit decided.
#[derive(Debug, Clone, PartialEq, Eq)]
pub enum Reproduction {
    /// The resident moved as the record's did: the walk continues.
    Continue,
    /// The seat's port refused or died and recorded its own account: the
    /// pass ends here.
    Ended,
    /// The resident moved otherwise: the pass closes abandoned at identity.
    Refused(String),
}

/// The counts an edit recorded, before and after.
pub open spec fn recorded_counts(edit: Edit) -> (u64, u64) {
    match edit {
        Edit::Flush { before, after } => (before, after),
        Edit::Elision { before, after, .. } => (before, after),
    }
}

/// The verdict on reproducing `edit` where the seat answered the counts
/// `answered`, none where its port ended the pass.
pub open spec fn reproduction_spec(edit: Edit, answered: Option<(u64, u64)>) -> Result<bool, Seq<char>> {
    match answered {
        None => Ok(false),
        Some((a0, a1)) => {
            let (r0, r1) = recorded_counts(edit);
            if a0 == r0 && a1 == r1 {
                Ok(true)
            } else {
                Err(
                    "the replay's "@ + (if edit is Flush {
                        "flush"@
                    } else {
                        "elision"@
                    }) + " took the resident from "@ + decimal(a0 as nat) + " to "@ + decimal(
                        a1 as nat,
                    ) + " where the record's went from "@ + decimal(r0 as nat) + " to "@ + decimal(
                        r1 as nat,
                    ),
                )
            }
        },
    }
}

/// **A reproduced edit continues the replay only where the resident moved
/// exactly as the record's did.** The walk continues where the seat answered
/// both the recorded count before and the recorded count after; any other
/// answered pair refuses the pass; and a seat that answered nothing ends it.
pub proof fn lemma_an_edit_reproduces_exactly(edit: Edit, a0: u64, a1: u64)
    ensures
        reproduction_spec(edit, None) == Ok::<bool, Seq<char>>(false),
        reproduction_spec(edit, Some((a0, a1))) == Ok::<bool, Seq<char>>(true) <==> match edit {
            Edit::Flush { before, after } => a0 == before && a1 == after,
            Edit::Elision { before, after, .. } => a0 == before && a1 == after,
        },
        reproduction_spec(edit, Some((a0, a1))) is Ok ==> reproduction_spec(edit, Some((a0, a1)))
            == Ok::<bool, Seq<char>>(true),
{
}

/// The verdict on reproducing one recorded edit.
pub fn reproduction(edit: Edit, answered: Option<(u64, u64)>) -> (r: Reproduction)
    ensures
        match reproduction_spec(edit, answered) {
            Ok(true) => r == Reproduction::Continue,
            Ok(false) => r == Reproduction::Ended,
            Err(m) => r matches Reproduction::Refused(d) && d@ == m,
        },
{
    let (a0, a1) = match answered {
        None => return Reproduction::Ended,
        Some(counts) => counts,
    };
    let (r0, r1, what) = match edit {
        Edit::Flush { before, after } => (before, after, "flush"),
        Edit::Elision { before, after, .. } => (before, after, "elision"),
    };
    if a0 == r0 && a1 == r1 {
        return Reproduction::Continue;
    }
    let mut m = cat3("the replay's ", what, " took the resident from ");
    m.append(decimal_string(a0).as_str());
    m.append(" to ");
    m.append(decimal_string(a1).as_str());
    m.append(" where the record's went from ");
    m.append(decimal_string(r0).as_str());
    m.append(" to ");
    m.append(decimal_string(r1).as_str());
    Reproduction::Refused(m)
}

/// The directive a recorded edit is reproduced with: the flush keeps what
/// the record's flush left, the elision names the record's span.
#[derive(Debug, Clone, Copy, PartialEq, Eq, Structural)]
pub enum EditAsk {
    Flush { keep: u64 },
    Elide { from: u64, to: u64 },
}

/// The ask that reproduces `edit`.
pub fn edit_ask(edit: Edit) -> (ask: EditAsk)
    ensures
        ask == match edit {
            Edit::Flush { after, .. } => EditAsk::Flush { keep: after },
            Edit::Elision { from, to, .. } => EditAsk::Elide { from, to },
        },
{
    match edit {
        Edit::Flush { after, .. } => EditAsk::Flush { keep: after },
        Edit::Elision { from, to, .. } => EditAsk::Elide { from, to },
    }
}

/// One step of a replay's walk, in the order the walk takes them.
#[derive(Debug, Clone, Copy, PartialEq, Eq, Structural)]
pub enum ReplayStep {
    /// Reproduce a recorded edit through the seat.
    Reproduce(Edit),
    /// Open the bracket of the turn at this index.
    Start(usize),
    /// Re-feed the generation at this index of the turn at that index, and
    /// hold the answer to the record.
    Refeed(usize, usize),
    /// Close the bracket of the turn at this index.
    Close(usize),
    /// Close the pass certified.
    Certify,
}

/// The edits placed before turn `index`, as steps.
pub open spec fn reproductions(edits: Seq<(usize, Edit)>, index: int) -> Seq<ReplayStep> {
    edits_at_spec(edits, index).map_values(|e: Edit| ReplayStep::Reproduce(e))
}

/// Turn `k`'s part of the walk: the edits placed before it, its bracket's
/// open, each of its `size` generations re-fed, and its close.
pub open spec fn turn_steps(k: int, size: nat, edits: Seq<(usize, Edit)>) -> Seq<ReplayStep> {
    reproductions(edits, k) + seq![ReplayStep::Start(k as usize)] + Seq::new(
        size,
        |g: int| ReplayStep::Refeed(k as usize, g as usize),
    ) + seq![ReplayStep::Close(k as usize)]
}

/// The walk over the first `n` turns.
pub open spec fn walk_prefix(sizes: Seq<nat>, edits: Seq<(usize, Edit)>, n: int) -> Seq<ReplayStep>
    decreases n,
{
    if n <= 0 {
        Seq::empty()
    } else {
        walk_prefix(sizes, edits, n - 1) + turn_steps(n - 1, sizes[n - 1], edits)
    }
}

/// The replay's whole walk: each turn in landing order with the edits
/// placed before it, then the edits placed after the last turn, then the
/// certification.
pub open spec fn replay_plan_spec(sizes: Seq<nat>, edits: Seq<(usize, Edit)>) -> Seq<ReplayStep> {
    walk_prefix(sizes, edits, sizes.len() as int) + reproductions(edits, sizes.len() as int) + seq![
        ReplayStep::Certify,
    ]
}

/// How many generations each grouped turn holds.
pub open spec fn turn_sizes(turns: Seq<(Seq<char>, Seq<GenerationView>)>) -> Seq<nat> {
    turns.map_values(|t: (Seq<char>, Seq<GenerationView>)| t.1.len())
}

fn push_reproductions(plan: &mut Vec<ReplayStep>, edits: &Vec<(usize, Edit)>, index: usize)
    ensures
        final(plan)@ == old(plan)@ + reproductions(edits@, index as int),
{
    let placed = edits_at(edits, index);
    let ghost start = plan@;
    let mut i: usize = 0;
    while i < placed.len()
        invariant
            i <= placed@.len(),
            plan@ == start + placed@.take(i as int).map_values(|e: Edit| ReplayStep::Reproduce(e)),
        decreases placed@.len() - i,
    {
        plan.push(ReplayStep::Reproduce(placed[i]));
        proof {
            assert(placed@.take(i + 1).map_values(|e: Edit| ReplayStep::Reproduce(e)) =~= placed@.take(
                i as int,
            ).map_values(|e: Edit| ReplayStep::Reproduce(e)).push(ReplayStep::Reproduce(placed@[i as int])));
        }
        i = i + 1;
    }
    proof {
        assert(placed@.take(i as int) =~= placed@);
    }
}

/// The replay's walk over the grouped holdings.
pub fn replay_plan(grouped: &Grouped) -> (plan: Vec<ReplayStep>)
    ensures
        plan@ == replay_plan_spec(turn_sizes(grouped@.turns), grouped@.edits),
{
    let ghost sizes = turn_sizes(grouped@.turns);
    let ghost edits = grouped@.edits;
    let mut plan: Vec<ReplayStep> = Vec::new();
    let mut k: usize = 0;
    while k < grouped.turns.len()
        invariant
            sizes == turn_sizes(grouped@.turns),
            edits == grouped@.edits,
            k <= grouped.turns@.len(),
            plan@ == walk_prefix(sizes, edits, k as int),
        decreases grouped.turns@.len() - k,
    {
        let ghost before = plan@;
        push_reproductions(&mut plan, &grouped.edits, k);
        plan.push(ReplayStep::Start(k));
        let size = grouped.turns[k].1.len();
        proof {
            assert(sizes[k as int] == size);
        }
        let ghost opened = plan@;
        let mut g: usize = 0;
        while g < size
            invariant
                g <= size,
                plan@ == opened + Seq::new(g as nat, |j: int| ReplayStep::Refeed(k, j as usize)),
            decreases size - g,
        {
            plan.push(ReplayStep::Refeed(k, g));
            proof {
                assert(Seq::new((g + 1) as nat, |j: int| ReplayStep::Refeed(k, j as usize)) =~= Seq::new(
                    g as nat,
                    |j: int| ReplayStep::Refeed(k, j as usize),
                ).push(ReplayStep::Refeed(k, g)));
            }
            g = g + 1;
        }
        plan.push(ReplayStep::Close(k));
        proof {
            assert(plan@ =~= before + turn_steps(k as int, sizes[k as int], edits));
        }
        k = k + 1;
    }
    push_reproductions(&mut plan, &grouped.edits, grouped.turns.len());
    plan.push(ReplayStep::Certify);
    plan
}

/// **The null replay of the recorded path certifies.** A re-fed answer
/// whose appended input and draws are the recorded ones, closing at a count
/// that holds them and the terminator, matches.
pub proof fn lemma_the_recorded_path_certifies(source: GenerationView, resident: u64)
    requires
        resident >= source.output_tokens.len() + 1 + source.input_tokens.len(),
    ensures
        judge_spec(source, source.input_tokens, source.output_tokens, resident) == ComparisonView::Matches,
{
    assert(!exists|p: int| first_differ(source.input_tokens, source.input_tokens, p));
    assert(!exists|p: int| first_differ(source.output_tokens, source.output_tokens, p));
}

/// **A divergence names a resident length inside the re-fed generation.**
/// Where two paths laid from `floor` diverge, the position is at or above the
/// floor and at most the floor plus the shorter path's length, and it is the
/// first slot the two differ at or the end of the shorter.
pub proof fn lemma_a_divergence_lies_on_the_path(recorded: Seq<u32>, recomputed: Seq<u32>, floor: int)
    ensures
        token_path(recorded, recomputed, floor) matches Some((position, r, c)) ==> {
            &&& floor <= position
            &&& position <= floor + if recorded.len() < recomputed.len() {
                recorded.len() as int
            } else {
                recomputed.len() as int
            }
            &&& forall|j: int|
                0 <= j < position - floor ==> recorded[j] == recomputed[j]
        },
        token_path(recorded, recomputed, floor) is None <==> recorded == recomputed,
{
    if exists|p: int| first_differ(recorded, recomputed, p) {
        let p = choose|p: int| first_differ(recorded, recomputed, p);
        assert(recorded != recomputed) by {
            assert(recorded[p] != recomputed[p]);
        }
    } else if recorded.len() == recomputed.len() {
        assert forall|j: int| 0 <= j < recorded.len() implies recorded[j] == recomputed[j] by {
            if recorded[j] != recomputed[j] {
                lemma_first_difference_exists(recorded, recomputed, j);
            }
        }
        assert(recorded =~= recomputed);
    } else {
        let m = if recorded.len() < recomputed.len() { recorded.len() as int } else { recomputed.len() as int };
        assert forall|j: int| 0 <= j < m implies recorded[j] == recomputed[j] by {
            if recorded[j] != recomputed[j] {
                lemma_first_difference_exists(recorded, recomputed, j);
            }
        }
    }
}

/// Where the paths differ at a slot both hold, a first such slot exists.
proof fn lemma_first_difference_exists(recorded: Seq<u32>, recomputed: Seq<u32>, j: int)
    requires
        0 <= j < recorded.len(),
        j < recomputed.len(),
        recorded[j] != recomputed[j],
    ensures
        exists|p: int| first_differ(recorded, recomputed, p),
    decreases j,
{
    if forall|k: int| 0 <= k < j ==> recorded[k] == recomputed[k] {
        assert(first_differ(recorded, recomputed, j));
    } else {
        let k = choose|k: int| 0 <= k < j && recorded[k] != recomputed[k];
        lemma_first_difference_exists(recorded, recomputed, k);
    }
}

/// The walk over the first `k` turns leads the walk over the first `n`.
proof fn lemma_walk_prefix_leads(sizes: Seq<nat>, edits: Seq<(usize, Edit)>, k: int, n: int)
    requires
        0 <= k <= n,
    ensures
        walk_prefix(sizes, edits, n).len() >= walk_prefix(sizes, edits, k).len(),
        walk_prefix(sizes, edits, n).take(walk_prefix(sizes, edits, k).len() as int) == walk_prefix(
            sizes,
            edits,
            k,
        ),
    decreases n - k,
{
    if k < n {
        lemma_walk_prefix_leads(sizes, edits, k, n - 1);
        let a = walk_prefix(sizes, edits, n - 1);
        let w = walk_prefix(sizes, edits, n);
        assert(w == a + turn_steps(n - 1, sizes[n - 1], edits));
        assert(w.take(walk_prefix(sizes, edits, k).len() as int) =~= a.take(
            walk_prefix(sizes, edits, k).len() as int,
        ));
    } else {
        assert(walk_prefix(sizes, edits, n).take(walk_prefix(sizes, edits, n).len() as int) =~= walk_prefix(
            sizes,
            edits,
            n,
        ));
    }
}

/// **The source's resident edits are reproduced where they fell.** In the
/// walk, turn `k` opens only after the turns before it closed and every edit
/// the record placed before it was reproduced, in the order they fell; and
/// the walk ends certified.
pub proof fn lemma_edits_are_reproduced_where_they_fell(
    sizes: Seq<nat>,
    edits: Seq<(usize, Edit)>,
    k: int,
)
    requires
        0 <= k < sizes.len(),
    ensures
        ({
            let plan = replay_plan_spec(sizes, edits);
            let before = walk_prefix(sizes, edits, k);
            let placed = reproductions(edits, k);
            &&& plan.take(before.len() as int) == before
            &&& plan.subrange(before.len() as int, (before.len() + placed.len()) as int) == placed
            &&& plan[(before.len() + placed.len()) as int] == ReplayStep::Start(k as usize)
            &&& plan.last() == ReplayStep::Certify
        }),
{
    let n = sizes.len() as int;
    lemma_walk_prefix_leads(sizes, edits, k + 1, n);
    lemma_walk_prefix_leads(sizes, edits, k, k + 1);
    let plan = replay_plan_spec(sizes, edits);
    let before = walk_prefix(sizes, edits, k);
    let next = walk_prefix(sizes, edits, k + 1);
    let whole = walk_prefix(sizes, edits, n);
    let placed = reproductions(edits, k);
    assert(next == before + turn_steps(k, sizes[k], edits));
    assert(plan.take(whole.len() as int) =~= whole);
    assert(plan.take(next.len() as int) =~= next) by {
        assert(whole.take(next.len() as int) == next);
    }
    assert(plan.take(before.len() as int) =~= before) by {
        assert(next.take(before.len() as int) =~= before);
    }
    assert(plan.subrange(before.len() as int, (before.len() + placed.len()) as int) =~= placed) by {
        assert(forall|i: int|
            0 <= i < placed.len() ==> plan[before.len() + i] == #[trigger] next[before.len() + i]);
    }
    assert(plan[(before.len() + placed.len()) as int] == next[(before.len() + placed.len()) as int]);
}

} // verus!

