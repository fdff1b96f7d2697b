//! The development worker's loop: the system prompt that leads a session's
//! first turn, the continuity line that tells the model of the runs before
//! this one, the delta each turn contributes, and the worker's command line.

use vstd::prelude::*;
use vstd::string::*;
use crate::harness::lifecycle::OrganParameters;
use crate::harness::state::{RunShapeView, SessionShape};
use crate::text::{cat2, cat3, decimal, decimal_string, same_text, text_debug, text_debug_of};
use crate::wire::{ContentBlock, Message, Role};

verus! {

/// The prompt that leads a session's first turn.
pub const SYSTEM_PROMPT: &'static str = "You are a careful assistant. Answer from what you know, say plainly when you do not know, and keep answers as short as the question allows.";

/// The count a run's shape gives the kind `turn.closed`, the first entry of
/// that kind, or none.
pub open spec fn closed_turns_of(kinds: Seq<(Seq<char>, u64)>) -> nat
    decreases kinds.len(),
{
    if kinds.len() == 0 {
        0
    } else if kinds[0].0 == "turn.closed"@ {
        kinds[0].1 as nat
    } else {
        closed_turns_of(kinds.drop_first())
    }
}

/// The closed turns of the runs, summed.
pub open spec fn closed_turns(runs: Seq<RunShapeView>) -> nat
    decreases runs.len(),
{
    if runs.len() == 0 {
        0
    } else {
        closed_turns(runs.drop_last()) + closed_turns_of(runs.last().kinds)
    }
}

/// The closed turns of every run before the last, the one being served.
pub open spec fn prior_closed_turns(runs: Seq<RunShapeView>) -> nat {
    if runs.len() == 0 {
        0
    } else {
        closed_turns(runs.take(runs.len() - 1))
    }
}

/// The line that tells the model of the session's past: the runs before
/// this one and the turns they completed, none where this run is the first.
pub open spec fn continuity_spec(runs: Seq<RunShapeView>) -> Option<Seq<char>> {
    if runs.len() <= 1 {
        None
    } else {
        let prior = (runs.len() - 1) as nat;
        let turns = closed_turns(runs.take(prior as int));
        Some(
            "Continuity: this session held "@ + decimal(prior) + " earlier "@ + (if prior == 1 {
                "run"@
            } else {
                "runs"@
            }) + " with "@ + decimal(turns) + " completed "@ + (if turns == 1 {
                "turn"@
            } else {
                "turns"@
            })
                + " before this one. The conversation content of those runs is not in your context."@,
        )
    }
}

fn closed_turns_in(kinds: &Vec<(String, u64)>) -> (count: u64)
    ensures
        count == closed_turns_of(kinds@.map_values(|k: (String, u64)| (k.0@, k.1))),
{
    let ghost kv = kinds@.map_values(|k: (String, u64)| (k.0@, k.1));
    let mut i: usize = 0;
    proof {
        assert(kv.skip(0) =~= kv);
    }
    while i < kinds.len()
        invariant
            kv == kinds@.map_values(|k: (String, u64)| (k.0@, k.1)),
            i <= kinds@.len(),
            closed_turns_of(kv) == closed_turns_of(kv.skip(i as int)),
        decreases kinds@.len() - i,
    {
        proof {
            assert(kv.skip(i as int)[0] == kv[i as int]);
            assert(kv.skip(i as int).drop_first() =~= kv.skip(i + 1));
        }
        if same_text(kinds[i].0.as_str(), "turn.closed") {
            return kinds[i].1;
        }
        i = i + 1;
    }
    0
}

/// The continuity line for a session of this shape.
pub fn continuity_line(shape: &SessionShape) -> (line: Option<String>)
    requires
        prior_closed_turns(shape@) <= u64::MAX,
    ensures
        match continuity_spec(shape@) {
            Some(text) => line matches Some(l) && l@ == text,
            None => line is None,
        },
{
    let runs = shape.runs.len();
    if runs <= 1 {
        return None;
    }
    let prior = runs - 1;
    let ghost sv = shape@;
    let mut turns: u64 = 0;
    let mut i: usize = 0;
    proof {
        assert(sv.take(0) =~= Seq::<RunShapeView>::empty());
    }
    while i < prior
        invariant
            sv == shape@,
            prior < sv.len(),
            i <= prior,
            turns == closed_turns(sv.take(i as int)),
            closed_turns(sv.take(prior as int)) <= u64::MAX,
        decreases prior - i,
    {
        proof {
            assert(sv.take(i + 1).drop_last() =~= sv.take(i as int));
            assert(sv.take(i + 1).last() == shape.runs@[i as int]@);
            lemma_closed_turns_monotone(sv.take(prior as int), i + 1);
            assert(sv.take(prior as int).take(i + 1) =~= sv.take(i + 1));
        }
        let here = closed_turns_in(&shape.runs[i].kinds);
        turns = turns + here;
        i = i + 1;
    }
    let runs_word = if prior == 1 {
        "run"
    } else {
        "runs"
    };
    let turns_word = if turns == 1 {
        "turn"
    } else {
        "turns"
    };
    let mut line = cat3("Continuity: this session held ", decimal_string(prior as u64).as_str(), " earlier ");
    line.append(runs_word);
    line.append(" with ");
    line.append(decimal_string(turns).as_str());
    line.append(" completed ");
    line.append(turns_word);
    line.append(" before this one. The conversation content of those runs is not in your context.");
    Some(line)
}

/// The closed turns of a prefix are at most those of the whole.
proof fn lemma_closed_turns_monotone(runs: Seq<RunShapeView>, k: int)
    requires
        0 <= k <= runs.len(),
    ensures
        closed_turns(runs.take(k)) <= closed_turns(runs),
    decreases runs.len() - k,
{
    if k < runs.len() {
        assert(runs.take(k + 1).drop_last() =~= runs.take(k));
        lemma_closed_turns_monotone(runs, k + 1);
    } else {
        assert(runs.take(k) =~= runs);
    }
}

/// A user message of one text block.
pub fn user_text(text: String) -> (message: Message)
    ensures
        message.role == Role::User,
        message.content@.len() == 1,
        message.content@[0] matches ContentBlock::Text { text: t } && t@ == text@,
{
    let mut content: Vec<ContentBlock> = Vec::new();
    content.push(ContentBlock::Text { text });
    Message { role: Role::User, content }
}

/// The text the first turn opens with: the prompt, and the continuity line
/// beneath it after a blank line where one stands.
pub open spec fn opening_of(continuity: Option<Seq<char>>) -> Seq<char> {
    match continuity {
        Some(line) => SYSTEM_PROMPT@ + "\n\n"@ + line,
        None => SYSTEM_PROMPT@,
    }
}

/// The delta a turn contributes: on the first turn the opening leads as a
/// user message of its own, then the caller's text.
pub fn contribution(first_turn: bool, continuity: Option<&str>, text: &str) -> (delta: Vec<Message>)
    ensures
        delta@.len() == if first_turn { 2nat } else { 1nat },
        forall|i: int| 0 <= i < delta@.len() ==> delta@[i].role == Role::User && delta@[i].content@.len() == 1,
        first_turn ==> (delta@[0].content@[0] matches ContentBlock::Text { text: t } && t@ == opening_of(
            match continuity {
                Some(c) => Some(c@),
                None => None,
            },
        )),
        delta@.last().content@[0] matches ContentBlock::Text { text: t } && t@ == text@,
{
    let mut delta: Vec<Message> = Vec::new();
    if first_turn {
        let opening = match continuity {
            Some(line) => cat3(SYSTEM_PROMPT, "\n\n", line),
            None => String::from_str(SYSTEM_PROMPT),
        };
        delta.push(user_text(opening));
    }
    delta.push(user_text(String::from_str(text)));
    delta
}

/// Whether a turn is the session's first: no prompt was assembled, or it
/// holds no conversation yet.
pub fn first_turn(assembled_messages: Option<usize>) -> (first: bool)
    ensures
        first == match assembled_messages {
            Some(n) => n == 0,
            None => true,
        },
{
    match assembled_messages {
        Some(n) => n == 0,
        None => true,
    }
}

/// The worker's command line, read.
#[derive(Debug)]
pub struct WorkerArguments {
    pub socket: String,
    pub spu: String,
    pub gate: String,
    pub identity: String,
    pub parameters: OrganParameters,
}

/// How the worker is invoked.
pub const WORKER_USAGE: &'static str = "worker <coordination-socket> <spu-binary> <gate-binary> [identity] [--headroom-bytes N]";

/// `arg` names a parameter: it starts with two dashes.
pub open spec fn is_flag(arg: Seq<char>) -> bool {
    arg.len() >= 2 && arg[0] == '-' && arg[1] == '-'
}

fn flag(arg: &str) -> (f: bool)
    ensures
        f == is_flag(arg@),
{
    arg.unicode_len() >= 2 && arg.get_char(0) == '-' && arg.get_char(1) == '-'
}

/// The parameters from `i` on, read in order from what was read before:
/// the headroom parameter takes the next argument as its value, any other
/// argument that starts with two dashes is refused, and every other
/// argument is the identity, the last one given standing.
pub open spec fn read_parameters(
    args: Seq<Seq<char>>,
    i: int,
    identity: Seq<char>,
    headroom: Option<Seq<char>>,
) -> Result<(Seq<char>, Option<Seq<char>>), Seq<char>>
    decreases args.len() - i,
{
    if i < 0 || i >= args.len() {
        Ok((identity, headroom))
    } else if args[i] == "--headroom-bytes"@ {
        if i + 1 < args.len() {
            read_parameters(args, i + 2, identity, Some(args[i + 1]))
        } else {
            Err("worker: --headroom-bytes takes a value"@)
        }
    } else if is_flag(args[i]) {
        Err("worker: unknown parameter "@ + args[i])
    } else {
        read_parameters(args, i + 1, args[i], headroom)
    }
}

/// The worker's command line after the program's name: three positionals,
/// then the identity and the headroom parameter.
pub fn worker_arguments(args: &Vec<String>) -> (read: Result<WorkerArguments, String>)
    ensures
        args@.len() < 3 ==> (read matches Err(m) && m@ == WORKER_USAGE@),
        args@.len() >= 3 ==> match read_parameters(
            args@.map_values(|a: String| a@),
            3,
            Seq::empty(),
            None,
        ) {
            Ok((identity, headroom)) => read matches Ok(w) && w.socket@ == args@[0]@ && w.spu@
                == args@[1]@ && w.gate@ == args@[2]@ && w.identity@ == identity && match headroom {
                Some(h) => w.parameters.headroom_bytes matches Some(wh) && wh@ == h,
                None => w.parameters.headroom_bytes is None,
            },
            Err(message) => read matches Err(m) && m@ == message,
        },
{
    if args.len() < 3 {
        return Err(String::from_str(WORKER_USAGE));
    }
    let ghost av = args@.map_values(|a: String| a@);
    let mut identity = String::new();
    let mut headroom: Option<String> = None;
    let mut i: usize = 3;
    while i < args.len()
        invariant
            av == args@.map_values(|a: String| a@),
            3 <= i <= args@.len(),
            read_parameters(av, 3, Seq::empty(), None) == read_parameters(
                av,
                i as int,
                identity@,
                match headroom {
                    Some(h) => Some(h@),
                    None => None,
                },
            ),
        decreases args@.len() - i,
    {
        let argument = args[i].as_str();
        if same_text(argument, "--headroom-bytes") {
            if i + 1 < args.len() {
                headroom = Some(args[i + 1].clone());
                i = i + 2;
            } else {
                return Err(String::from_str("worker: --headroom-bytes takes a value"));
            }
        } else if flag(argument) {
            return Err(cat2("worker: unknown parameter ", argument));
        } else {
            identity = args[i].clone();
            i = i + 1;
        }
    }
    Ok(
        WorkerArguments {
            socket: args[0].clone(),
            spu: args[1].clone(),
            gate: args[2].clone(),
            identity,
            parameters: OrganParameters { headroom_bytes: headroom },
        },
    )
}

/// **The continuity line counts the past and only the past.** The run
/// being served adds nothing to the line, whatever it holds.
pub proof fn lemma_the_present_run_is_not_counted(runs: Seq<RunShapeView>, present: RunShapeView)
    requires
        runs.len() > 0,
    ensures
        continuity_spec(runs.drop_last().push(present)) == continuity_spec(runs),
{
    let swapped = runs.drop_last().push(present);
    assert(swapped.take(runs.len() - 1) =~= runs.take(runs.len() - 1));
}

/// The role a scripted loop names for a delta message: system, user or
/// assistant; a tool result is not the loop's to author.
pub open spec fn scripted_role(role: Option<Seq<char>>) -> Option<Role> {
    if role == Some("system"@) {
        Some(Role::System)
    } else if role == Some("user"@) {
        Some(Role::User)
    } else if role == Some("assistant"@) {
        Some(Role::Assistant)
    } else {
        None
    }
}

/// One message of a scripted loop's delta, from the entry's role and text:
/// the role must be one the loop may author and the text must be there.
pub fn scripted_message(role: Option<&str>, text: Option<&str>) -> (message: Result<Message, String>)
    ensures
        ({
            let rv = match role {
                Some(r) => Some(r@),
                None => None,
            };
            match scripted_role(rv) {
                None => message matches Err(m) && m@
                    == "a delta message's role is \"system\", \"user\", or \"assistant\", got "@
                    + text_debug_of(rv),
                Some(r) => match text {
                    None => message matches Err(m) && m@ == "a delta message carries \"text\""@,
                    Some(t) => message matches Ok(msg) && msg.role == r && msg.content@.len() == 1
                        && (msg.content@[0] matches ContentBlock::Text { text: body } && body@ == t@),
                },
            }
        }),
{
    let named = match role {
        Some(r) => if same_text(r, "system") {
            Some(Role::System)
        } else if same_text(r, "user") {
            Some(Role::User)
        } else if same_text(r, "assistant") {
            Some(Role::Assistant)
        } else {
            None
        },
        None => None,
    };
    let named = match named {
        Some(named) => named,
        None => {
            return Err(
                cat2(
                    "a delta message's role is \"system\", \"user\", or \"assistant\", got ",
                    text_debug(role).as_str(),
                ),
            );
        },
    };
    let text = match text {
        Some(text) => text,
        None => return Err(String::from_str("a delta message carries \"text\"")),
    };
    let mut content: Vec<ContentBlock> = Vec::new();
    content.push(ContentBlock::Text { text: String::from_str(text) });
    Ok(Message { role: named, content })
}

/// The delta a turn answers with when the scripted loop ran none: the
/// caller's text alone, as a user message.
pub fn fallback_delta(text: &str) -> (delta: Vec<Message>)
    ensures
        delta@.len() == 1,
        delta@[0].role == Role::User,
        delta@[0].content@.len() == 1,
        delta@[0].content@[0] matches ContentBlock::Text { text: t } && t@ == text@,
{
    let mut delta: Vec<Message> = Vec::new();
    delta.push(user_text(String::from_str(text)));
    delta
}

} // verus!

