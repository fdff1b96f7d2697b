//! The membrane's one tool, the shell: what an execution must carry before a
//! shell is spawned, how its captured output is joined and bounded, how its
//! ending is told, and how the supervision reads the channel meanwhile. The
//! fork, the pipes and the clock stand at the composition root.

use vstd::prelude::*;
use vstd::string::*;
use crate::gate::channel::ChannelFault;
use crate::json::{json_canonical, json_canonical_of, json_member, json_member_of, json_text, json_text_of};
use crate::text::{
    cat3, decimal, decimal_string, fitting_chars, fitting_prefix, char_prefix, same_text,
    signed_decimal, signed_decimal_string, utf8_len, utf8_lossy, utf8_lossy_of, lemma_fits_whole,
    lemma_fitting_prefix_fits, lemma_utf8_len_concat,
};
use crate::wire::{ExchangeId, KillCause, OrganEnvelope, Payload, Position, ToolExecution, ToolOutcome};

verus! {

/// The one tool the membrane holds.
pub const SHELL_NAME: &'static str = "bash";

/// The longest clock a caller may give the shell, in milliseconds.
pub const SHELL_MAX_CLOCK_MS: u64 = 60000;

/// The captured output's bound, in bytes.
pub const SHELL_OUTPUT_BOUND: usize = 32768;

/// The marker a bounded capture ends with.
pub open spec fn truncation_marker() -> Seq<char> {
    "\n[output truncated at 32 KiB]"@
}

/// The command the execution's arguments carry as the member `command`, a
/// JSON string.
pub open spec fn command_of(arguments: Seq<char>) -> Option<Seq<char>> {
    match json_member_of(arguments, "command"@) {
        Some(member) => json_text_of(member),
        None => None,
    }
}

/// What an execution must carry before a shell is spawned: the shell's own
/// name, a clock within the declared maximum, and arguments that parse and
/// carry a command string. Anything else is refused with its reason.
pub open spec fn validation(execution: ToolExecution) -> Result<Seq<char>, Seq<char>> {
    if execution.name@ != "bash"@ {
        Err("no tool named "@ + execution.name@ + " is held - the shell, bash, is the one tool"@)
    } else if execution.clock_ms == 0 || execution.clock_ms > 60000 {
        Err(
            "the caller's clock of "@ + decimal(execution.clock_ms as nat)
                + "ms is outside the shell's declared maximum of 60000ms"@,
        )
    } else if json_canonical_of(execution.arguments@) is None {
        Err("the arguments are not one JSON object"@)
    } else {
        match command_of(execution.arguments@) {
            Some(command) => Ok(command),
            None => Err("the arguments carry no command string"@),
        }
    }
}

/// The command to run, or the refusal the execution is answered with.
pub fn validate(execution: &ToolExecution) -> (v: Result<String, ToolOutcome>)
    ensures
        match validation(*execution) {
            Ok(command) => v matches Ok(c) && c@ == command,
            Err(reason) => v matches Err(ToolOutcome::Refused { reason: r }) && r@ == reason,
        },
{
    if !same_text(execution.name.as_str(), SHELL_NAME) {
        return Err(
            ToolOutcome::Refused {
                reason: cat3(
                    "no tool named ",
                    execution.name.as_str(),
                    " is held - the shell, bash, is the one tool",
                ),
            },
        );
    }
    if execution.clock_ms == 0 || execution.clock_ms > SHELL_MAX_CLOCK_MS {
        return Err(
            ToolOutcome::Refused {
                reason: cat3(
                    "the caller's clock of ",
                    decimal_string(execution.clock_ms).as_str(),
                    "ms is outside the shell's declared maximum of 60000ms",
                ),
            },
        );
    }
    if json_canonical(execution.arguments.as_str()).is_none() {
        return Err(
            ToolOutcome::Refused {
                reason: String::from_str("the arguments are not one JSON object"),
            },
        );
    }
    let command = match json_member(execution.arguments.as_str(), "command") {
        Some(member) => json_text(member.as_str()),
        None => None,
    };
    match command {
        Some(command) => Ok(command),
        None => Err(
            ToolOutcome::Refused {
                reason: String::from_str("the arguments carry no command string"),
            },
        ),
    }
}

/// The outcome when the account database holds no home for this uid.
pub fn homeless() -> (outcome: ToolOutcome)
    ensures
        outcome matches ToolOutcome::Errored { detail } && detail@
            == "this uid has no home in the account database"@,
{
    ToolOutcome::Errored { detail: String::from_str("this uid has no home in the account database") }
}

/// How a shell run ended short of a result.
#[derive(Debug)]
pub enum ShellEnd {
    Errored { detail: String },
    Killed { partial: Option<String>, by: KillCause },
    Channel(ChannelFault),
}

/// A run's ending, told: a channel fault stays below the exchange and ends
/// the service; every other ending is the exchange's content.
pub fn settle(end: ShellEnd) -> (settled: Result<ToolOutcome, ChannelFault>)
    ensures
        match end {
            ShellEnd::Errored { detail } => settled == Ok::<ToolOutcome, ChannelFault>(
                ToolOutcome::Errored { detail },
            ),
            ShellEnd::Killed { partial, by } => settled == Ok::<ToolOutcome, ChannelFault>(
                ToolOutcome::Killed { partial, by },
            ),
            ShellEnd::Channel(fault) => settled == Err::<ToolOutcome, ChannelFault>(fault),
        },
{
    match end {
        ShellEnd::Errored { detail } => Ok(ToolOutcome::Errored { detail }),
        ShellEnd::Killed { partial, by } => Ok(ToolOutcome::Killed { partial, by }),
        ShellEnd::Channel(fault) => Err(fault),
    }
}

/// One captured stream: the bytes kept and whether any were dropped.
#[derive(Debug)]
pub struct Drained {
    pub bytes: Vec<u8>,
    pub truncated: bool,
}

impl Drained {
    /// Nothing captured.
    pub fn empty() -> (d: Drained)
        ensures
            d.bytes@.len() == 0,
            !d.truncated,
    {
        Drained { bytes: Vec::new(), truncated: false }
    }

    /// Keeps what of `chunk` fits under `bound` and marks the rest dropped.
    pub fn take_chunk(&mut self, chunk: &[u8], bound: usize)
        requires
            old(self).bytes@.len() <= bound,
        ensures
            ({
                let room = (bound - old(self).bytes@.len()) as int;
                let take = if chunk@.len() < room { chunk@.len() as int } else { room };
                &&& final(self).bytes@ == old(self).bytes@ + chunk@.take(take)
                &&& final(self).truncated == (old(self).truncated || take < chunk@.len())
            }),
            final(self).bytes@.len() <= bound,
    {
        let room = bound - self.bytes.len();
        let take = if chunk.len() < room {
            chunk.len()
        } else {
            room
        };
        let mut i: usize = 0;
        let ghost start = self.bytes@;
        while i < take
            invariant
                take <= chunk@.len(),
                i <= take,
                start == old(self).bytes@,
                self.truncated == old(self).truncated,
                self.bytes@ == start + chunk@.take(i as int),
            decreases take - i,
        {
            self.bytes.push(chunk[i]);
            proof {
                assert(chunk@.take(i + 1) =~= chunk@.take(i as int).push(chunk@[i as int]));
            }
            i = i + 1;
        }
        self.truncated = self.truncated || take < chunk.len();
    }
}

/// The reads a drain still takes once the shell ended: enough buffers to
/// fill the bound, and one more to see the end.
pub fn final_reads(bound: usize, buffer: usize) -> (reads: usize)
    requires
        buffer > 0,
        bound / buffer + 2 <= usize::MAX,
    ensures
        reads == (bound + buffer - 1) / buffer as int + 1,
{
    let whole = bound / buffer;
    let ceiling = if bound % buffer == 0 {
        whole
    } else {
        whole + 1
    };
    proof {
        assert((bound + buffer - 1) / buffer as int == ceiling) by (nonlinear_arith)
            requires
                buffer > 0,
                whole == bound / buffer,
                bound % buffer == 0 ==> ceiling == whole,
                bound % buffer != 0 ==> ceiling == whole + 1,
        ;
    }
    ceiling + 1
}

/// The two captures joined: stdout, then stderr under its label on a line of
/// its own, and where either was cut or the join passes the bound, the join
/// cut at the last character boundary within the bound and marked.
pub open spec fn joined_spec(out: Seq<u8>, out_cut: bool, err: Seq<u8>, err_cut: bool) -> Seq<
    char,
> {
    let o = utf8_lossy_of(out);
    let both = if err.len() == 0 {
        o
    } else {
        (if o.len() == 0 {
            o
        } else {
            o.push('\n')
        }) + "stderr: "@ + utf8_lossy_of(err)
    };
    if out_cut || err_cut || utf8_len(both) > 32768 {
        both.take(fitting_prefix(both, 32768) as int) + truncation_marker()
    } else {
        both
    }
}

/// The shell's captured output, joined and bounded.
pub fn joined(out: &Drained, err: &Drained) -> (output: String)
    ensures
        output@ == joined_spec(out.bytes@, out.truncated, err.bytes@, err.truncated),
{
    let mut output = utf8_lossy(out.bytes.as_slice());
    if err.bytes.len() > 0 {
        if output.unicode_len() > 0 {
            output.push('\n');
        }
        output.append("stderr: ");
        let tail = utf8_lossy(err.bytes.as_slice());
        output.append(tail.as_str());
    }
    let k = fitting_chars(output.as_str(), SHELL_OUTPUT_BOUND);
    proof {
        lemma_fits_whole(output@, 32768);
    }
    if out.truncated || err.truncated || k < output.unicode_len() {
        let mut cut = char_prefix(output.as_str(), k);
        cut.append("\n[output truncated at 32 KiB]");
        cut
    } else {
        output
    }
}

/// What a finished run answers: a killed run's partial output (none where
/// nothing was captured), else the output, with the exit status appended on
/// a line of its own where the shell did not exit zero (a signal's death
/// named as such), and a word for an empty capture.
pub open spec fn finished_spec(output: Seq<char>, killed: Option<KillCause>, exit_code: Option<i32>) -> Result<
    Seq<char>,
    (Option<Seq<char>>, KillCause),
> {
    match killed {
        Some(by) => Err((if output.len() == 0 { None } else { Some(output) }, by)),
        None => {
            let told = if exit_code == Some(0i32) {
                output
            } else {
                (if output.len() == 0 {
                    output
                } else {
                    output.push('\n')
                }) + "exit status: "@ + match exit_code {
                    Some(code) => signed_decimal(code as int),
                    None => "killed by signal"@,
                }
            };
            Ok(
                if told.len() == 0 {
                    "(no output)"@
                } else {
                    told
                },
            )
        },
    }
}

/// The run's answer from its joined output, whether the supervision killed
/// it and why, and the exit code the shell left (none for a signal's death).
pub fn finished(output: String, killed: Option<KillCause>, exit_code: Option<i32>) -> (r: Result<
    String,
    ShellEnd,
>)
    ensures
        match finished_spec(output@, killed, exit_code) {
            Ok(told) => r matches Ok(t) && t@ == told,
            Err((partial, by)) => r matches Err(ShellEnd::Killed { partial: p, by: b }) && b == by
                && match partial {
                Some(text) => p matches Some(pt) && pt@ == text,
                None => p is None,
            },
        },
{
    let mut output = output;
    if let Some(by) = killed {
        let partial = if output.unicode_len() == 0 {
            None
        } else {
            Some(output)
        };
        return Err(ShellEnd::Killed { partial, by });
    }
    let exited_zero = match exit_code {
        Some(code) => code == 0,
        None => false,
    };
    if !exited_zero {
        let code = match exit_code {
            Some(code) => signed_decimal_string(code),
            None => String::from_str("killed by signal"),
        };
        if output.unicode_len() > 0 {
            output.push('\n');
        }
        output.append("exit status: ");
        output.append(code.as_str());
    }
    if output.unicode_len() == 0 {
        output.append("(no output)");
    }
    Ok(output)
}

/// Whether an envelope read during supervision cancels this run: the
/// continuation of the run's own exchange carrying the cancel.
pub fn cancels(envelope: &OrganEnvelope, exchange: &ExchangeId) -> (cancel: bool)
    ensures
        cancel == (envelope.exchange == *exchange && envelope.position == Position::Continue
            && envelope.payload is ToolCancel),
{
    envelope.exchange.opener == exchange.opener && envelope.exchange.ordinal == exchange.ordinal
        && envelope.position == Position::Continue && match envelope.payload {
        Payload::ToolCancel => true,
        _ => false,
    }
}

/// The longest the supervision waits on the channel between checks, in
/// nanoseconds.
pub const SUPERVISION_SLICE_NANOS: u128 = 25000000;

/// The next supervision wait with `remaining` nanoseconds left on the
/// caller's clock: none once the clock ran out, which kills the run by the
/// clock.
pub fn supervision_slice(remaining: u128) -> (slice: Option<u128>)
    ensures
        remaining == 0 ==> slice is None,
        remaining > 0 ==> slice == Some(
            if remaining < SUPERVISION_SLICE_NANOS { remaining } else { SUPERVISION_SLICE_NANOS },
        ),
{
    if remaining == 0 {
        None
    } else if remaining < SUPERVISION_SLICE_NANOS {
        Some(remaining)
    } else {
        Some(SUPERVISION_SLICE_NANOS)
    }
}

/// **The capture is bounded.** Whatever the streams held, the joined
/// output the exchange carries is at most the bound in UTF-8 bytes, plus
/// the marker where it was cut; and a capture within the bound that nothing
/// cut is carried whole.
pub proof fn lemma_the_capture_is_bounded(out: Seq<u8>, out_cut: bool, err: Seq<u8>, err_cut: bool)
    ensures
        utf8_len(joined_spec(out, out_cut, err, err_cut)) <= SHELL_OUTPUT_BOUND + utf8_len(
            truncation_marker(),
        ),
{
    let o = utf8_lossy_of(out);
    let both = if err.len() == 0 {
        o
    } else {
        (if o.len() == 0 {
            o
        } else {
            o.push('\n')
        }) + "stderr: "@ + utf8_lossy_of(err)
    };
    if out_cut || err_cut || utf8_len(both) > 32768 {
        let kept = both.take(fitting_prefix(both, 32768) as int);
        lemma_fitting_prefix_fits(both, 32768);
        lemma_utf8_len_concat(kept, truncation_marker());
    }
}

} // verus!

