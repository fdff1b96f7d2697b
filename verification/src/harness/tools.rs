//! The harness's side of the tool exchange: the bound on rounds, and what a
//! granted outcome becomes in the conversation.

use vstd::prelude::*;
use vstd::string::*;
use crate::text::cat2;
use crate::wire::{ToolOutcome, ToolResultBlock};

verus! {

/// The most tool rounds one turn takes before its generation stands.
pub const MAX_TOOL_ROUNDS: usize = 32;

/// What the conversation records of a tool outcome: a result as it came, a
/// refusal and an error each under their speaker, and a kill with whatever
/// output preceded it.
pub open spec fn granted_text(outcome: ToolOutcome) -> Seq<char> {
    match outcome {
        ToolOutcome::Result { content } => content@,
        ToolOutcome::Refused { reason } => "the call was refused: "@ + reason@,
        ToolOutcome::Errored { detail } => "the tool machinery failed: "@ + detail@,
        ToolOutcome::Killed { partial, .. } => match partial {
            Some(partial) => "the command ran past the clock and was killed. Partial output before the kill:\n"@
                + partial@,
            None => "the command ran past the clock and was killed, with no output before the kill"@,
        },
    }
}

/// A granted tool result, as the conversation carries it.
pub struct ToolResult {
    content: String,
}

impl ToolResult {
    /// The content the conversation holds.
    pub closed spec fn text(&self) -> Seq<char> {
        self.content@
    }

    /// The result a tool outcome grants.
    pub fn granted(outcome: &ToolOutcome) -> (result: ToolResult)
        ensures
            result.text() == granted_text(*outcome),
    {
        let content = match outcome {
            ToolOutcome::Result { content } => content.clone(),
            ToolOutcome::Refused { reason } => cat2("the call was refused: ", reason.as_str()),
            ToolOutcome::Errored { detail } => cat2("the tool machinery failed: ", detail.as_str()),
            ToolOutcome::Killed { partial, .. } => match partial {
                Some(partial) => cat2(
                    "the command ran past the clock and was killed. Partial output before the kill:\n",
                    partial.as_str(),
                ),
                None => String::from_str(
                    "the command ran past the clock and was killed, with no output before the kill",
                ),
            },
        };
        ToolResult { content }
    }

    /// The result's content.
    pub fn content(&self) -> (text: &str)
        ensures
            text@ == self.text(),
    {
        self.content.as_str()
    }

    /// The block the conversation records.
    pub fn block(&self) -> (block: ToolResultBlock)
        ensures
            block.content@ == self.text(),
    {
        ToolResultBlock { content: self.content.clone() }
    }
}

} // verus!
