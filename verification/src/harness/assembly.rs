//! The prompt's assembly from the working structure: the message records in
//! order, the identity and the tool schemas, and the count of message
//! records that did not decode. Decoding a record's line into a message
//! stands with the recorder.

use vstd::prelude::*;
use vstd::string::*;
use crate::harness::record::TraceKind;
use crate::wire::Message;

verus! {

/// The kinds whose records are conversation.
pub open spec fn is_message_kind(kind: TraceKind) -> bool {
    kind == TraceKind::MessageUser || kind == TraceKind::MessageAssistant || kind
        == TraceKind::MessageToolResult
}

/// A prompt: the identity, the conversation's messages, the tool schemas,
/// and how many message records did not decode.
#[derive(Debug, Clone, PartialEq)]
pub struct Prompt {
    pub identity: String,
    pub messages: Vec<Message>,
    pub tool_schemas: Vec<String>,
    pub undecodable: usize,
}

/// Each text followed by a newline, in order.
pub open spec fn lines(texts: Seq<Seq<char>>) -> Seq<char>
    decreases texts.len(),
{
    if texts.len() == 0 {
        Seq::empty()
    } else {
        lines(texts.drop_last()) + texts.last().push('\n')
    }
}

impl Prompt {
    /// The prompt in its rendered order, given each message as its JSON
    /// line: the identity, the messages, then the tool schemas, each on a
    /// line of its own. The order is what determinism is judged by: the same
    /// records render the same text.
    pub fn render_with(&self, message_lines: &Vec<String>) -> (out: String)
        ensures
            out@ == self.identity@.push('\n') + lines(message_lines.deep_view()) + lines(
                self.tool_schemas.deep_view(),
            ),
    {
        let mut out = String::from_str(self.identity.as_str());
        out.push('\n');
        let ghost head = out@;
        let mut i: usize = 0;
        while i < message_lines.len()
            invariant
                i <= message_lines@.len(),
                head == self.identity@.push('\n'),
                out@ == head + lines(message_lines.deep_view().take(i as int)),
            decreases message_lines@.len() - i,
        {
            proof {
                let taken = message_lines.deep_view().take(i + 1);
                assert(taken.drop_last() =~= message_lines.deep_view().take(i as int));
                assert(taken.last() == message_lines[i as int]@);
            }
            out.append(message_lines[i].as_str());
            out.push('\n');
            proof {
                let before = lines(message_lines.deep_view().take(i as int));
                assert(out@ =~= head + (before + message_lines[i as int]@.push('\n')));
            }
            i = i + 1;
        }
        proof {
            assert(message_lines.deep_view().take(i as int) =~= message_lines.deep_view());
        }
        let ghost middle = out@;
        let mut j: usize = 0;
        while j < self.tool_schemas.len()
            invariant
                j <= self.tool_schemas@.len(),
                out@ == middle + lines(self.tool_schemas.deep_view().take(j as int)),
            decreases self.tool_schemas@.len() - j,
        {
            proof {
                let taken = self.tool_schemas.deep_view().take(j + 1);
                assert(taken.drop_last() =~= self.tool_schemas.deep_view().take(j as int));
                assert(taken.last() == self.tool_schemas[j as int]@);
            }
            out.append(self.tool_schemas[j].as_str());
            out.push('\n');
            proof {
                let before = lines(self.tool_schemas.deep_view().take(j as int));
                assert(out@ =~= middle + (before + self.tool_schemas[j as int]@.push('\n')));
            }
            j = j + 1;
        }
        proof {
            assert(self.tool_schemas.deep_view().take(j as int) =~= self.tool_schemas.deep_view());
        }
        out
    }
}

/// The messages of the conversation records, in order.
pub open spec fn conversation(records: Seq<(TraceKind, Option<Message>)>) -> Seq<Message>
    decreases records.len(),
{
    if records.len() == 0 {
        Seq::empty()
    } else {
        let rest = conversation(records.drop_last());
        let (kind, decoded) = records.last();
        if is_message_kind(kind) {
            match decoded {
                Some(m) => rest.push(m),
                None => rest,
            }
        } else {
            rest
        }
    }
}

/// The conversation records that did not decode.
pub open spec fn undecoded(records: Seq<(TraceKind, Option<Message>)>) -> nat
    decreases records.len(),
{
    if records.len() == 0 {
        0
    } else {
        let rest = undecoded(records.drop_last());
        let (kind, decoded) = records.last();
        if is_message_kind(kind) && decoded is None {
            rest + 1
        } else {
            rest
        }
    }
}

/// **Each decoded conversation record enters the prompt, in order, and
/// nothing else does.** A user, assistant or tool-result record that decoded
/// adds its message at the end; a conversation record that did not decode
/// adds nothing to the messages and one to the undecodable count; a record
/// of any other kind adds nothing to either; and the records of two runs of
/// the structure assemble as the first's messages then the second's.
pub proof fn lemma_conversation_takes_each_message(
    records: Seq<(TraceKind, Option<Message>)>,
    more: Seq<(TraceKind, Option<Message>)>,
    kind: TraceKind,
    m: Message,
)
    ensures
        (kind == TraceKind::MessageUser || kind == TraceKind::MessageAssistant || kind
            == TraceKind::MessageToolResult) ==> conversation(records.push((kind, Some(m))))
            == conversation(records).push(m),
        (kind == TraceKind::MessageUser || kind == TraceKind::MessageAssistant || kind
            == TraceKind::MessageToolResult) ==> conversation(records.push((kind, None)))
            == conversation(records) && undecoded(records.push((kind, None))) == undecoded(records)
            + 1,
        !(kind == TraceKind::MessageUser || kind == TraceKind::MessageAssistant || kind
            == TraceKind::MessageToolResult) ==> conversation(records.push((kind, Some(m))))
            == conversation(records) && undecoded(records.push((kind, None))) == undecoded(records),
        conversation(Seq::empty()) == Seq::<Message>::empty(),
        conversation(records + more) == conversation(records) + conversation(more),
    decreases more.len(),
{
    assert(records.push((kind, Some(m))).drop_last() =~= records);
    assert(records.push((kind, None)).drop_last() =~= records);
    if more.len() == 0 {
        assert(records + more =~= records);
        assert(conversation(more) =~= Seq::<Message>::empty());
    } else {
        lemma_conversation_takes_each_message(records, more.drop_last(), kind, m);
        assert((records + more).drop_last() =~= records + more.drop_last());
        assert((records + more).last() == more.last());
    }
}

proof fn lemma_undecoded_bounded(records: Seq<(TraceKind, Option<Message>)>)
    ensures
        undecoded(records) <= records.len(),
    decreases records.len(),
{
    if records.len() > 0 {
        lemma_undecoded_bounded(records.drop_last());
    }
}

/// The prompt from the structure's records, each with its kind and its line
/// decoded where it decodes.
pub fn assemble(records: Vec<(TraceKind, Option<Message>)>, identity: &str, tool_schemas: &Vec<String>) -> (prompt: Prompt)
    ensures
        prompt.identity@ == identity@,
        prompt.messages@ == conversation(records@),
        prompt.tool_schemas@ == tool_schemas@,
        prompt.undecodable == undecoded(records@),
{
    let ghost all = records@;
    let total: usize = records.len();
    let mut records = records;
    let mut backwards: Vec<(TraceKind, Option<Message>)> = Vec::new();
    while records.len() > 0
        invariant
            records@ + backwards@.reverse() == all,
        decreases records@.len(),
    {
        let ghost before_r = records@;
        let ghost before_b = backwards@;
        let record = records.pop().unwrap();
        backwards.push(record);
        proof {
            assert(backwards@.reverse() =~= seq![record] + before_b.reverse());
            assert(before_r =~= records@.push(record));
        }
    }
    proof {
        assert(backwards@.reverse() =~= all);
    }
    let mut messages: Vec<Message> = Vec::new();
    let mut undecodable: usize = 0;
    let ghost n = total as int;
    proof {
        assert(all.take(0) =~= Seq::<(TraceKind, Option<Message>)>::empty());
    }
    while backwards.len() > 0
        invariant
            backwards@.len() <= n,
            n <= usize::MAX,
            all.len() == n,
            backwards@.reverse() =~= all.skip(n - backwards@.len()),
            messages@ == conversation(all.take(n - backwards@.len())),
            undecodable == undecoded(all.take(n - backwards@.len())),
        decreases backwards@.len(),
    {
        let ghost done = n - backwards@.len();
        let ghost before_b = backwards@;
        let (kind, decoded) = backwards.pop().unwrap();
        proof {
            assert(before_b.reverse()[0] == before_b.last());
            assert(all.skip(done)[0] == all[done]);
            assert(all.take(done + 1).drop_last() =~= all.take(done));
            assert(all.take(done + 1).last() == all[done]);
            assert(backwards@.reverse() =~= before_b.reverse().drop_first());
            assert(all.skip(done).drop_first() =~= all.skip(done + 1));
            lemma_undecoded_bounded(all.take(done));
        }
        let is_message = match kind {
            TraceKind::MessageUser | TraceKind::MessageAssistant | TraceKind::MessageToolResult => true,
            _ => false,
        };
        if is_message {
            match decoded {
                Some(message) => messages.push(message),
                None => undecodable = undecodable + 1,
            }
        }
    }
    proof {
        assert(all.take(n as int) =~= all);
    }
    Prompt {
        identity: String::from_str(identity),
        messages,
        tool_schemas: tool_schemas.clone(),
        undecodable,
    }
}

} // verus!
