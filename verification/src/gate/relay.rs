//! The relay's per-connection state: the pass-through between the world and
//! the harness. Octets arrive, a line is bounded by a byte scan for the
//! delimiter and carried inside a frame unread, one exchange is open per
//! connection at a time, and the response returns with its delimiter
//! appended. The socket reads and writes happen at the composition root,
//! which hands each one's result to this state.

use vstd::prelude::*;
use crate::wire::{ExchangeId, Opener, OrganEnvelope, Payload, Position, TurnFrame};

verus! {

/// The client line's bound in octets before the delimiter, inclusive: a line
/// of exactly this length followed by its delimiter is legal.
pub const LINE_BOUND: usize = 32768;

/// The delimiter, one request per line.
pub const DELIMITER: u8 = 10;

/// `i` is the first delimiter in `s`.
pub open spec fn first_delimiter_at(s: Seq<u8>, i: int) -> bool {
    &&& 0 <= i < s.len()
    &&& s[i] == DELIMITER
    &&& forall|j: int| 0 <= j < i ==> s[j] != DELIMITER
}

/// `s` holds no delimiter.
pub open spec fn undelimited(s: Seq<u8>) -> bool {
    forall|j: int| 0 <= j < s.len() ==> s[j] != DELIMITER
}

/// Why a connection left the relay.
#[derive(Debug, Clone, Copy, PartialEq, Eq, Structural)]
pub enum Gone {
    /// The peer closed or its stream failed.
    PeerLeft,
    /// More than the bound stood undelimited, or a line exceeded it.
    PastTheBound,
    /// A response frame's carriage was not canonical.
    Unanswerable,
}

/// What a scan produced: nothing yet, or a frame opened toward the harness.
#[derive(Debug)]
pub enum Framed {
    Waiting,
    Opened(Box<OrganEnvelope>),
}

/// What one read on a connection returned.
#[derive(Debug)]
pub enum ReadOutcome {
    /// Octets arrived.
    Octets(Vec<u8>),
    /// A read of nothing: the peer closed its writing half.
    Closed,
    /// Nothing is ready now.
    WouldBlock,
    /// The stream failed.
    Failed,
}

/// What one write on a connection returned.
#[derive(Debug, Clone, Copy, PartialEq, Eq, Structural)]
pub enum WriteOutcome {
    /// The stream took this many octets from the front of what is owed.
    Wrote(usize),
    /// The stream takes nothing now.
    WouldBlock,
    /// The stream failed.
    Failed,
}

/// The abstract state of one served connection.
pub struct ServedView {
    pub input: Seq<u8>,
    pub outbound: Seq<u8>,
    pub exchange: Option<u64>,
    pub read_closed: bool,
}

/// One admitted connection under relay: the undelimited residual, the
/// responses not yet written, the open exchange if one stands, and whether
/// the peer closed its writing half.
#[derive(Debug)]
pub struct Served {
    input: Vec<u8>,
    outbound: Vec<u8>,
    exchange: Option<u64>,
    read_closed: bool,
}

impl View for Served {
    type V = ServedView;

    closed spec fn view(&self) -> ServedView {
        ServedView {
            input: self.input@,
            outbound: self.outbound@,
            exchange: self.exchange,
            read_closed: self.read_closed,
        }
    }
}

/// `envelope` opens the membrane's exchange under `ordinal`, carrying `line`.
pub open spec fn opens_line(envelope: OrganEnvelope, ordinal: u64, line: Seq<u8>) -> bool {
    &&& envelope.exchange == ExchangeId { opener: Opener::Gate, ordinal }
    &&& envelope.position == Position::Open
    &&& envelope.payload matches Payload::Frame(TurnFrame::Carried(carried)) && carried@ == line
}

/// A readable wake's account: a failed read is the peer's departure and
/// changes nothing; otherwise the read's octets join the residual (a read of
/// nothing marks the half-close) and the scan frames as `frames` says.
pub open spec fn reads(
    before: ServedView,
    ordinal: u64,
    read: ReadOutcome,
    result: Result<Framed, Gone>,
    after: ServedView,
    after_ordinal: u64,
) -> bool {
    match read {
        ReadOutcome::Failed => result matches Err(Gone::PeerLeft) && after == before
            && after_ordinal == ordinal,
        ReadOutcome::Octets(octets) => frames(
            ServedView { input: before.input + octets@, ..before },
            ordinal,
            result,
            after,
            after_ordinal,
        ),
        ReadOutcome::Closed => frames(
            ServedView { read_closed: true, ..before },
            ordinal,
            result,
            after,
            after_ordinal,
        ),
        ReadOutcome::WouldBlock => frames(before, ordinal, result, after, after_ordinal),
    }
}

/// The scan's outcome over a state and the ordinal counter, as a relation
/// between the state before, the result, the state after and the counter
/// before and after.
pub open spec fn frames(
    before: ServedView,
    ordinal: u64,
    result: Result<Framed, Gone>,
    after: ServedView,
    next: u64,
) -> bool {
    if before.exchange is Some || before.outbound.len() > 0 {
        // The cap: no second exchange while one is open or its response is owed.
        result matches Ok(Framed::Waiting) && after == before && next == ordinal
    } else if exists|i: int| first_delimiter_at(before.input, i) {
        let i = choose|i: int| first_delimiter_at(before.input, i);
        if i > LINE_BOUND {
            result matches Err(Gone::PastTheBound) && after == before && next == ordinal
        } else {
            &&& next == ordinal + 1
            &&& result matches Ok(Framed::Opened(envelope))
                && opens_line(*envelope, next, before.input.subrange(0, i))
            &&& after.input == before.input.subrange(i + 1, before.input.len() as int)
            &&& after.exchange == Some(next)
            &&& after.outbound == before.outbound
            &&& after.read_closed == before.read_closed
        }
    } else if before.input.len() > LINE_BOUND {
        result matches Err(Gone::PastTheBound) && after == before && next == ordinal
    } else {
        result matches Ok(Framed::Waiting) && after == before && next == ordinal
    }
}

impl Served {
    /// A judged connection enters the relay with nothing read, nothing owed
    /// and no exchange open.
    pub fn fresh() -> (served: Served)
        ensures
            served@.input == Seq::<u8>::empty(),
            served@.outbound == Seq::<u8>::empty(),
            served@.exchange is None,
            !served@.read_closed,
    {
        Served { input: Vec::new(), outbound: Vec::new(), exchange: None, read_closed: false }
    }

    /// Whether the read set wants this connection: only while no exchange is
    /// open, no response stands undelivered, and the peer still writes.
    pub fn wants_read(&self) -> (wants: bool)
        ensures
            wants == (!self@.read_closed && self@.exchange is None && self@.outbound.len() == 0),
    {
        !self.read_closed && self.exchange.is_none() && self.outbound.len() == 0
    }

    /// Whether the write set wants this connection: while a response stands
    /// undelivered.
    pub fn wants_write(&self) -> (wants: bool)
        ensures
            wants == (self@.outbound.len() > 0),
    {
        self.outbound.len() > 0
    }

    /// The octets owed to the peer, for the composition root to write.
    pub fn outbound(&self) -> (owed: &[u8])
        ensures
            owed@ == self@.outbound,
    {
        self.outbound.as_slice()
    }

    /// The open exchange, if one stands.
    pub fn exchange(&self) -> (open: Option<u64>)
        ensures
            open == self@.exchange,
    {
        self.exchange
    }

    /// Whether nothing remains to serve: the read side ended, no exchange is
    /// open, nothing is owed, and no complete line waits.
    pub fn spent(&self) -> (spent: bool)
        ensures
            spent == (self@.read_closed && self@.exchange is None && self@.outbound.len() == 0
                && undelimited(self@.input)),
    {
        self.read_closed && self.exchange.is_none() && self.outbound.len() == 0
            && find_delimiter(&self.input).is_none()
    }

    /// A readable wake: take what one read returned, then try to frame a
    /// line. A read of nothing is the peer's half-close, not its departure.
    pub fn on_readable(&mut self, read: ReadOutcome, next_ordinal: &mut u64) -> (result: Result<Framed, Gone>)
        requires
            *old(next_ordinal) < u64::MAX,
        ensures
            reads(old(self)@, *old(next_ordinal), read, result, final(self)@, *final(next_ordinal)),
    {
        match read {
            ReadOutcome::Octets(octets) => {
                let mut octets = octets;
                self.input.append(&mut octets);
            },
            ReadOutcome::Closed => {
                self.read_closed = true;
            },
            ReadOutcome::WouldBlock => {},
            ReadOutcome::Failed => {
                return Err(Gone::PeerLeft);
            },
        }
        self.frame_one(next_ordinal)
    }

    /// Scan the residual for the delimiter and open an exchange if a line
    /// stands and none is open, minting the exchange's ordinal.
    pub fn frame_one(&mut self, next_ordinal: &mut u64) -> (result: Result<Framed, Gone>)
        requires
            *old(next_ordinal) < u64::MAX,
        ensures
            frames(old(self)@, *old(next_ordinal), result, final(self)@, *final(next_ordinal)),
    {
        if self.exchange.is_some() || self.outbound.len() > 0 {
            return Ok(Framed::Waiting);
        }
        match find_delimiter(&self.input) {
            Some(at) => {
                proof {
                    assert(first_delimiter_at(self.input@, at as int));
                }
                if at > LINE_BOUND {
                    return Err(Gone::PastTheBound);
                }
                let ghost whole = self.input@;
                let mut line: Vec<u8> = Vec::new();
                std::mem::swap(&mut line, &mut self.input);
                let rest = line.split_off(at + 1);
                line.truncate(at);
                self.input = rest;
                *next_ordinal = *next_ordinal + 1;
                self.exchange = Some(*next_ordinal);
                proof {
                    assert(line@ =~= whole.subrange(0, at as int));
                }
                Ok(
                    Framed::Opened(
                        Box::new(
                            OrganEnvelope {
                                exchange: ExchangeId { opener: Opener::Gate, ordinal: *next_ordinal },
                                position: Position::Open,
                                payload: Payload::Frame(TurnFrame::Carried(line)),
                            },
                        ),
                    ),
                )
            },
            None => {
                if self.input.len() > LINE_BOUND {
                    Err(Gone::PastTheBound)
                } else {
                    Ok(Framed::Waiting)
                }
            },
        }
    }

    /// A response routed here: queue its line with the delimiter appended and
    /// close the exchange entry. A frame whose carriage is not canonical
    /// cannot be answered truthfully and leaves the state as it was.
    pub fn on_response(&mut self, frame: &TurnFrame) -> (result: Result<(), Gone>)
        ensures
            match frame {
                TurnFrame::Carried(line) => {
                    &&& result is Ok
                    &&& final(self)@.outbound == old(self)@.outbound + line@.push(DELIMITER)
                    &&& final(self)@.exchange is None
                    &&& final(self)@.input == old(self)@.input
                    &&& final(self)@.read_closed == old(self)@.read_closed
                },
                TurnFrame::NonCanonical => result matches Err(Gone::Unanswerable) && final(self)@ == old(self)@,
            },
    {
        match frame {
            TurnFrame::Carried(line) => {
                let mut owed = line.clone();
                proof {
                    assert(owed@ =~= line@);
                }
                owed.push(DELIMITER);
                self.outbound.append(&mut owed);
                self.exchange = None;
                Ok(())
            },
            TurnFrame::NonCanonical => Err(Gone::Unanswerable),
        }
    }

    /// A writable wake: account for what one write took. A write that took
    /// nothing, or failed, is the peer gone.
    pub fn on_writable(&mut self, wrote: WriteOutcome) -> (result: Result<(), Gone>)
        requires
            wrote matches WriteOutcome::Wrote(n) ==> n <= old(self)@.outbound.len(),
        ensures
            match wrote {
                WriteOutcome::Wrote(n) => if n == 0 {
                    result matches Err(Gone::PeerLeft) && final(self)@ == old(self)@
                } else {
                    &&& result is Ok
                    &&& final(self)@.outbound == old(self)@.outbound.subrange(
                        n as int,
                        old(self)@.outbound.len() as int,
                    )
                    &&& final(self)@.input == old(self)@.input
                    &&& final(self)@.exchange == old(self)@.exchange
                    &&& final(self)@.read_closed == old(self)@.read_closed
                },
                WriteOutcome::WouldBlock => result is Ok && final(self)@ == old(self)@,
                WriteOutcome::Failed => result matches Err(Gone::PeerLeft) && final(self)@ == old(self)@,
            },
    {
        match wrote {
            WriteOutcome::Wrote(n) => {
                if n == 0 {
                    return Err(Gone::PeerLeft);
                }
                let rest = self.outbound.split_off(n);
                self.outbound = rest;
                Ok(())
            },
            WriteOutcome::WouldBlock => Ok(()),
            WriteOutcome::Failed => Err(Gone::PeerLeft),
        }
    }
}

/// The raised window's relay state: the served connections, the envelopes
/// the channel could not take yet, and the ordinal the membrane numbers its
/// exchanges from.
pub struct Relay {
    served: Vec<Served>,
    pending: std::collections::VecDeque<OrganEnvelope>,
    next_ordinal: u64,
}

/// The connections other than `at` are as they were.
pub open spec fn others_unchanged(before: Seq<Served>, after: Seq<Served>, at: int) -> bool {
    &&& after.len() == before.len()
    &&& forall|j: int| 0 <= j < before.len() && j != at ==> after[j] == before[j]
}

impl Relay {
    /// The served connections.
    pub closed spec fn connections(&self) -> Seq<Served> {
        self.served@
    }

    /// The envelopes waiting on the channel.
    pub closed spec fn queued(&self) -> Seq<OrganEnvelope> {
        self.pending@
    }

    /// The last ordinal minted.
    pub closed spec fn ordinal(&self) -> u64 {
        self.next_ordinal
    }

    /// An empty relay: no connection, nothing pending, no exchange minted.
    pub fn new() -> (relay: Relay)
        ensures
            relay.connections().len() == 0,
            relay.queued().len() == 0,
            relay.ordinal() == 0,
    {
        Relay { served: Vec::new(), pending: std::collections::VecDeque::new(), next_ordinal: 0 }
    }

    /// Whether another exchange can be minted: the ordinal has room.
    pub fn can_mint(&self) -> (can: bool)
        ensures
            can == (self.ordinal() < u64::MAX),
    {
        self.next_ordinal < u64::MAX
    }

    /// How many connections are served.
    pub fn connection_count(&self) -> (n: usize)
        ensures
            n == self.connections().len(),
    {
        self.served.len()
    }

    /// The connection at `at`, where one stands.
    pub fn connection(&self, at: usize) -> (c: Option<&Served>)
        ensures
            at < self.connections().len() ==> c == Some(&self.connections()[at as int]),
            at >= self.connections().len() ==> c is None,
    {
        if at < self.served.len() {
            Some(&self.served[at])
        } else {
            None
        }
    }

    /// The connection at `at`, to be served in place; nothing else changes.
    pub fn connection_mut(&mut self, at: usize) -> (c: &mut Served)
        requires
            at < old(self).connections().len(),
        ensures
            *c == old(self).connections()[at as int],
            final(self).connections() == old(self).connections().update(at as int, *final(c)),
            final(self).queued() == old(self).queued(),
            final(self).ordinal() == old(self).ordinal(),
    {
        &mut self.served[at]
    }

    /// Keeps an admitted connection, last.
    pub fn keep(&mut self, served: Served)
        ensures
            final(self).connections() == old(self).connections().push(served),
            final(self).queued() == old(self).queued(),
            final(self).ordinal() == old(self).ordinal(),
    {
        self.served.push(served);
    }

    /// Lets the connection at `at` go, the last connection taking its place.
    pub fn release(&mut self, at: usize)
        requires
            at < old(self).connections().len(),
        ensures
            final(self).connections() == old(self).connections().update(
                at as int,
                old(self).connections().last(),
            ).drop_last(),
            final(self).queued() == old(self).queued(),
            final(self).ordinal() == old(self).ordinal(),
    {
        self.served.swap_remove(at);
    }

    /// How many envelopes wait on the channel.
    pub fn queued_count(&self) -> (n: usize)
        ensures
            n == self.queued().len(),
    {
        self.pending.len()
    }

    /// The envelope waiting longest, where one waits.
    pub fn front(&self) -> (e: Option<&OrganEnvelope>)
        ensures
            self.queued().len() > 0 ==> e == Some(&self.queued()[0]),
            self.queued().len() == 0 ==> e is None,
    {
        if self.pending.len() > 0 {
            Some(&self.pending[0])
        } else {
            None
        }
    }

    /// Holds an envelope the channel could not take yet, behind the others.
    pub fn queue(&mut self, envelope: OrganEnvelope)
        ensures
            final(self).queued() == old(self).queued().push(envelope),
            final(self).connections() == old(self).connections(),
            final(self).ordinal() == old(self).ordinal(),
    {
        self.pending.push_back(envelope);
    }

    /// Drops the envelope waiting longest, once the channel took it.
    pub fn unqueue(&mut self)
        requires
            old(self).queued().len() > 0,
        ensures
            final(self).queued() == old(self).queued().drop_first(),
            final(self).connections() == old(self).connections(),
            final(self).ordinal() == old(self).ordinal(),
    {
        self.pending.pop_front();
    }

    /// Frames the next line on connection `at` if one stands and no exchange
    /// is open there, minting the exchange under the membrane's own ordinal.
    pub fn frame_one(&mut self, at: usize) -> (result: Result<Framed, Gone>)
        requires
            old(self).ordinal() < u64::MAX,
        ensures
            final(self).queued() == old(self).queued(),
            if at < old(self).connections().len() {
                &&& frames(
                    old(self).connections()[at as int]@,
                    old(self).ordinal(),
                    result,
                    final(self).connections()[at as int]@,
                    final(self).ordinal(),
                )
                &&& others_unchanged(old(self).connections(), final(self).connections(), at as int)
            } else {
                result matches Ok(Framed::Waiting) && final(self).connections() == old(self).connections()
                    && final(self).ordinal() == old(self).ordinal()
            },
    {
        if at >= self.served.len() {
            return Ok(Framed::Waiting);
        }
        self.served[at].frame_one(&mut self.next_ordinal)
    }

    /// A readable wake on connection `at`: take the read and frame if a line
    /// stands.
    pub fn read_one(&mut self, at: usize, read: ReadOutcome) -> (result: Result<Framed, Gone>)
        requires
            old(self).ordinal() < u64::MAX,
        ensures
            final(self).queued() == old(self).queued(),
            at >= old(self).connections().len() ==> (result matches Ok(Framed::Waiting)
                && final(self).connections() == old(self).connections() && final(self).ordinal() == old(
                self).ordinal()),
            at < old(self).connections().len() ==> others_unchanged(
                old(self).connections(),
                final(self).connections(),
                at as int,
            ),
            at < old(self).connections().len() ==> reads(
                old(self).connections()[at as int]@,
                old(self).ordinal(),
                read,
                result,
                final(self).connections()[at as int]@,
                final(self).ordinal(),
            ),
    {
        if at >= self.served.len() {
            return Ok(Framed::Waiting);
        }
        self.served[at].on_readable(read, &mut self.next_ordinal)
    }

    /// The index of the connection owed the response on exchange `ordinal`,
    /// or none where that connection already left.
    pub fn owed(&self, ordinal: u64) -> (at: Option<usize>)
        ensures
            match at {
                Some(i) => i < self.connections().len() && self.connections()[i as int]@.exchange == Some(
                    ordinal,
                ) && forall|j: int|
                    0 <= j < i ==> self.connections()[j]@.exchange != Some(ordinal),
                None => forall|j: int|
                    0 <= j < self.connections().len() ==> self.connections()[j]@.exchange != Some(ordinal),
            },
    {
        let mut i: usize = 0;
        while i < self.served.len()
            invariant
                i <= self.connections().len(),
                forall|j: int| 0 <= j < i ==> self.connections()[j]@.exchange != Some(ordinal),
            decreases self.connections().len() - i,
        {
            if self.served[i].exchange() == Some(ordinal) {
                return Some(i);
            }
            i = i + 1;
        }
        None
    }
}

/// **Octets are carried in order, unread, and nothing is skipped.** When a
/// scan opens an exchange, the line it carries, followed by its delimiter and
/// the residual it leaves, is exactly the residual it found; the line holds
/// no delimiter and is within the bound.
pub proof fn lemma_framing_carries_the_line_whole(
    before: ServedView,
    ordinal: u64,
    envelope: Box<OrganEnvelope>,
    after: ServedView,
    next: u64,
)
    requires
        frames(before, ordinal, Ok(Framed::Opened(envelope)), after, next),
    ensures
        next == ordinal + 1,
        envelope.payload matches Payload::Frame(TurnFrame::Carried(line)) && {
            &&& line@.push(DELIMITER) + after.input == before.input
            &&& undelimited(line@)
            &&& line@.len() <= LINE_BOUND
        },
        after.exchange == Some(next),
{
    let i = choose|i: int| first_delimiter_at(before.input, i);
    if let Payload::Frame(TurnFrame::Carried(line)) = envelope.payload {
        assert(line@.push(DELIMITER) + after.input =~= before.input);
    }
}

/// **One exchange is open per connection.** Once a scan has opened an
/// exchange, every further scan waits and changes nothing until the response
/// returns, however many lines the residual holds.
pub proof fn lemma_one_exchange_open_per_connection(
    state: ServedView,
    ordinal: u64,
    result: Result<Framed, Gone>,
    after: ServedView,
    next: u64,
)
    requires
        state.exchange is Some,
        frames(state, ordinal, result, after, next),
    ensures
        result matches Ok(Framed::Waiting),
        after == state,
        next == ordinal,
{
}

/// **The bound is inclusive, and one octet more closes the connection.**
/// A residual whose first line is exactly the bound long frames; a residual
/// holding more than the bound with no delimiter is past the bound.
pub proof fn lemma_the_bound_is_inclusive(
    state: ServedView,
    ordinal: u64,
    result: Result<Framed, Gone>,
    after: ServedView,
    next: u64,
)
    requires
        state.exchange is None,
        state.outbound.len() == 0,
        ordinal < u64::MAX,
        frames(state, ordinal, result, after, next),
    ensures
        (state.input.len() > LINE_BOUND && first_delimiter_at(state.input, LINE_BOUND as int))
            ==> (result matches Ok(Framed::Opened(_))),
        (state.input.len() > LINE_BOUND && undelimited(state.input)) ==> (result matches Err(
            Gone::PastTheBound,
        )),
{
    if state.input.len() > LINE_BOUND && first_delimiter_at(state.input, LINE_BOUND as int) {
        let i = choose|i: int| first_delimiter_at(state.input, i);
        if i != LINE_BOUND {
            assert(state.input[LINE_BOUND as int] == DELIMITER);
            assert(state.input[i] == DELIMITER);
        }
    }
}

/// The index of the first delimiter in `octets`, if one stands.
pub fn find_delimiter(octets: &Vec<u8>) -> (at: Option<usize>)
    ensures
        match at {
            Some(i) => first_delimiter_at(octets@, i as int),
            None => undelimited(octets@),
        },
{
    let mut i: usize = 0;
    while i < octets.len()
        invariant
            i <= octets.len(),
            forall|j: int| 0 <= j < i ==> octets@[j] != DELIMITER,
        decreases octets.len() - i,
    {
        if octets[i] == DELIMITER {
            return Some(i);
        }
        i = i + 1;
    }
    None
}

} // verus!
