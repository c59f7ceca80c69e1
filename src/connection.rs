//! The per-connection protocol as a state machine.
//!
//! A driver owns the socket. It hands each outcome to [`Connection::step`] as
//! an [`Event`] and performs the [`Action`] that comes back, until the action
//! is `Close` or `Abort`; then it drops the socket.
use vstd::prelude::*;

use crate::head::copy_bytes;
use crate::server::{ServerView, SoCloseServer, BLOCK_SIZE};

verus! {

/// Where a connection stands.
#[derive(PartialEq, Eq, Structural, Clone, Copy, Debug)]
pub enum Phase {
    /// Accepted; nothing done yet.
    Start,
    /// Deadlines are being applied to the socket.
    Configuring,
    /// The first bytes of the request are being read.
    AwaitingRequest,
    /// The refusal of a request other than `GET` is being written.
    Rejecting,
    /// The response head is being written.
    SendingHead,
    /// Body block `k` (from zero) is being written.
    SendingBlock(u64),
    /// `k` body blocks are written; the pause after the last of them runs.
    Pausing(u64),
    /// All blocks are written; the connection idles before it closes.
    Idling,
    /// Finished: the response was sent.
    Closed,
    /// Finished: the connection failed or the request was refused.
    Aborted,
}

/// Why a connection ended without a full response.
#[derive(PartialEq, Eq, Structural, Clone, Copy, Debug)]
pub enum ConnError {
    /// A socket operation failed or ran past its deadline.
    Io,
    /// The request did not begin with `GET `.
    NotGet,
}

/// What came of the last action.
#[derive(Debug)]
pub enum Event {
    /// It completed: the connection was accepted, a write was flushed whole,
    /// deadlines were applied or a pause ended.
    Done,
    /// A read completed with these bytes.
    Received(Vec<u8>),
    /// It failed or ran past its deadline.
    Failed,
}

/// What the driver does next.
#[derive(Debug)]
pub enum Action {
    /// Apply this read and write deadline, in nanoseconds, to the socket.
    SetDeadline(Option<u64>),
    /// Read exactly the first `REQUEST_PREFIX_LEN` bytes of the request.
    ReadRequest,
    /// Write all of these bytes.
    Write(Vec<u8>),
    /// Write one body block: `BLOCK_SIZE` zero bytes.
    WriteBlock,
    /// Pause for this many nanoseconds, without socket activity.
    Sleep(u64),
    /// Finished with success: close the connection.
    Close,
    /// Finished with this error: close the connection.
    Abort(ConnError),
}

/// An event as plain values.
pub enum EventView {
    Done,
    Received(Seq<u8>),
    Failed,
}

/// An action as plain values.
pub enum ActionView {
    SetDeadline(Option<u64>),
    ReadRequest,
    Write(Seq<u8>),
    WriteBlock,
    Sleep(nat),
    Close,
    Abort(ConnError),
}

impl View for Event {
    type V = EventView;

    open spec fn view(&self) -> EventView {
        match self {
            Event::Done => EventView::Done,
            Event::Received(b) => EventView::Received(b@),
            Event::Failed => EventView::Failed,
        }
    }
}

impl View for Action {
    type V = ActionView;

    open spec fn view(&self) -> ActionView {
        match self {
            Action::SetDeadline(d) => ActionView::SetDeadline(*d),
            Action::ReadRequest => ActionView::ReadRequest,
            Action::Write(b) => ActionView::Write(b@),
            Action::WriteBlock => ActionView::WriteBlock,
            Action::Sleep(n) => ActionView::Sleep(*n as nat),
            Action::Close => ActionView::Close,
            Action::Abort(e) => ActionView::Abort(*e),
        }
    }
}

/// Number of request bytes read and inspected.
pub const REQUEST_PREFIX_LEN: usize = 4;

/// `"GET "`
pub open spec fn get_prefix() -> Seq<u8> {
    seq![71, 69, 84, 32]
}

/// `"HTTP/1.1 405 Method Not Allowed\r\n\r\n"`
pub open spec fn rejection() -> Seq<u8> {
    seq![
        72, 84, 84, 80, 47, 49, 46, 49, 32, 52, 48, 53, 32, 77, 101, 116, 104, 111, 100, 32,
        78, 111, 116, 32, 65, 108, 108, 111, 119, 101, 100, 13, 10, 13, 10,
    ]
}

/// Whether a phase is final.
pub open spec fn is_final(p: Phase) -> bool {
    p == Phase::Closed || p == Phase::Aborted
}

/// The phase and action once `k` body blocks and their pauses are done: the
/// next block, or the idle pause when all are sent.
pub open spec fn after_blocks(sv: ServerView, k: nat) -> (Phase, ActionView) {
    if k >= sv.block_count {
        (Phase::Idling, ActionView::Sleep(sv.idle_after))
    } else {
        (Phase::SendingBlock(k as u64), ActionView::WriteBlock)
    }
}

/// The phase a connection moves to, and the action it asks for, when `e`
/// comes in phase `p`. Any failure, and any event that does not answer the
/// action asked for, ends the connection with `ConnError::Io`.
pub open spec fn next(sv: ServerView, p: Phase, e: EventView) -> (Phase, ActionView) {
    let io_abort = (Phase::Aborted, ActionView::Abort(ConnError::Io));
    match p {
        Phase::AwaitingRequest => match e {
            EventView::Received(b) => if b == get_prefix() {
                (Phase::SendingHead, ActionView::Write(sv.head))
            } else if b.len() == REQUEST_PREFIX_LEN {
                (Phase::Rejecting, ActionView::Write(rejection()))
            } else {
                io_abort
            },
            _ => io_abort,
        },
        _ => match e {
            EventView::Done => match p {
                Phase::Start => (Phase::Configuring, ActionView::SetDeadline(sv.deadline)),
                Phase::Configuring => (Phase::AwaitingRequest, ActionView::ReadRequest),
                Phase::Rejecting => (Phase::Aborted, ActionView::Abort(ConnError::NotGet)),
                Phase::SendingHead => after_blocks(sv, 0),
                Phase::SendingBlock(k) => (
                    Phase::Pausing((k + 1) as u64),
                    ActionView::Sleep(sv.block_delay),
                ),
                Phase::Pausing(k) => after_blocks(sv, k as nat),
                Phase::Idling => (Phase::Closed, ActionView::Close),
                _ => io_abort,
            },
            _ => io_abort,
        },
    }
}

/// Whether a phase fits a server: block numbers stay within its block count.
pub open spec fn phase_fits(sv: ServerView, p: Phase) -> bool {
    match p {
        Phase::SendingBlock(k) => k < sv.block_count,
        Phase::Pausing(k) => k <= sv.block_count,
        _ => true,
    }
}

/// One connection's progress through the protocol.
pub struct Connection {
    pub phase: Phase,
}

impl Connection {
    /// A connection that was just accepted.
    pub fn new() -> (r: Connection)
        ensures
            r.phase == Phase::Start,
    {
        Connection { phase: Phase::Start }
    }

    /// Whether the connection has finished.
    pub fn is_finished(&self) -> (r: bool)
        ensures
            r == is_final(self.phase),
    {
        matches!(self.phase, Phase::Closed | Phase::Aborted)
    }

    /// Takes the outcome of the last action and returns the next action.
    pub fn step(&mut self, server: &SoCloseServer, event: Event) -> (a: Action)
        requires
            !is_final(old(self).phase),
            phase_fits(server@, old(self).phase),
        ensures
            (final(self).phase, a@) == next(server@, old(self).phase, event@),
            phase_fits(server@, final(self).phase),
    {
        match self.phase {
            Phase::AwaitingRequest => match event {
                Event::Received(b) => {
                    if b.len() == REQUEST_PREFIX_LEN && b[0] == 71 && b[1] == 69 && b[2] == 84
                        && b[3] == 32 {
                        assert(b@ =~= get_prefix());
                        self.phase = Phase::SendingHead;
                        Action::Write(copy_bytes(server.response_head()))
                    } else if b.len() == REQUEST_PREFIX_LEN {
                        assert(b@ != get_prefix()) by {
                            if b@ == get_prefix() {
                                assert(b@[0] == 71 && b@[1] == 69 && b@[2] == 84 && b@[3] == 32);
                            }
                        }
                        self.phase = Phase::Rejecting;
                        let r: Vec<u8> = vec![
                            72, 84, 84, 80, 47, 49, 46, 49, 32, 52, 48, 53, 32, 77, 101, 116, 104,
                            111, 100, 32, 78, 111, 116, 32, 65, 108, 108, 111, 119, 101, 100, 13,
                            10, 13, 10,
                        ];
                        assert(r@ =~= rejection());
                        Action::Write(r)
                    } else {
                        self.phase = Phase::Aborted;
                        Action::Abort(ConnError::Io)
                    }
                },
                _ => {
                    self.phase = Phase::Aborted;
                    Action::Abort(ConnError::Io)
                },
            },
            _ => match event {
                Event::Done => match self.phase {
                    Phase::Start => {
                        self.phase = Phase::Configuring;
                        Action::SetDeadline(server.deadline())
                    },
                    Phase::Configuring => {
                        self.phase = Phase::AwaitingRequest;
                        Action::ReadRequest
                    },
                    Phase::Rejecting => {
                        self.phase = Phase::Aborted;
                        Action::Abort(ConnError::NotGet)
                    },
                    Phase::SendingHead => self.after_blocks(server, 0),
                    Phase::SendingBlock(k) => {
                        let count = server.block_count();
                        assert(k < count);
                        self.phase = Phase::Pausing(k + 1);
                        Action::Sleep(server.block_delay())
                    },
                    Phase::Pausing(k) => self.after_blocks(server, k),
                    Phase::Idling => {
                        self.phase = Phase::Closed;
                        Action::Close
                    },
                    _ => {
                        self.phase = Phase::Aborted;
                        Action::Abort(ConnError::Io)
                    },
                },
                _ => {
                    self.phase = Phase::Aborted;
                    Action::Abort(ConnError::Io)
                },
            },
        }
    }

    /// Moves on once `k` blocks and their pauses are done.
    fn after_blocks(&mut self, server: &SoCloseServer, k: u64) -> (a: Action)
        requires
            k <= server@.block_count,
        ensures
            (final(self).phase, a@) == after_blocks(server@, k as nat),
            phase_fits(server@, final(self).phase),
    {
        if k >= server.block_count() {
            self.phase = Phase::Idling;
            Action::Sleep(server.idle_after())
        } else {
            self.phase = Phase::SendingBlock(k);
            Action::WriteBlock
        }
    }
}

/// The actions a connection in phase `p` asks for as the events `events`
/// come in turn; it asks for nothing once it has finished.
pub open spec fn run(sv: ServerView, p: Phase, events: Seq<EventView>) -> Seq<ActionView>
    decreases events.len(),
{
    if events.len() == 0 || is_final(p) {
        Seq::empty()
    } else {
        let (q, a) = next(sv, p, events[0]);
        seq![a] + run(sv, q, events.drop_first())
    }
}

/// `n` body blocks, each followed by a pause of `delay` nanoseconds.
pub open spec fn body_actions(n: nat, delay: nat) -> Seq<ActionView>
    decreases n,
{
    if n == 0 {
        Seq::empty()
    } else {
        seq![ActionView::WriteBlock, ActionView::Sleep(delay)] + body_actions((n - 1) as nat, delay)
    }
}

/// Whether every event is `Done`.
pub open spec fn all_done(events: Seq<EventView>) -> bool {
    forall|i: int| 0 <= i < events.len() ==> events[i] == EventView::Done
}

/// From `k` blocks done, with every operation succeeding, the remaining
/// blocks go out, then the idle pause, then the close.
proof fn lemma_blocks_then_close(sv: ServerView, k: nat, events: Seq<EventView>)
    requires
        sv.block_count <= u64::MAX,
        k <= sv.block_count,
        events.len() == 2 * (sv.block_count - k) + 1,
        all_done(events),
    ensures
        seq![after_blocks(sv, k).1] + run(sv, after_blocks(sv, k).0, events) == body_actions(
            (sv.block_count - k) as nat,
            sv.block_delay,
        ) + seq![ActionView::Sleep(sv.idle_after), ActionView::Close],
    decreases sv.block_count - k,
{
    let tail = seq![ActionView::Sleep(sv.idle_after), ActionView::Close];
    if k >= sv.block_count {
        assert(run(sv, Phase::Closed, events.drop_first()) == Seq::<ActionView>::empty());
        assert(run(sv, Phase::Idling, events) =~= seq![ActionView::Close]);
        assert(seq![after_blocks(sv, k).1] + run(sv, after_blocks(sv, k).0, events) =~= tail);
        assert(body_actions(0, sv.block_delay) =~= Seq::<ActionView>::empty());
        assert(body_actions(0, sv.block_delay) + tail =~= tail);
    } else {
        let rest = events.drop_first();
        let rest2 = rest.drop_first();
        assert(events[0] == EventView::Done);
        assert(rest[0] == EventView::Done);
        assert(all_done(rest2));
        lemma_blocks_then_close(sv, k + 1, rest2);
        let p1 = Phase::Pausing((k + 1) as u64);
        assert(((k + 1) as u64) as nat == k + 1);
        assert(next(sv, p1, rest[0]) == after_blocks(sv, k + 1));
        assert(run(sv, p1, rest) == seq![after_blocks(sv, k + 1).1] + run(
            sv,
            after_blocks(sv, k + 1).0,
            rest2,
        ));
        assert(run(sv, Phase::SendingBlock(k as u64), events) == seq![
            ActionView::Sleep(sv.block_delay),
        ] + run(sv, p1, rest));
        let n = (sv.block_count - k) as nat;
        assert(body_actions(n, sv.block_delay) == seq![
            ActionView::WriteBlock,
            ActionView::Sleep(sv.block_delay),
        ] + body_actions((n - 1) as nat, sv.block_delay));
        assert((n - 1) as nat == sv.block_count - (k + 1));
        assert(seq![after_blocks(sv, k).1] + run(sv, after_blocks(sv, k).0, events) =~= body_actions(
            n,
            sv.block_delay,
        ) + tail);
    }
}

/// A request that begins with `GET `, on a connection whose every operation
/// succeeds, gets the deadline applied, the response head, exactly the
/// server's number of body blocks with the pause after each, and then the
/// idle pause, after which the connection closes.
pub proof fn lemma_get_served(server: SoCloseServer, events: Seq<EventView>)
    requires
        events.len() == 2 * server@.block_count + 5,
        events[0] == EventView::Done,
        events[1] == EventView::Done,
        events[2] == EventView::Received(get_prefix()),
        all_done(events.subrange(3, events.len() as int)),
    ensures
        run(server@, Phase::Start, events) == seq![
            ActionView::SetDeadline(server@.deadline),
            ActionView::ReadRequest,
            ActionView::Write(server@.head),
        ] + body_actions(server@.block_count, server@.block_delay) + seq![
            ActionView::Sleep(server@.idle_after),
            ActionView::Close,
        ],
{
    let sv = server@;
    server.lemma_bounds();
    let e1 = events.drop_first();
    let e2 = e1.drop_first();
    let e3 = e2.drop_first();
    let e4 = e3.drop_first();
    assert(e3 =~= events.subrange(3, events.len() as int));
    assert(e3[0] == EventView::Done);
    assert(all_done(e4));
    lemma_blocks_then_close(sv, 0, e4);
    assert(run(sv, Phase::SendingHead, e3) == seq![after_blocks(sv, 0).1] + run(
        sv,
        after_blocks(sv, 0).0,
        e4,
    ));
    assert(run(sv, Phase::AwaitingRequest, e2) == seq![ActionView::Write(sv.head)] + run(
        sv,
        Phase::SendingHead,
        e3,
    ));
    assert(run(sv, Phase::Configuring, e1) == seq![ActionView::ReadRequest] + run(
        sv,
        Phase::AwaitingRequest,
        e2,
    ));
    assert(run(sv, Phase::Start, events) == seq![ActionView::SetDeadline(sv.deadline)] + run(
        sv,
        Phase::Configuring,
        e1,
    ));
    assert(run(sv, Phase::Start, events) =~= seq![
        ActionView::SetDeadline(sv.deadline),
        ActionView::ReadRequest,
        ActionView::Write(sv.head),
    ] + body_actions(sv.block_count, sv.block_delay) + seq![
        ActionView::Sleep(sv.idle_after),
        ActionView::Close,
    ]);
}

/// A request whose first four bytes are not `GET ` is answered with the
/// refusal alone: whatever follows, the connection then ends, with
/// `ConnError::NotGet` once the refusal is written, and nothing else is sent.
pub proof fn lemma_other_request_refused(
    server: SoCloseServer,
    request: Seq<u8>,
    events: Seq<EventView>,
)
    requires
        request.len() == REQUEST_PREFIX_LEN,
        request != get_prefix(),
    ensures
        run(server@, Phase::AwaitingRequest, seq![EventView::Received(request)] + events) == if events.len() == 0 {
            seq![ActionView::Write(rejection())]
        } else if events[0] == EventView::Done {
            seq![ActionView::Write(rejection()), ActionView::Abort(ConnError::NotGet)]
        } else {
            seq![ActionView::Write(rejection()), ActionView::Abort(ConnError::Io)]
        },
{
    let sv = server@;
    let all = seq![EventView::Received(request)] + events;
    assert(all.drop_first() =~= events);
    assert(run(sv, Phase::AwaitingRequest, all) == seq![ActionView::Write(rejection())] + run(
        sv,
        Phase::Rejecting,
        events,
    ));
    if events.len() == 0 {
        assert(run(sv, Phase::AwaitingRequest, all) =~= seq![ActionView::Write(rejection())]);
    } else {
        assert(run(sv, Phase::Aborted, events.drop_first()) == Seq::<ActionView>::empty());
        assert(run(sv, Phase::AwaitingRequest, all) =~= seq![
            ActionView::Write(rejection()),
            run(sv, Phase::Rejecting, events)[0],
        ]);
    }
}

/// `n` zero bytes.
pub open spec fn zeros(n: nat) -> Seq<u8> {
    Seq::new(n, |i: int| 0u8)
}

/// The bytes an action puts on the wire.
pub open spec fn bytes_of(a: ActionView) -> Seq<u8> {
    match a {
        ActionView::Write(b) => b,
        ActionView::WriteBlock => zeros(BLOCK_SIZE as nat),
        _ => Seq::empty(),
    }
}

/// The bytes a sequence of actions puts on the wire, in order.
pub open spec fn written(actions: Seq<ActionView>) -> Seq<u8>
    decreases actions.len(),
{
    if actions.len() == 0 {
        Seq::empty()
    } else {
        bytes_of(actions[0]) + written(actions.drop_first())
    }
}

proof fn lemma_written_concat(a: Seq<ActionView>, b: Seq<ActionView>)
    ensures
        written(a + b) == written(a) + written(b),
    decreases a.len(),
{
    if a.len() == 0 {
        assert(a + b =~= b);
        assert(written(a) + written(b) =~= written(b));
    } else {
        lemma_written_concat(a.drop_first(), b);
        assert((a + b).drop_first() =~= a.drop_first() + b);
        assert(written(a + b) =~= written(a) + written(b));
    }
}

proof fn lemma_body_written(n: nat, delay: nat)
    ensures
        written(body_actions(n, delay)) == zeros(n * (BLOCK_SIZE as nat)),
    decreases n,
{
    if n == 0 {
        assert(written(body_actions(n, delay)) =~= zeros(0));
    } else {
        let m = (n - 1) as nat;
        lemma_body_written(m, delay);
        let pair = seq![ActionView::WriteBlock, ActionView::Sleep(delay)];
        lemma_written_concat(pair, body_actions(m, delay));
        reveal_with_fuel(written, 3);
        assert(pair.drop_first().drop_first() =~= Seq::<ActionView>::empty());
        assert(written(pair.drop_first()) =~= Seq::<u8>::empty());
        assert(written(pair) =~= zeros(BLOCK_SIZE as nat));
        assert(m * BLOCK_SIZE + BLOCK_SIZE == n * BLOCK_SIZE) by (nonlinear_arith)
            requires
                m == n - 1,
        ;
        assert(zeros(BLOCK_SIZE as nat) + zeros(m * (BLOCK_SIZE as nat)) =~= zeros(n * (BLOCK_SIZE as nat)));
    }
}

/// What a served `GET` puts on the wire is the response head followed by
/// exactly the server's block count times `BLOCK_SIZE` zero bytes, whatever
/// length the head declares.
pub proof fn lemma_get_body_length(server: SoCloseServer, events: Seq<EventView>)
    requires
        events.len() == 2 * server@.block_count + 5,
        events[0] == EventView::Done,
        events[1] == EventView::Done,
        events[2] == EventView::Received(get_prefix()),
        all_done(events.subrange(3, events.len() as int)),
    ensures
        written(run(server@, Phase::Start, events)) == server@.head + zeros(
            server@.block_count * (BLOCK_SIZE as nat),
        ),
{
    let sv = server@;
    lemma_get_served(server, events);
    let front = seq![
        ActionView::SetDeadline(sv.deadline),
        ActionView::ReadRequest,
        ActionView::Write(sv.head),
    ];
    let body = body_actions(sv.block_count, sv.block_delay);
    let back = seq![ActionView::Sleep(sv.idle_after), ActionView::Close];
    lemma_written_concat(front + body, back);
    lemma_written_concat(front, body);
    lemma_body_written(sv.block_count, sv.block_delay);
    reveal_with_fuel(written, 4);
    assert(front.drop_first().drop_first().drop_first() =~= Seq::<ActionView>::empty());
    assert(written(front.drop_first()) =~= Seq::<u8>::empty() + sv.head);
    assert(written(front) =~= sv.head);
    assert(back.drop_first().drop_first() =~= Seq::<ActionView>::empty());
    assert(written(back) =~= Seq::<u8>::empty());
    assert(written(front + body + back) =~= sv.head + zeros(sv.block_count * (BLOCK_SIZE as nat)));
}

} // verus!
