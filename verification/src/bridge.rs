//! Session bridge.
//!
//! One connection owns one terminal session: a pseudo-terminal master handle
//! with one child process attached, relayed against one message channel. The
//! bridge is modelled as a state machine over plain data: the caller performs
//! the terminal, process and channel I/O, feeds the outcome of each operation
//! in as an [`Event`], and carries out the [`Action`] that `step` returns.
//! Every decision the relay makes — how a message is classified, what a
//! terminal chunk becomes, when teardown begins and that it never reverses —
//! is stated and proved here.
//!
//! Lifecycle: `Created` (nothing allocated) → `Attached` (terminal and child
//! exist) → `Relaying` (both directions live) → `Closing` (one side ended;
//! teardown directed) → `Closed` (handles released, child reaped). Teardown
//! is one-directional and final.

use vstd::prelude::*;
use crate::codec::Classification;
use crate::codec::classify;
use crate::codec::classify_spec;
use crate::codec::decode_lossy;
use crate::codec::lossy_decode;
use crate::codec::resize_of;

verus! {

/// Lifecycle phase of one session.
#[derive(Clone, Copy, PartialEq, Eq, Structural, Debug)]
pub enum Phase {
    Created,
    Attached,
    Relaying,
    Closing,
    Closed,
}

/// The state one session carries: its phase, the window size last directed,
/// and whether the child process has been reaped.
#[derive(Clone, Copy, PartialEq, Eq, Structural, Debug)]
pub struct SessionModel {
    pub phase: Phase,
    pub cols: u16,
    pub rows: u16,
    pub child_reaped: bool,
}

/// What the session starts as: nothing allocated, window size not yet
/// directed, child not yet spawned (so nothing to reap).
pub open spec fn init_session() -> SessionModel {
    SessionModel { phase: Phase::Created, cols: 0, rows: 0, child_reaped: false }
}

pub fn session_init() -> (s: SessionModel)
    ensures
        s == init_session(),
{
    SessionModel { phase: Phase::Created, cols: 0, rows: 0, child_reaped: false }
}

/// One thing that happened at the session's edge.
#[derive(Debug)]
pub enum Event {
    /// The pseudo-terminal pair was allocated and the child was spawned.
    Attach,
    /// The terminal-output relay was started.
    StartRelay,
    /// One text message arrived on the channel.
    Inbound(Vec<u8>),
    /// One read from the terminal returned these bytes (never empty).
    Chunk(Vec<u8>),
    /// A read from the terminal returned no bytes: the child side is gone.
    TerminalEof,
    /// A read from or write to the terminal failed.
    TerminalError,
    /// A send on the channel failed.
    SendFailed,
    /// The remote side closed the channel, or a channel read failed.
    ChannelClosed,
    /// Teardown finished: handles released and the child process reaped.
    Released,
}

/// The specification view of an event.
pub enum EventV {
    Attach,
    StartRelay,
    Inbound(Seq<u8>),
    Chunk(Seq<u8>),
    TerminalEof,
    TerminalError,
    SendFailed,
    ChannelClosed,
    Released,
}

impl View for Event {
    type V = EventV;

    open spec fn view(&self) -> EventV {
        match self {
            Event::Attach => EventV::Attach,
            Event::StartRelay => EventV::StartRelay,
            Event::Inbound(m) => EventV::Inbound(m@),
            Event::Chunk(b) => EventV::Chunk(b@),
            Event::TerminalEof => EventV::TerminalEof,
            Event::TerminalError => EventV::TerminalError,
            Event::SendFailed => EventV::SendFailed,
            Event::ChannelClosed => EventV::ChannelClosed,
            Event::Released => EventV::Released,
        }
    }
}

/// What the caller must do next.
#[derive(Debug)]
pub enum Action {
    /// Nothing.
    Ignore,
    /// Write these bytes to the terminal, in this order.
    WriteBytes(Vec<u8>),
    /// Set the terminal's window size; failure is session-scoped, never
    /// fatal to the server.
    Resize(u16, u16),
    /// Send this text on the channel as one outbound message.
    SendText(String),
    /// Stop the relay, close the channel and the master handle, and reap
    /// the child process; then report `Released`.
    BeginTeardown,
}

/// The specification view of an action.
pub enum ActionV {
    Ignore,
    WriteBytes(Seq<u8>),
    Resize(u16, u16),
    SendText(Seq<char>),
    BeginTeardown,
}

impl View for Action {
    type V = ActionV;

    open spec fn view(&self) -> ActionV {
        match self {
            Action::Ignore => ActionV::Ignore,
            Action::WriteBytes(b) => ActionV::WriteBytes(b@),
            Action::Resize(c, r) => ActionV::Resize(*c, *r),
            Action::SendText(t) => ActionV::SendText(t@),
            Action::BeginTeardown => ActionV::BeginTeardown,
        }
    }
}

/// The bridge's whole behaviour: next state and directed action for one
/// event. Failures of either side while relaying begin teardown; nothing
/// leaves `Closing` but completed teardown, and nothing leaves `Closed`.
pub open spec fn step_spec(s: SessionModel, e: EventV) -> (SessionModel, ActionV) {
    match s.phase {
        Phase::Created => match e {
            EventV::Attach => (SessionModel { phase: Phase::Attached, ..s }, ActionV::Ignore),
            _ => (s, ActionV::Ignore),
        },
        Phase::Attached => match e {
            EventV::StartRelay => (SessionModel { phase: Phase::Relaying, ..s }, ActionV::Ignore),
            EventV::TerminalEof | EventV::TerminalError | EventV::SendFailed
                | EventV::ChannelClosed => (
                SessionModel { phase: Phase::Closing, ..s },
                ActionV::BeginTeardown,
            ),
            _ => (s, ActionV::Ignore),
        },
        Phase::Relaying => match e {
            EventV::Inbound(m) => match classify_spec(m) {
                Classification::Resize { cols, rows } => (
                    SessionModel { cols, rows, ..s },
                    ActionV::Resize(cols, rows),
                ),
                Classification::Keystrokes => (s, ActionV::WriteBytes(m)),
                Classification::Malformed => (s, ActionV::Ignore),
            },
            EventV::Chunk(b) => (s, ActionV::SendText(lossy_decode(b))),
            EventV::TerminalEof | EventV::TerminalError | EventV::SendFailed
                | EventV::ChannelClosed => (
                SessionModel { phase: Phase::Closing, ..s },
                ActionV::BeginTeardown,
            ),
            _ => (s, ActionV::Ignore),
        },
        Phase::Closing => match e {
            EventV::Released => (
                SessionModel { phase: Phase::Closed, child_reaped: true, ..s },
                ActionV::Ignore,
            ),
            _ => (s, ActionV::Ignore),
        },
        Phase::Closed => (s, ActionV::Ignore),
    }
}

/// Drives one event through the bridge, exactly as `step_spec` states it.
pub fn step(s: SessionModel, e: Event) -> (r: (SessionModel, Action))
    ensures
        r.0 == step_spec(s, e@).0,
        r.1@ == step_spec(s, e@).1,
{
    match s.phase {
        Phase::Created => match e {
            Event::Attach => (SessionModel { phase: Phase::Attached, ..s }, Action::Ignore),
            _ => (s, Action::Ignore),
        },
        Phase::Attached => match e {
            Event::StartRelay => (SessionModel { phase: Phase::Relaying, ..s }, Action::Ignore),
            Event::TerminalEof | Event::TerminalError | Event::SendFailed
                | Event::ChannelClosed => (
                SessionModel { phase: Phase::Closing, ..s },
                Action::BeginTeardown,
            ),
            _ => (s, Action::Ignore),
        },
        Phase::Relaying => match e {
            Event::Inbound(m) => match classify(m.as_slice()) {
                Classification::Resize { cols, rows } => (
                    SessionModel { cols, rows, ..s },
                    Action::Resize(cols, rows),
                ),
                Classification::Keystrokes => (s, Action::WriteBytes(m)),
                Classification::Malformed => (s, Action::Ignore),
            },
            Event::Chunk(b) => (s, Action::SendText(decode_lossy(b.as_slice()))),
            Event::TerminalEof | Event::TerminalError | Event::SendFailed
                | Event::ChannelClosed => (
                SessionModel { phase: Phase::Closing, ..s },
                Action::BeginTeardown,
            ),
            _ => (s, Action::Ignore),
        },
        Phase::Closing => match e {
            Event::Released => (
                SessionModel { phase: Phase::Closed, child_reaped: true, ..s },
                Action::Ignore,
            ),
            _ => (s, Action::Ignore),
        },
        Phase::Closed => (s, Action::Ignore),
    }
}

/// The session's state and directed actions after a whole trace of events,
/// in order.
pub open spec fn run(s: SessionModel, es: Seq<EventV>) -> (SessionModel, Seq<ActionV>)
    decreases es.len(),
{
    if es.len() == 0 {
        (s, Seq::empty())
    } else {
        let first = step_spec(s, es[0]);
        let rest = run(first.0, es.drop_first());
        (rest.0, seq![first.1] + rest.1)
    }
}

/// Order preservation: relaying a sequence of terminal chunks directs
/// exactly one outbound message per chunk, in the order the terminal
/// produced them, each carrying that chunk's decoded bytes and nothing
/// else; the session stays in `Relaying` throughout.
pub proof fn lemma_order_preservation(s: SessionModel, chunks: Seq<Seq<u8>>)
    requires
        s.phase == Phase::Relaying,
    ensures
        run(s, chunks.map_values(|c: Seq<u8>| EventV::Chunk(c))).0 == s,
        run(s, chunks.map_values(|c: Seq<u8>| EventV::Chunk(c))).1.len() == chunks.len(),
        forall|i: int|
            0 <= i < chunks.len() ==> run(s, chunks.map_values(|c: Seq<u8>| EventV::Chunk(c))).1[i]
                == ActionV::SendText(lossy_decode(chunks[i])),
    decreases chunks.len(),
{
    let es = chunks.map_values(|c: Seq<u8>| EventV::Chunk(c));
    if chunks.len() > 0 {
        lemma_order_preservation(s, chunks.drop_first());
        assert(es.drop_first() =~= chunks.drop_first().map_values(|c: Seq<u8>| EventV::Chunk(c)));
        assert(step_spec(s, es[0]) == (s, ActionV::SendText(lossy_decode(chunks[0]))));
        assert forall|i: int| 0 <= i < chunks.len() implies run(s, es).1[i] == ActionV::SendText(
            lossy_decode(chunks[i]),
        ) by {
            if i > 0 {
                assert(run(s, es).1[i] == run(s, es.drop_first()).1[i - 1]);
                assert(chunks.drop_first()[i - 1] == chunks[i]);
            }
        }
    }
}

/// Resize correctness: a message carrying a well-formed resize envelope,
/// applied while relaying, sets the window size to exactly the directed
/// columns and rows, directs the matching terminal-control action, and
/// changes nothing else.
pub proof fn lemma_resize_applied(s: SessionModel, m: Seq<u8>, cols: u16, rows: u16)
    requires
        s.phase == Phase::Relaying,
        resize_of(m) == Some((cols, rows)),
    ensures
        step_spec(s, EventV::Inbound(m)).0 == (SessionModel { cols, rows, ..s }),
        step_spec(s, EventV::Inbound(m)).1 == ActionV::Resize(cols, rows),
{
    assert(m.len() > 0 && m[0] == crate::codec::LBRACE);
}

/// Malformed control message safety: a message that looks like a control
/// envelope but carries no resize directive is dropped — the session's
/// phase and window size are untouched and no action is directed.
pub proof fn lemma_malformed_ignored(s: SessionModel, m: Seq<u8>)
    requires
        s.phase == Phase::Relaying,
        m.len() > 0,
        m[0] == crate::codec::LBRACE,
        (resize_of(m) is None),
    ensures
        step_spec(s, EventV::Inbound(m)) == (s, ActionV::Ignore),
{
}

/// Malformed control message safety over a whole trace: dropping the bad
/// message is all that happens — the session then behaves on the rest of
/// the trace exactly as if the bad message had never arrived.
pub proof fn lemma_malformed_transparent(s: SessionModel, m: Seq<u8>, es: Seq<EventV>)
    requires
        s.phase == Phase::Relaying,
        m.len() > 0,
        m[0] == crate::codec::LBRACE,
        (resize_of(m) is None),
    ensures
        run(s, seq![EventV::Inbound(m)] + es).0 == run(s, es).0,
        run(s, seq![EventV::Inbound(m)] + es).1 == seq![ActionV::Ignore] + run(s, es).1,
{
    let tr = seq![EventV::Inbound(m)] + es;
    lemma_malformed_ignored(s, m);
    assert(tr[0] == EventV::Inbound(m));
    assert(tr.drop_first() =~= es);
}

/// Teardown: the remote side closing the channel while relaying directs
/// teardown at once, and completed teardown leaves the session `Closed`
/// with the child process reaped. Closing never resumes relaying.
pub proof fn lemma_remote_close_teardown(s: SessionModel)
    requires
        s.phase == Phase::Relaying,
    ensures
        step_spec(s, EventV::ChannelClosed).0.phase == Phase::Closing,
        step_spec(s, EventV::ChannelClosed).1 == ActionV::BeginTeardown,
        step_spec(step_spec(s, EventV::ChannelClosed).0, EventV::Released).0.phase == Phase::Closed,
        step_spec(step_spec(s, EventV::ChannelClosed).0, EventV::Released).0.child_reaped,
{
}

/// End-of-session propagation: the attached process exiting on its own —
/// the terminal read returning no bytes — directs teardown at once, and
/// completed teardown leaves the session `Closed` with the child reaped.
pub proof fn lemma_process_exit_teardown(s: SessionModel)
    requires
        s.phase == Phase::Relaying,
    ensures
        step_spec(s, EventV::TerminalEof).0.phase == Phase::Closing,
        step_spec(s, EventV::TerminalEof).1 == ActionV::BeginTeardown,
        step_spec(step_spec(s, EventV::TerminalEof).0, EventV::Released).0.phase == Phase::Closed,
        step_spec(step_spec(s, EventV::TerminalEof).0, EventV::Released).0.child_reaped,
{
}

/// Whether an event is a well-formed resize envelope arriving while the
/// session relays — the only circumstance that may move the window size.
pub open spec fn applies_resize(s: SessionModel, e: EventV) -> bool {
    s.phase == Phase::Relaying && match e {
        EventV::Inbound(m) => classify_spec(m) matches Classification::Resize { .. },
        _ => false,
    }
}

/// The window size is mutated by resize directives alone: any event other
/// than a well-formed resize envelope received while relaying leaves the
/// session's columns and rows exactly as they were.
pub proof fn lemma_size_moved_only_by_resize(s: SessionModel, e: EventV)
    ensures
        !applies_resize(s, e) ==> step_spec(s, e).0.cols == s.cols && step_spec(s, e).0.rows
            == s.rows,
{
}

/// The child process is reaped exactly once and stays reaped: no event
/// makes a reaped session unreaped.
pub proof fn lemma_reaped_is_final(s: SessionModel, e: EventV)
    ensures
        s.child_reaped ==> step_spec(s, e).0.child_reaped,
{
}

/// Teardown is one-directional and final: from `Closing` the session only
/// ever stays `Closing` or completes to `Closed`, from `Closed` it never
/// moves, and in neither phase is any relay action directed.
pub proof fn lemma_teardown_final(s: SessionModel, e: EventV)
    requires
        s.phase == Phase::Closing || s.phase == Phase::Closed,
    ensures
        step_spec(s, e).0.phase == Phase::Closing || step_spec(s, e).0.phase == Phase::Closed,
        s.phase == Phase::Closed ==> step_spec(s, e).0 == s,
        step_spec(s, e).1 == ActionV::Ignore,
{
}

} // verus!
