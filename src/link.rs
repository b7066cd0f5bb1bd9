//! The per-link negotiation that runs on a control connection: keepalives,
//! the promotion of the link into extra data connections, forwarding of
//! local messages and recovery from read failures.
//!
//! The loop around it belongs to the caller. It reads frames, writes bytes,
//! accepts or dials sockets and pauses as told, and it hands every outcome
//! back as the next event.

use crate::codec::{frame, frame_of};
use crate::file::{FileBlocks, FileState, FileStateView};
use crate::signal::{signal_bytes, Descriptor, SignalView, TCPSignal};
use vstd::prelude::*;

verus! {

/// Failed recoveries in a row after which the link is given up.
pub const MAX_RECOVERY_FAILURES: u64 = 3;

/// Pause before answering a keepalive.
pub const KEEPALIVE_PAUSE_MS: u64 = 1000;

/// Pause before sending again at the peer's request.
pub const RETRY_PAUSE_MS: u64 = 200;

/// Pause after a failed recovery write.
pub const RECOVERY_PAUSE_MS: u64 = 2000;

/// Which side of the link this host is.
#[derive(Clone, Copy, Debug, PartialEq, Eq, Structural)]
pub enum Role {
    /// Owns the listening socket: extra connections are accepted on it.
    Listener,
    /// Dialled the peer: extra connections are dialled to the peer's address.
    Connector,
}

/// What a pending write is for, which decides what its outcome does.
#[derive(Clone, Copy, Debug, PartialEq, Eq, Structural)]
pub enum WriteFor {
    /// A keepalive or an acknowledgement whose failure is of no account.
    Ignored,
    /// The request for an extra connection.
    Request,
    /// The acknowledgement that precedes accepting or dialling.
    Ack,
    /// A message forwarded for the local side.
    Forward,
    /// A connector's reply to the peer's request for an extra connection.
    AddReply,
    /// The retry request sent after a read failure.
    Recovery,
}

/// The outcome the loop waits for next.
#[derive(Clone, Copy, Debug, PartialEq, Eq, Structural)]
pub enum Wait {
    /// The next frame, or a read failure.
    Frame,
    /// The outcome of a write.
    Write(WriteFor),
    /// The outcome of accepting or dialling an extra connection.
    Pairing,
    /// Nothing: the loop has ended.
    Stopped,
}

/// What the link is negotiating.
#[derive(Debug)]
pub enum Stage {
    Idle,
    /// An extra connection was asked for; the request goes out on the next
    /// `Accept`.
    Requested,
    /// The request went out; the peer's next `Accept` leads to the extra
    /// connection.
    AwaitingAck,
    /// The peer asked for an extra connection; the next `Accept` leads to
    /// dialling it.
    PeerPairing,
    /// A local message goes out on the next `Accept`.
    Forwarding(TCPSignal),
}

pub enum StageView {
    Idle,
    Requested,
    AwaitingAck,
    PeerPairing,
    Forwarding(SignalView),
}

impl View for Stage {
    type V = StageView;

    open spec fn view(&self) -> StageView {
        match self {
            Stage::Idle => StageView::Idle,
            Stage::Requested => StageView::Requested,
            Stage::AwaitingAck => StageView::AwaitingAck,
            Stage::PeerPairing => StageView::PeerPairing,
            Stage::Forwarding(s) => StageView::Forwarding(s@),
        }
    }
}

/// A request from the local side to the link.
#[derive(Debug)]
pub enum MyConnectCommand {
    /// End the loop.
    ToStop,
    /// Open one more data connection.
    AddTcpStream,
    /// Send this message to the peer.
    TCPSignal(TCPSignal),
}

pub enum CommandView {
    ToStop,
    AddTcpStream,
    TCPSignal(SignalView),
}

impl View for MyConnectCommand {
    type V = CommandView;

    open spec fn view(&self) -> CommandView {
        match self {
            MyConnectCommand::ToStop => CommandView::ToStop,
            MyConnectCommand::AddTcpStream => CommandView::AddTcpStream,
            MyConnectCommand::TCPSignal(s) => CommandView::TCPSignal(s@),
        }
    }
}

impl MyConnectCommand {
    /// The request to send `signal` to the peer.
    pub fn from(signal: TCPSignal) -> (r: MyConnectCommand)
        ensures
            r@ == CommandView::TCPSignal(signal@),
    {
        MyConnectCommand::TCPSignal(signal)
    }
}

/// What the loop does next.
#[derive(Debug)]
pub enum LinkStep {
    /// Read the next frame.
    Read,
    /// Pause, then write these bytes and report the outcome.
    Send { pause_ms: u64, bytes: Vec<u8> },
    /// Pause, then read the next frame.
    Pause { ms: u64 },
    /// Accept one connection on the listening socket and report the outcome;
    /// the new connection carries outbound blocks.
    AcceptStream,
    /// Dial the peer's address and report the outcome; the new connection
    /// carries inbound blocks.
    DialPeer,
    /// Hand the peer's announcement of an inbound transfer to the
    /// dispatcher, then read.
    Receive(FileState, FileBlocks),
    /// Tell the dispatcher that the peer is closing, then read.
    PeerClosing,
    /// Leave the loop, as the local side asked.
    Stop,
    /// Tell the dispatcher that the link is lost, and leave the loop.
    Teardown,
}

pub enum StepView {
    Read,
    Send { pause_ms: u64, bytes: Seq<u8> },
    Pause { ms: u64 },
    AcceptStream,
    DialPeer,
    Receive(FileStateView, Descriptor),
    PeerClosing,
    Stop,
    Teardown,
}

impl View for LinkStep {
    type V = StepView;

    open spec fn view(&self) -> StepView {
        match self {
            LinkStep::Read => StepView::Read,
            LinkStep::Send { pause_ms, bytes } => StepView::Send {
                pause_ms: *pause_ms,
                bytes: bytes@,
            },
            LinkStep::Pause { ms } => StepView::Pause { ms: *ms },
            LinkStep::AcceptStream => StepView::AcceptStream,
            LinkStep::DialPeer => StepView::DialPeer,
            LinkStep::Receive(f, b) => StepView::Receive(
                f@,
                Descriptor { id: b.id, block_size: b.block_size, block_num: b.block_num },
            ),
            LinkStep::PeerClosing => StepView::PeerClosing,
            LinkStep::Stop => StepView::Stop,
            LinkStep::Teardown => StepView::Teardown,
        }
    }
}

/// What a link is.
pub struct LinkView {
    pub role: Role,
    pub stage: StageView,
    pub wait: Wait,
    pub errors: u64,
}

/// The negotiation state of one control connection.
#[derive(Debug)]
pub struct ConnectLink {
    role: Role,
    stage: Stage,
    wait: Wait,
    errors: u64,
}

impl View for ConnectLink {
    type V = LinkView;

    closed spec fn view(&self) -> LinkView {
        LinkView { role: self.role, stage: self.stage@, wait: self.wait, errors: self.errors }
    }
}

/// The plain acknowledgement as a message.
pub open spec fn ac_view() -> SignalView {
    SignalView::Accept { ip_addr: Seq::empty(), name: Seq::empty() }
}

/// Sending `s` after a pause of `ms`.
pub open spec fn send_view(ms: u64, s: SignalView) -> StepView {
    StepView::Send { pause_ms: ms, bytes: frame_of(signal_bytes(s)) }
}

/// One more failure, counted without overflow.
pub open spec fn bump(e: u64) -> u64 {
    if e < u64::MAX {
        (e + 1) as u64
    } else {
        e
    }
}

/// A local request, taken while nothing is being negotiated.
pub open spec fn after_command(s: LinkView, c: CommandView) -> (LinkView, StepView) {
    match c {
        CommandView::ToStop => (LinkView { wait: Wait::Stopped, ..s }, StepView::Stop),
        CommandView::AddTcpStream => (LinkView { stage: StageView::Requested, ..s }, StepView::Read),
        CommandView::TCPSignal(m) => (
            LinkView { stage: StageView::Forwarding(m), ..s },
            StepView::Read,
        ),
    }
}

/// A message from the peer.
pub open spec fn after_signal(s: LinkView, m: SignalView) -> (LinkView, StepView) {
    match m {
        SignalView::Accept { .. } => match s.stage {
            StageView::Idle => (
                LinkView { errors: 0, wait: Wait::Write(WriteFor::Ignored), ..s },
                send_view(KEEPALIVE_PAUSE_MS, ac_view()),
            ),
            StageView::Requested => (
                LinkView { wait: Wait::Write(WriteFor::Request), ..s },
                send_view(0, SignalView::AddTcpStream),
            ),
            StageView::AwaitingAck => (
                LinkView { wait: Wait::Write(WriteFor::Ack), ..s },
                send_view(0, ac_view()),
            ),
            StageView::PeerPairing => (
                LinkView { wait: Wait::Write(WriteFor::Ack), ..s },
                send_view(0, ac_view()),
            ),
            StageView::Forwarding(f) => (
                LinkView { wait: Wait::Write(WriteFor::Forward), ..s },
                send_view(0, f),
            ),
        },
        SignalView::AddTcpStream => match s.role {
            Role::Listener => if s.stage is Idle {
                (
                    LinkView {
                        stage: StageView::Requested,
                        wait: Wait::Write(WriteFor::Ignored),
                        ..s
                    },
                    send_view(0, ac_view()),
                )
            } else {
                (s, StepView::Read)
            },
            Role::Connector => (
                LinkView { wait: Wait::Write(WriteFor::AddReply), ..s },
                send_view(KEEPALIVE_PAUSE_MS, ac_view()),
            ),
        },
        SignalView::PostFile(f, d) => (s, StepView::Receive(f, d)),
        SignalView::Parden => (
            LinkView { wait: Wait::Write(WriteFor::Ignored), ..s },
            send_view(RETRY_PAUSE_MS, ac_view()),
        ),
        SignalView::Shut => (s, StepView::PeerClosing),
        SignalView::ErrorInto => (s, StepView::Read),
    }
}

/// A read that failed: ask the peer to send again.
pub open spec fn after_read_failure(s: LinkView) -> (LinkView, StepView) {
    (LinkView { wait: Wait::Write(WriteFor::Recovery), ..s }, send_view(0, SignalView::Parden))
}

/// The outcome of a write.
pub open spec fn after_write(s: LinkView, w: WriteFor, ok: bool) -> (LinkView, StepView) {
    let read = LinkView { wait: Wait::Frame, ..s };
    let failed = LinkView { wait: Wait::Frame, errors: bump(s.errors), ..s };
    match w {
        WriteFor::Ignored => (read, StepView::Read),
        WriteFor::Request => if ok {
            (LinkView { stage: StageView::AwaitingAck, ..read }, StepView::Read)
        } else {
            (failed, StepView::Read)
        },
        WriteFor::Ack => if ok {
            (
                LinkView { wait: Wait::Pairing, ..s },
                match s.role {
                    Role::Listener => StepView::AcceptStream,
                    Role::Connector => StepView::DialPeer,
                },
            )
        } else {
            (failed, StepView::Read)
        },
        WriteFor::Forward => if ok {
            (LinkView { stage: StageView::Idle, ..read }, StepView::Read)
        } else {
            (failed, StepView::Read)
        },
        WriteFor::AddReply => if ok {
            (
                LinkView {
                    stage: StageView::PeerPairing,
                    wait: Wait::Write(WriteFor::Ignored),
                    ..s
                },
                send_view(0, ac_view()),
            )
        } else {
            (failed, StepView::Read)
        },
        WriteFor::Recovery => if ok {
            (read, StepView::Read)
        } else if bump(s.errors) > MAX_RECOVERY_FAILURES {
            (LinkView { wait: Wait::Stopped, errors: bump(s.errors), ..s }, StepView::Teardown)
        } else {
            (failed, StepView::Pause { ms: RECOVERY_PAUSE_MS })
        },
    }
}

/// The outcome of accepting or dialling an extra connection.
pub open spec fn after_pairing(s: LinkView, ok: bool) -> (LinkView, StepView) {
    if ok {
        (LinkView { stage: StageView::Idle, wait: Wait::Frame, ..s }, StepView::Read)
    } else {
        (LinkView { wait: Wait::Frame, errors: bump(s.errors), ..s }, StepView::Read)
    }
}

/// A read failure followed by a failed retry request.
pub open spec fn failed_recovery(s: LinkView) -> (LinkView, StepView) {
    after_write(after_read_failure(s).0, WriteFor::Recovery, false)
}

/// On a link that counts no failure, three failed recoveries in a row each
/// end in a pause and keep the loop running; the fourth tears the link down,
/// and the loop then waits for nothing more.
pub proof fn lemma_fourth_failure_tears_down(s: LinkView)
    requires
        s.wait == Wait::Frame,
        s.errors == 0,
    ensures
        ({
            let (s1, a1) = failed_recovery(s);
            let (s2, a2) = failed_recovery(s1);
            let (s3, a3) = failed_recovery(s2);
            let (s4, a4) = failed_recovery(s3);
            &&& a1 == StepView::Pause { ms: RECOVERY_PAUSE_MS } && s1.wait == Wait::Frame
            &&& a2 == StepView::Pause { ms: RECOVERY_PAUSE_MS } && s2.wait == Wait::Frame
            &&& a3 == StepView::Pause { ms: RECOVERY_PAUSE_MS } && s3.wait == Wait::Frame
            &&& a4 == StepView::Teardown && s4.wait == Wait::Stopped
        }),
{
}

fn send_step(pause_ms: u64, s: &TCPSignal) -> (r: LinkStep)
    ensures
        r@ == send_view(pause_ms, s@),
{
    let payload = s.to_bytes();
    LinkStep::Send { pause_ms, bytes: frame(payload.as_slice()) }
}

fn bump_exec(e: u64) -> (r: u64)
    ensures
        r == bump(e),
{
    if e < u64::MAX {
        e + 1
    } else {
        e
    }
}

impl ConnectLink {
    /// A link with nothing negotiated and no failure counted.
    pub fn new(role: Role) -> (r: ConnectLink)
        ensures
            r@ == (LinkView { role, stage: StageView::Idle, wait: Wait::Frame, errors: 0 }),
    {
        ConnectLink { role, stage: Stage::Idle, wait: Wait::Frame, errors: 0 }
    }

    pub fn role(&self) -> (r: Role)
        ensures
            r == self@.role,
    {
        self.role
    }

    pub fn wait(&self) -> (r: Wait)
        ensures
            r == self@.wait,
    {
        self.wait
    }

    /// Failures counted since the last keepalive.
    pub fn errors(&self) -> (r: u64)
        ensures
            r == self@.errors,
    {
        self.errors
    }

    /// True when the loop has ended.
    pub fn is_stopped(&self) -> (r: bool)
        ensures
            r == (self@.wait == Wait::Stopped),
    {
        self.wait == Wait::Stopped
    }

    /// True when a local request may be taken: the loop waits for a frame
    /// and nothing is being negotiated.
    pub fn takes_commands(&self) -> (r: bool)
        ensures
            r == (self@.wait == Wait::Frame && self@.stage is Idle),
    {
        self.wait == Wait::Frame && match self.stage {
            Stage::Idle => true,
            _ => false,
        }
    }

    /// Takes a local request.
    pub fn on_command(&mut self, c: MyConnectCommand) -> (r: LinkStep)
        requires
            old(self)@.wait == Wait::Frame,
            old(self)@.stage is Idle,
        ensures
            final(self)@ == after_command(old(self)@, c@).0,
            r@ == after_command(old(self)@, c@).1,
    {
        match c {
            MyConnectCommand::ToStop => {
                self.wait = Wait::Stopped;
                LinkStep::Stop
            },
            MyConnectCommand::AddTcpStream => {
                self.stage = Stage::Requested;
                LinkStep::Read
            },
            MyConnectCommand::TCPSignal(s) => {
                self.stage = Stage::Forwarding(s);
                LinkStep::Read
            },
        }
    }

    /// Takes a message from the peer.
    pub fn on_signal(&mut self, m: TCPSignal) -> (r: LinkStep)
        requires
            old(self)@.wait == Wait::Frame,
        ensures
            final(self)@ == after_signal(old(self)@, m@).0,
            r@ == after_signal(old(self)@, m@).1,
    {
        match m {
            TCPSignal::Accept { .. } => match &self.stage {
                Stage::Idle => {
                    self.errors = 0;
                    self.wait = Wait::Write(WriteFor::Ignored);
                    send_step(KEEPALIVE_PAUSE_MS, &TCPSignal::ac())
                },
                Stage::Requested => {
                    self.wait = Wait::Write(WriteFor::Request);
                    send_step(0, &TCPSignal::AddTcpStream)
                },
                Stage::AwaitingAck => {
                    self.wait = Wait::Write(WriteFor::Ack);
                    send_step(0, &TCPSignal::ac())
                },
                Stage::PeerPairing => {
                    self.wait = Wait::Write(WriteFor::Ack);
                    send_step(0, &TCPSignal::ac())
                },
                Stage::Forwarding(f) => {
                    let step = send_step(0, f);
                    self.wait = Wait::Write(WriteFor::Forward);
                    step
                },
            },
            TCPSignal::AddTcpStream => match self.role {
                Role::Listener => {
                    if let Stage::Idle = self.stage {
                        self.stage = Stage::Requested;
                        self.wait = Wait::Write(WriteFor::Ignored);
                        send_step(0, &TCPSignal::ac())
                    } else {
                        LinkStep::Read
                    }
                },
                Role::Connector => {
                    self.wait = Wait::Write(WriteFor::AddReply);
                    send_step(KEEPALIVE_PAUSE_MS, &TCPSignal::ac())
                },
            },
            TCPSignal::PostFile(f, d) => LinkStep::Receive(f, d),
            TCPSignal::Parden => {
                self.wait = Wait::Write(WriteFor::Ignored);
                send_step(RETRY_PAUSE_MS, &TCPSignal::ac())
            },
            TCPSignal::Shut => LinkStep::PeerClosing,
            TCPSignal::ErrorInto => LinkStep::Read,
        }
    }

    /// Takes a failed read.
    pub fn on_read_failure(&mut self) -> (r: LinkStep)
        requires
            old(self)@.wait == Wait::Frame,
        ensures
            final(self)@ == after_read_failure(old(self)@).0,
            r@ == after_read_failure(old(self)@).1,
    {
        self.wait = Wait::Write(WriteFor::Recovery);
        send_step(0, &TCPSignal::Parden)
    }

    /// Takes the outcome of the write that the last step asked for.
    pub fn on_write(&mut self, ok: bool) -> (r: LinkStep)
        requires
            old(self)@.wait is Write,
        ensures
            final(self)@ == after_write(old(self)@, old(self)@.wait->Write_0, ok).0,
            r@ == after_write(old(self)@, old(self)@.wait->Write_0, ok).1,
    {
        let w = match self.wait {
            Wait::Write(w) => w,
            _ => WriteFor::Ignored,
        };
        if !ok && w != WriteFor::Ignored {
            self.errors = bump_exec(self.errors);
        }
        match w {
            WriteFor::Ignored => {
                self.wait = Wait::Frame;
                LinkStep::Read
            },
            WriteFor::Request => {
                if ok {
                    self.stage = Stage::AwaitingAck;
                }
                self.wait = Wait::Frame;
                LinkStep::Read
            },
            WriteFor::Ack => {
                if ok {
                    self.wait = Wait::Pairing;
                    match self.role {
                        Role::Listener => LinkStep::AcceptStream,
                        Role::Connector => LinkStep::DialPeer,
                    }
                } else {
                    self.wait = Wait::Frame;
                    LinkStep::Read
                }
            },
            WriteFor::Forward => {
                if ok {
                    self.stage = Stage::Idle;
                }
                self.wait = Wait::Frame;
                LinkStep::Read
            },
            WriteFor::AddReply => {
                if ok {
                    self.stage = Stage::PeerPairing;
                    self.wait = Wait::Write(WriteFor::Ignored);
                    send_step(0, &TCPSignal::ac())
                } else {
                    self.wait = Wait::Frame;
                    LinkStep::Read
                }
            },
            WriteFor::Recovery => {
                if ok {
                    self.wait = Wait::Frame;
                    LinkStep::Read
                } else if self.errors > MAX_RECOVERY_FAILURES {
                    self.wait = Wait::Stopped;
                    LinkStep::Teardown
                } else {
                    self.wait = Wait::Frame;
                    LinkStep::Pause { ms: RECOVERY_PAUSE_MS }
                }
            },
        }
    }

    /// Takes the outcome of accepting or dialling an extra connection.
    pub fn on_pairing(&mut self, ok: bool) -> (r: LinkStep)
        requires
            old(self)@.wait == Wait::Pairing,
        ensures
            final(self)@ == after_pairing(old(self)@, ok).0,
            r@ == after_pairing(old(self)@, ok).1,
    {
        if ok {
            self.stage = Stage::Idle;
        } else {
            self.errors = bump_exec(self.errors);
        }
        self.wait = Wait::Frame;
        LinkStep::Read
    }
}

} // verus!
