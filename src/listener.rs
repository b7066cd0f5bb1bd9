//! The connection records that a user configures: one address each, and a
//! lifecycle that takes it from configured to listening (or connecting) to
//! accepted, back to ready when stopped, and out when deleted.
//!
//! Binding, dialling and the background task that waits for the peer belong
//! to the caller; it asks a record what to do and reports what happened.

use crate::signal::{parse_signal, SignalView, TCPSignal};
use vstd::prelude::*;
use vstd::string::*;

verus! {

/// Where a connection record stands.
#[allow(non_camel_case_types)]
#[derive(Clone, Copy, Debug, PartialEq, Eq, Structural)]
pub enum ListenerState {
    /// Configured, not started.
    READY,
    /// Asked to start.
    TOLISTEN,
    /// Asked to stop.
    TOSTOP,
    /// Started; its background task waits for the peer.
    LISTENING,
    /// The peer arrived.
    ACCEPTED,
    /// Starting or the handshake failed.
    FAIL,
    /// Deleted; the next sweep removes it.
    TODELETE,
}

/// What the caller does for a record.
#[derive(Clone, Copy, Debug, PartialEq, Eq, Structural)]
pub enum RecordAction {
    /// Nothing this time.
    Idle,
    /// Bind a listening socket to the record's address and report the port.
    Bind,
    /// Dial the record's address and report whether it worked.
    Connect,
    /// The background task is done: join it and take its connection.
    Accepted,
    /// Drop the background task, if any.
    DropTask,
}

/// What a record is.
pub struct RecordView {
    pub ip4: Seq<u8>,
    pub port: u16,
    pub state: ListenerState,
    pub name: Seq<char>,
    pub task: bool,
}

/// One address that the user configured, with its lifecycle.
#[derive(Debug)]
pub struct MyTcplistener {
    pub ip4: [u8; 4],
    pub port: u16,
    pub state: ListenerState,
    pub name: String,
    /// A background task of this record is outstanding.
    pub task: bool,
}

impl View for MyTcplistener {
    type V = RecordView;

    open spec fn view(&self) -> RecordView {
        RecordView {
            ip4: self.ip4@,
            port: self.port,
            state: self.state,
            name: self.name@,
            task: self.task,
        }
    }
}

/// The address 0.0.0.0, which cannot be started.
pub open spec fn unset_ip(ip4: Seq<u8>) -> bool {
    ip4[0] == 0 && ip4[1] == 0 && ip4[2] == 0 && ip4[3] == 0
}

/// The decimal digits of `n`.
pub open spec fn decimal(n: nat) -> Seq<char>
    decreases n,
{
    if n < 10 {
        seq![digit_char(n)]
    } else {
        decimal(n / 10) + seq![digit_char(n % 10)]
    }
}

pub open spec fn digit_char(d: nat) -> char {
    if d == 0 {
        '0'
    } else if d == 1 {
        '1'
    } else if d == 2 {
        '2'
    } else if d == 3 {
        '3'
    } else if d == 4 {
        '4'
    } else if d == 5 {
        '5'
    } else if d == 6 {
        '6'
    } else if d == 7 {
        '7'
    } else if d == 8 {
        '8'
    } else {
        '9'
    }
}

/// `a.b.c.d:port` in decimal.
pub open spec fn address_text(ip4: Seq<u8>, port: u16) -> Seq<char> {
    decimal(ip4[0] as nat) + "."@ + decimal(ip4[1] as nat) + "."@ + decimal(ip4[2] as nat) + "."@
        + decimal(ip4[3] as nat) + ":"@ + decimal(port as nat)
}

fn digit_str(d: u32) -> (r: &'static str)
    requires
        d < 10,
    ensures
        r@ == seq![digit_char(d as nat)],
{
    proof {
        reveal_strlit("0");
        reveal_strlit("1");
        reveal_strlit("2");
        reveal_strlit("3");
        reveal_strlit("4");
        reveal_strlit("5");
        reveal_strlit("6");
        reveal_strlit("7");
        reveal_strlit("8");
        reveal_strlit("9");
    }
    if d == 0 {
        "0"
    } else if d == 1 {
        "1"
    } else if d == 2 {
        "2"
    } else if d == 3 {
        "3"
    } else if d == 4 {
        "4"
    } else if d == 5 {
        "5"
    } else if d == 6 {
        "6"
    } else if d == 7 {
        "7"
    } else if d == 8 {
        "8"
    } else {
        "9"
    }
}

/// Appends the decimal digits of `n`.
fn push_decimal(s: &mut String, n: u32)
    ensures
        final(s)@ == old(s)@ + decimal(n as nat),
    decreases n,
{
    if n >= 10 {
        push_decimal(s, n / 10);
    }
    s.append(digit_str(n % 10));
    assert(final(s)@ =~= old(s)@ + decimal(n as nat));
}

/// The records that remain after a sweep, in order.
pub open spec fn kept(s: Seq<RecordView>) -> Seq<RecordView>
    decreases s.len(),
{
    if s.len() == 0 {
        s
    } else if s[0].state == ListenerState::TODELETE {
        kept(s.drop_first())
    } else {
        seq![s[0]] + kept(s.drop_first())
    }
}

pub open spec fn views(v: Seq<MyTcplistener>) -> Seq<RecordView> {
    v.map_values(|r: MyTcplistener| r@)
}

impl MyTcplistener {
    /// The empty record: address 0.0.0.0, port 0, ready, no task.
    pub fn null() -> (r: MyTcplistener)
        ensures
            r@ == (RecordView {
                ip4: seq![0u8, 0u8, 0u8, 0u8],
                port: 0,
                state: ListenerState::READY,
                name: Seq::empty(),
                task: false,
            }),
    {
        let r = MyTcplistener {
            ip4: [0, 0, 0, 0],
            port: 0,
            state: ListenerState::READY,
            name: String::new(),
            task: false,
        };
        assert(r@.ip4 =~= seq![0u8, 0u8, 0u8, 0u8]);
        r
    }

    /// A ready record for the address `ip4`, port still open.
    pub fn from_octets(ip4: [u8; 4]) -> (r: MyTcplistener)
        ensures
            r@ == (RecordView {
                ip4: ip4@,
                port: 0,
                state: ListenerState::READY,
                name: Seq::empty(),
                task: false,
            }),
    {
        MyTcplistener { ip4, port: 0, state: ListenerState::READY, name: String::new(), task: false }
    }

    /// The record under another name.
    pub fn with_name(self, name: String) -> (r: MyTcplistener)
        ensures
            r@ == (RecordView { name: name@, ..self@ }),
    {
        let mut r = self;
        r.name = name;
        r
    }

    /// The address as `a.b.c.d:port`.
    pub fn to_string(&self) -> (r: String)
        ensures
            r@ == address_text(self@.ip4, self.port),
    {
        let mut s = String::new();
        push_decimal(&mut s, self.ip4[0] as u32);
        s.append(".");
        push_decimal(&mut s, self.ip4[1] as u32);
        s.append(".");
        push_decimal(&mut s, self.ip4[2] as u32);
        s.append(".");
        push_decimal(&mut s, self.ip4[3] as u32);
        s.append(":");
        push_decimal(&mut s, self.port as u32);
        assert(s@ =~= address_text(self@.ip4, self.port));
        s
    }

    fn ip_unset(&self) -> (r: bool)
        ensures
            r == unset_ip(self@.ip4),
    {
        self.ip4[0] == 0 && self.ip4[1] == 0 && self.ip4[2] == 0 && self.ip4[3] == 0
    }

    fn stop(&mut self)
        ensures
            final(self)@ == (RecordView {
                state: ListenerState::READY,
                port: 0,
                task: false,
                ..old(self)@
            }),
    {
        self.task = false;
        self.state = ListenerState::READY;
        self.port = 0;
    }

    /// One pass over a listening record. A record asked to start goes back
    /// to ready when its address is unset, else it is to be bound. A
    /// listening record whose task is done is accepted; one without a task
    /// has failed. A record asked to stop drops its task and is ready again.
    /// Returns what the caller does.
    pub fn handle_listener(&mut self, task_done: bool) -> (r: RecordAction)
        ensures
            match old(self).state {
                ListenerState::TOLISTEN => if unset_ip(old(self)@.ip4) {
                    final(self)@ == (RecordView { state: ListenerState::READY, ..old(self)@ })
                        && r == RecordAction::Idle
                } else {
                    final(self)@ == old(self)@ && r == RecordAction::Bind
                },
                ListenerState::LISTENING => if !old(self).task {
                    final(self)@ == (RecordView { state: ListenerState::FAIL, ..old(self)@ })
                        && r == RecordAction::Idle
                } else if task_done {
                    final(self)@ == (RecordView {
                        state: ListenerState::ACCEPTED,
                        task: false,
                        ..old(self)@
                    }) && r == RecordAction::Accepted
                } else {
                    final(self)@ == old(self)@ && r == RecordAction::Idle
                },
                ListenerState::TOSTOP => final(self)@ == (RecordView {
                    state: ListenerState::READY,
                    port: 0,
                    task: false,
                    ..old(self)@
                }) && r == RecordAction::DropTask,
                _ => final(self)@ == old(self)@ && r == RecordAction::Idle,
            },
    {
        match self.state {
            ListenerState::TOLISTEN => {
                if self.ip_unset() {
                    self.state = ListenerState::READY;
                    RecordAction::Idle
                } else {
                    RecordAction::Bind
                }
            },
            ListenerState::LISTENING => {
                if !self.task {
                    self.state = ListenerState::FAIL;
                    RecordAction::Idle
                } else if task_done {
                    self.task = false;
                    self.state = ListenerState::ACCEPTED;
                    RecordAction::Accepted
                } else {
                    RecordAction::Idle
                }
            },
            ListenerState::TOSTOP => {
                self.stop();
                RecordAction::DropTask
            },
            _ => RecordAction::Idle,
        }
    }

    /// The outcome of binding: the port bound to, or `None` when binding
    /// failed. A bound record listens with one task; a record that cannot be
    /// bound is deleted.
    pub fn on_bound(&mut self, port: Option<u16>)
        requires
            old(self).state == ListenerState::TOLISTEN,
        ensures
            match port {
                Some(p) => final(self)@ == (RecordView {
                    state: ListenerState::LISTENING,
                    port: p,
                    task: true,
                    ..old(self)@
                }),
                None => final(self)@ == (RecordView {
                    state: ListenerState::TODELETE,
                    ..old(self)@
                }),
            },
    {
        match port {
            Some(p) => {
                self.state = ListenerState::LISTENING;
                self.port = p;
                self.task = true;
            },
            None => {
                self.state = ListenerState::TODELETE;
            },
        }
    }

    /// One pass over a connecting record. A record asked to start goes back
    /// to ready when its address or port is unset, else it is to be dialled.
    /// A connecting record whose task is done is accepted. A record asked to
    /// stop drops its task and is ready again.
    pub fn handle_connector(&mut self, task_done: bool) -> (r: RecordAction)
        ensures
            match old(self).state {
                ListenerState::TOLISTEN => if unset_ip(old(self)@.ip4) || old(self).port == 0 {
                    final(self)@ == (RecordView { state: ListenerState::READY, ..old(self)@ })
                        && r == RecordAction::Idle
                } else {
                    final(self)@ == old(self)@ && r == RecordAction::Connect
                },
                ListenerState::LISTENING => if old(self).task && task_done {
                    final(self)@ == (RecordView {
                        state: ListenerState::ACCEPTED,
                        task: false,
                        ..old(self)@
                    }) && r == RecordAction::Accepted
                } else {
                    final(self)@ == old(self)@ && r == RecordAction::Idle
                },
                ListenerState::TOSTOP => final(self)@ == (RecordView {
                    state: ListenerState::READY,
                    port: 0,
                    task: false,
                    ..old(self)@
                }) && r == RecordAction::DropTask,
                _ => final(self)@ == old(self)@ && r == RecordAction::Idle,
            },
    {
        match self.state {
            ListenerState::TOLISTEN => {
                if self.ip_unset() || self.port == 0 {
                    self.state = ListenerState::READY;
                    RecordAction::Idle
                } else {
                    RecordAction::Connect
                }
            },
            ListenerState::LISTENING => {
                if self.task && task_done {
                    self.task = false;
                    self.state = ListenerState::ACCEPTED;
                    RecordAction::Accepted
                } else {
                    RecordAction::Idle
                }
            },
            ListenerState::TOSTOP => {
                self.stop();
                RecordAction::DropTask
            },
            _ => RecordAction::Idle,
        }
    }

    /// The outcome of dialling: a connected record waits for the peer's
    /// handshake with one task; one that could not connect has failed.
    pub fn on_connected(&mut self, ok: bool)
        requires
            old(self).state == ListenerState::TOLISTEN,
        ensures
            ok ==> final(self)@ == (RecordView {
                state: ListenerState::LISTENING,
                task: true,
                ..old(self)@
            }),
            !ok ==> final(self)@ == (RecordView { state: ListenerState::FAIL, ..old(self)@ }),
    {
        if ok {
            self.state = ListenerState::LISTENING;
            self.task = true;
        } else {
            self.state = ListenerState::FAIL;
        }
    }

    /// Checks the peer's first message, which the background task read:
    /// only an `Accept` completes the handshake; anything else fails the
    /// record.
    pub fn on_handshake(&mut self, data: &[u8]) -> (r: bool)
        ensures
            r == (parse_signal(data@) is Accept),
            r ==> final(self)@ == old(self)@,
            !r ==> final(self)@ == (RecordView { state: ListenerState::FAIL, ..old(self)@ }),
    {
        let signal = TCPSignal::from_bytes(data);
        if signal.is_ok() {
            true
        } else {
            self.state = ListenerState::FAIL;
            false
        }
    }

    /// The greeting that the listening side sends back: an `Accept` with its
    /// address and the name `host`.
    pub fn greeting(&self) -> (r: TCPSignal)
        ensures
            r@ == (SignalView::Accept {
                ip_addr: address_text(self@.ip4, self.port),
                name: "host"@,
            }),
    {
        TCPSignal::Accept { ip_addr: self.to_string(), name: "host".to_owned() }
    }

    /// Marks the record failed, as when the greeting cannot be written.
    pub fn fail(&mut self)
        ensures
            final(self)@ == (RecordView { state: ListenerState::FAIL, ..old(self)@ }),
    {
        self.state = ListenerState::FAIL;
    }
}

/// Removes the deleted records, keeping the order of the others; when none
/// is left, one empty record stands in.
pub fn sweep(records: Vec<MyTcplistener>) -> (r: Vec<MyTcplistener>)
    ensures
        kept(views(records@)).len() > 0 ==> views(r@) == kept(views(records@)),
        kept(views(records@)).len() == 0 ==> views(r@) == seq![MyTcplistener::null_view()],
{
    let mut rest = records;
    let mut out: Vec<MyTcplistener> = Vec::new();
    while rest.len() > 0
        invariant
            views(out@) + kept(views(rest@)) == kept(views(records@)),
        decreases rest.len(),
    {
        let ghost before = views(rest@);
        let r = rest.remove(0);
        assert(views(rest@) =~= before.drop_first());
        if r.state != ListenerState::TODELETE {
            let ghost o = views(out@);
            out.push(r);
            assert(views(out@) =~= o + seq![before[0]]);
        }
    }
    assert(kept(views(rest@)) =~= Seq::<RecordView>::empty());
    assert(views(out@) =~= kept(views(records@)));
    if out.len() == 0 {
        out.push(MyTcplistener::null());
        assert(views(out@) =~= seq![MyTcplistener::null_view()]);
    }
    out
}

impl MyTcplistener {
    pub open spec fn null_view() -> RecordView {
        RecordView {
            ip4: seq![0u8, 0u8, 0u8, 0u8],
            port: 0,
            state: ListenerState::READY,
            name: Seq::empty(),
            task: false,
        }
    }
}

} // verus!
