//! One peer session: its address, handshake state and outbound logical clock,
//! and what it does with each message it receives.

use vstd::prelude::*;
use crate::message::{Message, MessageView};
use crate::state::{
    State, PeerStateMachine, state_after_receive, state_after_send,
    heartbeat_after_receive,
};

verus! {

/// An IPv4 socket address: the address as a 32-bit integer, most significant
/// octet first, and the port.
#[derive(Debug, Clone, Copy, PartialEq, Eq, Hash, Structural)]
pub struct PeerAddr {
    pub ip: u32,
    pub port: u16,
}

impl PeerAddr {
    pub fn new(ip: u32, port: u16) -> (r: PeerAddr)
        ensures
            r == (PeerAddr { ip, port }),
    {
        PeerAddr { ip, port }
    }
}

#[derive(Debug, Clone, Copy, PartialEq, Eq, Structural)]
pub enum PeerError {
    /// The connection to the peer failed or was reset.
    ConnectionError,
    /// The session is closed and takes no more messages.
    SessionClosed,
}

/// What a session does in answer to a received message.
#[derive(Debug)]
pub enum Reaction {
    /// Send this message back to the peer.
    Reply(Message),
    /// Hand this message, from this peer, on to the registry.
    Forward(PeerAddr, Message),
    /// Nothing beyond the session's own bookkeeping.
    Nothing,
}

pub struct PeerView {
    pub addr: PeerAddr,
    pub state: State,
    pub clock: u32,
    pub last_heartbeat: Option<u32>,
}

/// The reaction owed to a received message, as a predicate on the result.
pub open spec fn reacts_to(r: Reaction, addr: PeerAddr, m: MessageView) -> bool {
    match m {
        MessageView::Ping => r matches Reaction::Reply(reply) && reply@ == MessageView::Pong,
        MessageView::Info(_) => r matches Reaction::Forward(from, fwd) && from == addr && fwd@
            == m,
        _ => r is Nothing,
    }
}

/// A session after it sent one heartbeat: its clock moved on by one.
pub open spec fn after_heartbeat(v: PeerView) -> PeerView {
    PeerView { clock: (v.clock + 1) as u32, ..v }
}

/// A session after it sent `n` heartbeats.
pub open spec fn after_heartbeats(v: PeerView, n: nat) -> PeerView
    decreases n,
{
    if n == 0 {
        v
    } else {
        after_heartbeat(after_heartbeats(v, (n - 1) as nat))
    }
}

/// Two sessions after heartbeats sent in the order `turns` gives, one entry
/// per heartbeat: `true` for a heartbeat of the first session, `false` for
/// one of the second.
pub open spec fn interleaved_heartbeats(a: PeerView, b: PeerView, turns: Seq<bool>) -> (
    PeerView,
    PeerView,
)
    decreases turns.len(),
{
    if turns.len() == 0 {
        (a, b)
    } else {
        let (x, y) = interleaved_heartbeats(a, b, turns.drop_last());
        if turns.last() {
            (after_heartbeat(x), y)
        } else {
            (x, after_heartbeat(y))
        }
    }
}

/// How many entries of `turns` are `who`.
pub open spec fn count_turns(turns: Seq<bool>, who: bool) -> nat
    decreases turns.len(),
{
    if turns.len() == 0 {
        0
    } else {
        count_turns(turns.drop_last(), who) + if turns.last() == who {
            1nat
        } else {
            0nat
        }
    }
}

/// `n` heartbeats move a session's clock on by `n` and change nothing else.
pub proof fn lemma_after_heartbeats(v: PeerView, n: nat)
    requires
        v.clock + n <= u32::MAX,
    ensures
        after_heartbeats(v, n) == (PeerView { clock: (v.clock + n) as u32, ..v }),
    decreases n,
{
    if n > 0 {
        lemma_after_heartbeats(v, (n - 1) as nat);
    }
}

/// Each session's logical clock counts its own heartbeats only: however the
/// heartbeats of two sessions interleave, each ends with its clock moved on
/// by the number it sent itself, and with its address, state and last
/// heartbeat seen unchanged.
pub proof fn heartbeat_clocks_are_per_session(a: PeerView, b: PeerView, turns: Seq<bool>)
    requires
        a.clock + count_turns(turns, true) <= u32::MAX,
        b.clock + count_turns(turns, false) <= u32::MAX,
    ensures
        interleaved_heartbeats(a, b, turns) == (
            after_heartbeats(a, count_turns(turns, true)),
            after_heartbeats(b, count_turns(turns, false)),
        ),
        interleaved_heartbeats(a, b, turns).0 == (PeerView {
            clock: (a.clock + count_turns(turns, true)) as u32,
            ..a
        }),
        interleaved_heartbeats(a, b, turns).1 == (PeerView {
            clock: (b.clock + count_turns(turns, false)) as u32,
            ..b
        }),
    decreases turns.len(),
{
    if turns.len() > 0 {
        heartbeat_clocks_are_per_session(a, b, turns.drop_last());
    }
    lemma_after_heartbeats(a, count_turns(turns, true));
    lemma_after_heartbeats(b, count_turns(turns, false));
}

#[derive(Debug)]
pub struct Peer {
    addr: PeerAddr,
    machine: PeerStateMachine,
    clock: u32,
}

impl View for Peer {
    type V = PeerView;

    closed spec fn view(&self) -> PeerView {
        PeerView {
            addr: self.addr,
            state: self.machine@.state,
            clock: self.clock,
            last_heartbeat: self.machine@.last_heartbeat,
        }
    }
}

impl Peer {
    /// A fresh session with `addr`: offline, its clock at zero, no heartbeat seen.
    pub fn new(addr: PeerAddr) -> (r: Peer)
        ensures
            r@ == (PeerView { addr, state: State::Offline, clock: 0, last_heartbeat: None }),
    {
        Peer { addr, machine: PeerStateMachine::new(), clock: 0 }
    }

    pub fn addr(&self) -> (r: PeerAddr)
        ensures
            r == self@.addr,
    {
        self.addr
    }

    pub fn state(&self) -> (r: State)
        ensures
            r == self@.state,
    {
        self.machine.state()
    }

    pub fn clock(&self) -> (r: u32)
        ensures
            r == self@.clock,
    {
        self.clock
    }

    pub fn last_heartbeat(&self) -> (r: Option<u32>)
        ensures
            r == self@.last_heartbeat,
    {
        self.machine.last_heartbeat()
    }

    /// The `Ping` to send; sending it starts the handshake of an offline session.
    pub fn ping(&mut self) -> (r: Result<Message, PeerError>)
        ensures
            old(self)@.state == State::Closed ==> r == Err::<Message, PeerError>(
                PeerError::SessionClosed,
            ) && final(self)@ == old(self)@,
            old(self)@.state != State::Closed ==> (r matches Ok(m) && m@ == MessageView::Ping
                && final(self)@ == (PeerView {
                state: state_after_send(old(self)@.state, MessageView::Ping),
                ..old(self)@
            })),
    {
        if self.machine.state() == State::Closed {
            return Err(PeerError::SessionClosed);
        }
        let m = Message::Ping;
        self.machine.sent(&m);
        Ok(m)
    }

    /// The `Pong` to send; the session's state does not change.
    pub fn pong(&mut self) -> (r: Result<Message, PeerError>)
        ensures
            final(self)@ == old(self)@,
            old(self)@.state == State::Closed ==> r == Err::<Message, PeerError>(
                PeerError::SessionClosed,
            ),
            old(self)@.state != State::Closed ==> (r matches Ok(m) && m@ == MessageView::Pong),
    {
        if self.machine.state() == State::Closed {
            return Err(PeerError::SessionClosed);
        }
        Ok(Message::Pong)
    }

    /// The `Heartbeat` to send: it carries the clock's current value, and the
    /// clock then moves on by one.
    pub fn heartbeat(&mut self) -> (r: Result<Message, PeerError>)
        requires
            old(self)@.clock < u32::MAX,
        ensures
            old(self)@.state == State::Closed ==> r == Err::<Message, PeerError>(
                PeerError::SessionClosed,
            ) && final(self)@ == old(self)@,
            old(self)@.state != State::Closed ==> (r matches Ok(m) && m@ == MessageView::Heartbeat(
                old(self)@.clock,
            ) && final(self)@ == after_heartbeat(old(self)@)),
    {
        if self.machine.state() == State::Closed {
            return Err(PeerError::SessionClosed);
        }
        let clock = self.clock;
        self.clock = clock + 1;
        let m = Message::Heartbeat(clock);
        self.machine.sent(&m);
        Ok(m)
    }

    /// Handles one received message: answers a `Ping` with a `Pong`, hands an
    /// `Info` on with this peer's address, records a `Heartbeat`, and moves
    /// the handshake on. A closed session refuses the message.
    pub fn receive(&mut self, msg: Message) -> (r: Result<Reaction, PeerError>)
        ensures
            old(self)@.state == State::Closed ==> (r matches Err(e) && e
                == PeerError::SessionClosed && final(self)@ == old(self)@),
            old(self)@.state != State::Closed ==> (r matches Ok(reaction) && reacts_to(
                reaction,
                old(self)@.addr,
                msg@,
            ) && final(self)@ == (PeerView {
                state: state_after_receive(old(self)@.state, msg@),
                last_heartbeat: heartbeat_after_receive(old(self)@.last_heartbeat, msg@),
                ..old(self)@
            })),
    {
        if self.machine.state() == State::Closed {
            return Err(PeerError::SessionClosed);
        }
        let reaction = match &msg {
            Message::Ping => Reaction::Reply(Message::Pong),
            Message::Info(text) => Reaction::Forward(self.addr, Message::Info(text.clone())),
            _ => Reaction::Nothing,
        };
        self.machine.apply(msg)?;
        Ok(reaction)
    }

    /// Ends the session; it then sends and takes nothing more.
    pub fn close(&mut self)
        ensures
            final(self)@ == (PeerView { state: State::Closed, ..old(self)@ }),
    {
        self.machine.close();
    }
}

} // verus!
