//! The handshake and liveness state of one peer session, as a pure
//! transition function separate from any transport.

use vstd::prelude::*;
use crate::message::{Message, MessageView};
use crate::peer::PeerError;

verus! {

/// Where a session stands in its handshake.
#[derive(Debug, Clone, Copy, PartialEq, Eq, Structural)]
pub enum State {
    /// No handshake message exchanged yet.
    Offline,
    /// A `Ping` was sent or received, but no `Pong` seen yet.
    Syncing,
    /// A `Pong` was seen: the handshake is complete.
    Connected,
    /// The session has ended; nothing leaves this state.
    Closed,
}

impl Default for State {
    fn default() -> (r: State)
        ensures
            r == State::Offline,
    {
        State::Offline
    }
}

/// The state after receiving `m` in state `s`.
pub open spec fn state_after_receive(s: State, m: MessageView) -> State {
    match s {
        State::Closed => State::Closed,
        _ => match m {
            MessageView::Ping => if s == State::Connected {
                State::Connected
            } else {
                State::Syncing
            },
            MessageView::Pong => State::Connected,
            _ => s,
        },
    }
}

/// The state after sending `m` in state `s`: a first `Ping` starts the handshake.
pub open spec fn state_after_send(s: State, m: MessageView) -> State {
    if s == State::Offline && m is Ping {
        State::Syncing
    } else {
        s
    }
}

/// The last heartbeat counter seen, after receiving `m`.
pub open spec fn heartbeat_after_receive(last: Option<u32>, m: MessageView) -> Option<u32> {
    match m {
        MessageView::Heartbeat(c) => Some(c),
        _ => last,
    }
}

/// A session's handshake state and the last heartbeat counter it received.
pub struct MachineView {
    pub state: State,
    pub last_heartbeat: Option<u32>,
}

#[derive(Debug)]
pub struct PeerStateMachine {
    state: State,
    last_heartbeat: Option<u32>,
}

impl View for PeerStateMachine {
    type V = MachineView;

    closed spec fn view(&self) -> MachineView {
        MachineView { state: self.state, last_heartbeat: self.last_heartbeat }
    }
}

impl PeerStateMachine {
    pub fn new() -> (r: PeerStateMachine)
        ensures
            r@ == (MachineView { state: State::Offline, last_heartbeat: None }),
    {
        PeerStateMachine { state: State::default(), last_heartbeat: None }
    }

    pub fn state(&self) -> (r: State)
        ensures
            r == self@.state,
    {
        self.state
    }

    pub fn last_heartbeat(&self) -> (r: Option<u32>)
        ensures
            r == self@.last_heartbeat,
    {
        self.last_heartbeat
    }

    /// Takes in a received message. A closed machine refuses it and stays as it is.
    pub fn apply(&mut self, msg: Message) -> (r: Result<(), PeerError>)
        ensures
            old(self)@.state == State::Closed ==> r == Err::<(), PeerError>(
                PeerError::SessionClosed,
            ) && final(self)@ == old(self)@,
            old(self)@.state != State::Closed ==> r is Ok && final(self)@ == (MachineView {
                state: state_after_receive(old(self)@.state, msg@),
                last_heartbeat: heartbeat_after_receive(old(self)@.last_heartbeat, msg@),
            }),
    {
        if self.state == State::Closed {
            return Err(PeerError::SessionClosed);
        }
        match msg {
            Message::Ping => {
                if self.state != State::Connected {
                    self.state = State::Syncing;
                }
            },
            Message::Pong => {
                self.state = State::Connected;
            },
            Message::Heartbeat(c) => {
                self.last_heartbeat = Some(c);
            },
            Message::Info(_) => {},
        }
        Ok(())
    }

    /// Records that `msg` was sent.
    pub fn sent(&mut self, msg: &Message)
        ensures
            final(self)@ == (MachineView {
                state: state_after_send(old(self)@.state, msg@),
                last_heartbeat: old(self)@.last_heartbeat,
            }),
    {
        if self.state == State::Offline {
            if let Message::Ping = msg {
                self.state = State::Syncing;
            }
        }
    }

    /// Ends the session.
    pub fn close(&mut self)
        ensures
            final(self)@ == (MachineView {
                state: State::Closed,
                last_heartbeat: old(self)@.last_heartbeat,
            }),
    {
        self.state = State::Closed;
    }
}

} // verus!
