//! The single owner of the set of active sessions, driven one event at a time
//! from a mailbox.

use vstd::prelude::*;
use crate::message::Message;
use crate::peer::{Peer, PeerAddr, PeerView};
use crate::state::State;

verus! {

/// An event in the registry's mailbox.
#[derive(Debug)]
pub enum Command {
    /// A transport to `PeerAddr` was accepted or dialed.
    AddPeer(PeerAddr),
    /// A session handed on a message it received from its peer.
    MessageReceived(PeerAddr, Message),
    /// Stop taking events.
    Quit,
}

/// What the registry asks its runner to do for one event.
#[derive(Debug)]
pub enum RegistryAction {
    /// Start this new session over the transport that came with the event.
    Spawn(Peer),
    /// Note this message from this peer.
    Observe(PeerAddr, Message),
    /// Stop reading the mailbox.
    Stop,
    /// Nothing: the registry no longer takes events.
    Ignore,
}

pub struct RegistryView {
    pub sessions: Seq<PeerAddr>,
    pub open: bool,
}

/// The sessions started so far, by address, in the order their events came;
/// no address is merged with another and there is no bound on their number.
pub struct Registry {
    sessions: Vec<PeerAddr>,
    open: bool,
}

impl View for Registry {
    type V = RegistryView;

    closed spec fn view(&self) -> RegistryView {
        RegistryView { sessions: self.sessions@, open: self.open }
    }
}

impl Registry {
    pub fn new() -> (r: Registry)
        ensures
            r@ == (RegistryView { sessions: Seq::empty(), open: true }),
    {
        Registry { sessions: Vec::new(), open: true }
    }

    pub fn sessions(&self) -> (r: &Vec<PeerAddr>)
        ensures
            r@ == self@.sessions,
    {
        &self.sessions
    }

    pub fn is_open(&self) -> (r: bool)
        ensures
            r == self@.open,
    {
        self.open
    }

    /// Handles one mailbox event. While open: a new peer gets a fresh session
    /// and a record; a forwarded message is handed back to be observed; a
    /// shutdown closes the registry. Once closed, every event is ignored.
    pub fn handle(&mut self, cmd: Command) -> (r: RegistryAction)
        ensures
            !old(self)@.open ==> r is Ignore && final(self)@ == old(self)@,
            old(self)@.open ==> match cmd {
                Command::AddPeer(addr) => {
                    &&& r matches RegistryAction::Spawn(p) && p@ == (PeerView {
                        addr,
                        state: State::Offline,
                        clock: 0,
                        last_heartbeat: None,
                    })
                    &&& final(self)@ == (RegistryView {
                        sessions: old(self)@.sessions.push(addr),
                        open: true,
                    })
                },
                Command::MessageReceived(from, m) => {
                    &&& r matches RegistryAction::Observe(a, m2) && a == from && m2 == m
                    &&& final(self)@ == old(self)@
                },
                Command::Quit => {
                    &&& r is Stop
                    &&& final(self)@ == (RegistryView { sessions: old(self)@.sessions, open: false })
                },
            },
    {
        if !self.open {
            return RegistryAction::Ignore;
        }
        match cmd {
            Command::AddPeer(addr) => {
                self.sessions.push(addr);
                RegistryAction::Spawn(Peer::new(addr))
            },
            Command::MessageReceived(from, m) => RegistryAction::Observe(from, m),
            Command::Quit => {
                self.open = false;
                RegistryAction::Stop
            },
        }
    }
}

} // verus!
