//! The executable connection registry.
//!
//! One token-keyed map holds the stage of every live connection, next to the
//! monotone token allocator.  Every mutation is one step of the lifecycle
//! model in `lifecycle`: the contracts here say so with the model's own
//! transition functions, and each mutating call returns the `Action` the
//! event loop owes the reactor and the server afterwards.

use vstd::prelude::*;

use crate::lifecycle::client_event_action;
use crate::lifecycle::client_event_map;
use crate::lifecycle::player_event_action;
use crate::lifecycle::player_event_map;
use crate::lifecycle::apply_action;
use crate::lifecycle::step_model;
use crate::lifecycle::Action;
use crate::lifecycle::Model;
use crate::lifecycle::Stage;
use crate::lifecycle::Step;
use crate::lifecycle::FIRST_CONNECTION_TOKEN;
use crate::lifecycle::LISTENER_TOKEN;
use vstd::hash_map::HashMapWithView;

verus! {

broadcast use vstd::std_specs::hash::group_hash_axioms;

/// Which branch of the loop a readiness event for a token belongs to.
#[derive(Clone, Copy, PartialEq, Eq, Structural, Debug)]
pub enum DispatchKind {
    /// The reserved listener token: drain the accept backlog.
    Listener,
    /// A live client-stage connection.
    ClientReady,
    /// A live player-stage connection.
    PlayerReady,
    /// No live entry: a stray event, to be ignored silently.
    Stray,
}

/// Where an event for `token` is dispatched, given the stage map.
pub open spec fn spec_dispatch_kind(m: Map<u64, Stage>, token: u64) -> DispatchKind {
    if token == LISTENER_TOKEN {
        DispatchKind::Listener
    } else if m.dom().contains(token) {
        if m[token] == Stage::Client {
            DispatchKind::ClientReady
        } else {
            DispatchKind::PlayerReady
        }
    } else {
        DispatchKind::Stray
    }
}

/// The token-keyed registry of live connections, with the allocator for
/// fresh tokens.  Its view is the stage map of the lifecycle model.  The
/// fields stay private: every way to change the registry is one of the
/// contracted calls below, so the minted-token invariant cannot be broken
/// from outside.
pub struct Registry {
    entries: HashMapWithView<u64, Stage>,
    next_token: u64,
}

impl View for Registry {
    type V = Map<u64, Stage>;

    closed spec fn view(&self) -> Map<u64, Stage> {
        self.entries@
    }
}

impl Registry {
    /// The next token the allocator will mint.
    pub closed spec fn next(&self) -> u64 {
        self.next_token
    }

    /// Every live token was minted: above the listener's reserved token and
    /// below the next one the allocator will hand out.
    pub open spec fn wf(&self) -> bool {
        &&& LISTENER_TOKEN < self.next()
        &&& forall|t: u64|
            #[trigger] self@.dom().contains(t) ==> LISTENER_TOKEN < t && t < self.next()
    }

    /// An empty registry: no live tokens, allocator at the first token past
    /// the listener's.
    pub fn new() -> (r: Registry)
        ensures
            r.wf(),
            r@ == Map::<u64, Stage>::empty(),
            r.next() == FIRST_CONNECTION_TOKEN,
    {
        Registry { entries: HashMapWithView::new(), next_token: FIRST_CONNECTION_TOKEN }
    }

    /// Whether the allocator can still mint a token.
    pub fn can_accept(&self) -> (r: bool)
        ensures
            r == (self.next() < u64::MAX),
    {
        self.next_token < u64::MAX
    }

    /// One successful accept: mint the next token and insert a client-stage
    /// entry for it.  The caller owes the reactor a registration of the
    /// returned token for combined read and write interest.
    pub fn accept_connection(&mut self) -> (token: u64)
        requires
            old(self).wf(),
            old(self).next() < u64::MAX,
        ensures
            final(self).wf(),
            token == old(self).next(),
            !old(self)@.dom().contains(token),
            final(self)@ == old(self)@.insert(token, Stage::Client),
            final(self).next() == token + 1,
    {
        let token = self.next_token;
        self.next_token = self.next_token + 1;
        self.entries.insert(token, Stage::Client);
        proof {
            assert forall|t: u64| #[trigger] self@.dom().contains(t) implies LISTENER_TOKEN < t
                && t < self.next_token by {
                if t != token {
                    assert(old(self)@.dom().contains(t));
                }
            }
        }
        token
    }

    /// The stage of a token, if it is live.
    pub fn stage_of(&self, token: u64) -> (stage: Option<Stage>)
        ensures
            match stage {
                Some(s) => self@.dom().contains(token) && s == self@[token],
                None => !self@.dom().contains(token),
            },
    {
        match self.entries.get(&token) {
            Some(s) => Some(*s),
            None => None,
        }
    }

    /// Which branch of the loop an event for `token` belongs to.
    pub fn dispatch_kind(&self, token: u64) -> (kind: DispatchKind)
        ensures
            kind == spec_dispatch_kind(self@, token),
    {
        if token == LISTENER_TOKEN {
            DispatchKind::Listener
        } else {
            match self.entries.get(&token) {
                Some(Stage::Client) => DispatchKind::ClientReady,
                Some(Stage::Player) => DispatchKind::PlayerReady,
                None => DispatchKind::Stray,
            }
        }
    }

    /// Complete the client branch of one dispatch iteration: the packet
    /// processor of the client behind `token` left `closed` and
    /// `make_player` behind.  A close removes the entry and owes the
    /// reactor a deregistration; a promotion replaces the entry in place by
    /// a player-stage one and owes the one-time post-promotion hook; on a
    /// token with no client-stage entry the event is a stray and nothing
    /// changes.
    pub fn on_client_event(&mut self, token: u64, closed: bool, make_player: bool) -> (action:
        Action)
        ensures
            final(self)@ == client_event_map(old(self)@, token, closed, make_player),
            action == client_event_action(old(self)@, token, closed, make_player),
            final(self).next() == old(self).next(),
            old(self).wf() ==> final(self).wf(),
    {
        let is_client = match self.entries.get(&token) {
            Some(Stage::Client) => true,
            _ => false,
        };
        if is_client {
            if closed {
                self.entries.remove(&token);
                Action::Deregister
            } else if make_player {
                self.entries.insert(token, Stage::Player);
                proof {
                    assert(self@.dom() =~= old(self)@.dom());
                }
                Action::Promote
            } else {
                Action::Ignore
            }
        } else {
            Action::Ignore
        }
    }

    /// Complete the player branch of one dispatch iteration: the packet
    /// processor of the player behind `token` left `closed` behind.  A
    /// close removes the entry and owes the reactor a deregistration and
    /// the server the removal of its bookkeeping; otherwise, and on a token
    /// with no player-stage entry, nothing changes.
    pub fn on_player_event(&mut self, token: u64, closed: bool) -> (action: Action)
        ensures
            final(self)@ == player_event_map(old(self)@, token, closed),
            action == player_event_action(old(self)@, token, closed),
            final(self).next() == old(self).next(),
            old(self).wf() ==> final(self).wf(),
    {
        let is_player = match self.entries.get(&token) {
            Some(Stage::Player) => true,
            _ => false,
        };
        if is_player && closed {
            self.entries.remove(&token);
            Action::RemoveAndDeregister
        } else {
            Action::Ignore
        }
    }

    /// The registry's mutating calls perform exactly the lifecycle model's
    /// steps.  Couple the registry with any reactor set a caller keeps:
    /// a completed accept is `Step::Accept` once the caller registers the
    /// returned token, and a completed event call is its event step once
    /// the caller applies the returned action — each right-hand side below
    /// is what the ensures of `accept_connection`, `on_client_event` and
    /// `on_player_event` leave behind.
    pub proof fn lemma_calls_are_steps(
        entries: Map<u64, Stage>,
        reactor: Set<u64>,
        next: u64,
        token: u64,
        closed: bool,
        make_player: bool,
    )
        ensures
            next < u64::MAX ==> step_model(Model { entries, reactor, next }, Step::Accept) == (
            Model {
                entries: entries.insert(next, Stage::Client),
                reactor: reactor.insert(next),
                next: (next + 1) as u64,
            }),
            step_model(
                Model { entries, reactor, next },
                Step::ClientEvent { token, closed, make_player },
            ) == (Model {
                entries: client_event_map(entries, token, closed, make_player),
                reactor: apply_action(
                    reactor,
                    token,
                    client_event_action(entries, token, closed, make_player),
                ),
                next,
            }),
            step_model(Model { entries, reactor, next }, Step::PlayerEvent { token, closed }) == (
            Model {
                entries: player_event_map(entries, token, closed),
                reactor: apply_action(
                    reactor,
                    token,
                    player_event_action(entries, token, closed),
                ),
                next,
            }),
    {
    }

    /// How many connections are live, in either stage.
    pub fn live_count(&self) -> (n: usize)
        ensures
            n == self@.len(),
    {
        self.entries.len()
    }
}

} // verus!
