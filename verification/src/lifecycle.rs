//! Mathematical model of the connection lifecycle.
//!
//! A connection is keyed by a token and is, at any instant, in at most one
//! stage: `Client` (accepted, handshake pending) or `Player` (promoted).
//! The model state couples the stage map with the token allocator and with
//! the set of tokens registered at the OS reactor; a step is one unit of
//! work of the event loop.  The transition functions here are the single
//! definition of the loop's behaviour: the executable registry's contracts
//! are stated with them, and the laws at the bottom of this file are proved
//! about them.

use vstd::prelude::*;

verus! {

/// Token reserved for the listening socket itself; never minted for a
/// connection.
pub const LISTENER_TOKEN: u64 = 0;

/// The first token the allocator mints.
pub const FIRST_CONNECTION_TOKEN: u64 = LISTENER_TOKEN + 1;

/// The stage a live connection is in.  A token maps to at most one stage;
/// promotion replaces the variant in place, so a doubly-staged token cannot
/// be represented at all.
#[derive(Clone, Copy, PartialEq, Eq, Structural, Debug)]
pub enum Stage {
    /// Accepted connection, handshake not yet complete.
    Client,
    /// Promoted connection, backed by a domain entity.
    Player,
}

/// What the event loop must do at the reactor and server after a dispatch
/// decision.  The registry mutates itself and hands one of these back.
#[derive(Clone, Copy, PartialEq, Eq, Structural, Debug)]
pub enum Action {
    /// Nothing: the event was a no-op or a stray.
    Ignore,
    /// Deregister the connection from the reactor; the client is gone.
    Deregister,
    /// The client became a player: run the one-time post-promotion hook.
    Promote,
    /// Deregister from the reactor and forget the player in the server's
    /// bookkeeping; the player is gone.
    RemoveAndDeregister,
}

/// Stage map after a readiness event on a client-stage token was handled and
/// its packet processor reported `closed` and `make_player`.  A close wins
/// over a promotion request; a token not in client stage is left untouched.
pub open spec fn client_event_map(
    m: Map<u64, Stage>,
    token: u64,
    closed: bool,
    make_player: bool,
) -> Map<u64, Stage> {
    if m.dom().contains(token) && m[token] == Stage::Client {
        if closed {
            m.remove(token)
        } else if make_player {
            m.insert(token, Stage::Player)
        } else {
            m
        }
    } else {
        m
    }
}

/// Action owed after that same event.
pub open spec fn client_event_action(
    m: Map<u64, Stage>,
    token: u64,
    closed: bool,
    make_player: bool,
) -> Action {
    if m.dom().contains(token) && m[token] == Stage::Client {
        if closed {
            Action::Deregister
        } else if make_player {
            Action::Promote
        } else {
            Action::Ignore
        }
    } else {
        Action::Ignore
    }
}

/// Stage map after a readiness event on a player-stage token was handled and
/// its packet processor reported `closed`.
pub open spec fn player_event_map(m: Map<u64, Stage>, token: u64, closed: bool) -> Map<
    u64,
    Stage,
> {
    if m.dom().contains(token) && m[token] == Stage::Player && closed {
        m.remove(token)
    } else {
        m
    }
}

/// Action owed after that same event.
pub open spec fn player_event_action(m: Map<u64, Stage>, token: u64, closed: bool) -> Action {
    if m.dom().contains(token) && m[token] == Stage::Player && closed {
        Action::RemoveAndDeregister
    } else {
        Action::Ignore
    }
}

/// Effect of an action on the set of tokens registered at the reactor.
pub open spec fn apply_action(reactor: Set<u64>, token: u64, action: Action) -> Set<u64> {
    match action {
        Action::Ignore => reactor,
        Action::Promote => reactor,
        Action::Deregister => reactor.remove(token),
        Action::RemoveAndDeregister => reactor.remove(token),
    }
}

/// The whole state the event loop is responsible for: the stage of every
/// live token, the set of tokens registered at the reactor, and the next
/// token the allocator will mint.
pub struct Model {
    pub entries: Map<u64, Stage>,
    pub reactor: Set<u64>,
    pub next: u64,
}

/// One unit of work of the event loop.
#[derive(Clone, Copy, PartialEq, Eq, Structural, Debug)]
pub enum Step {
    /// One successful accept during a drain of the listener backlog: mint a
    /// token, register it, insert a client.
    Accept,
    /// A readiness event delivered to the client branch, with the flags its
    /// packet processor left behind.
    ClientEvent { token: u64, closed: bool, make_player: bool },
    /// A readiness event delivered to the player branch.
    PlayerEvent { token: u64, closed: bool },
}

/// State at startup: no connections, nothing registered, the allocator at
/// the first token past the listener's.
pub open spec fn init_model() -> Model {
    Model {
        entries: Map::<u64, Stage>::empty(),
        reactor: Set::<u64>::empty(),
        next: FIRST_CONNECTION_TOKEN,
    }
}

/// The transition function of the loop.  An accept when the allocator is
/// exhausted is a no-op; the executable registry refuses to reach that
/// state at all.
pub open spec fn step_model(m: Model, s: Step) -> Model {
    match s {
        Step::Accept => {
            if m.next < u64::MAX {
                Model {
                    entries: m.entries.insert(m.next, Stage::Client),
                    reactor: m.reactor.insert(m.next),
                    next: (m.next + 1) as u64,
                }
            } else {
                m
            }
        },
        Step::ClientEvent { token, closed, make_player } => Model {
            entries: client_event_map(m.entries, token, closed, make_player),
            reactor: apply_action(
                m.reactor,
                token,
                client_event_action(m.entries, token, closed, make_player),
            ),
            next: m.next,
        },
        Step::PlayerEvent { token, closed } => Model {
            entries: player_event_map(m.entries, token, closed),
            reactor: apply_action(
                m.reactor,
                token,
                player_event_action(m.entries, token, closed),
            ),
            next: m.next,
        },
    }
}

/// The loop run over a whole sequence of steps.
pub open spec fn run_model(m: Model, steps: Seq<Step>) -> Model
    decreases steps.len(),
{
    if steps.len() == 0 {
        m
    } else {
        run_model(step_model(m, steps[0]), steps.skip(1))
    }
}

/// Well-formedness: every live token was minted by the allocator — above
/// the listener's reserved token and below the next one to be minted.
pub open spec fn model_wf(m: Model) -> bool {
    &&& LISTENER_TOKEN < m.next
    &&& forall|t: u64|
        #[trigger] m.entries.dom().contains(t) ==> LISTENER_TOKEN < t && t < m.next
}

/// The reactor holds a registration exactly for the live tokens.
pub open spec fn reactor_synced(m: Model) -> bool {
    m.reactor == m.entries.dom()
}

/// The token a readiness event is addressed to, if the step is one.
pub open spec fn event_token(s: Step) -> Option<u64> {
    match s {
        Step::Accept => None,
        Step::ClientEvent { token, closed: _, make_player: _ } => Some(token),
        Step::PlayerEvent { token, closed: _ } => Some(token),
    }
}

/// The startup state is well formed and in sync with an empty reactor.
pub proof fn lemma_init_model()
    ensures
        model_wf(init_model()),
        reactor_synced(init_model()),
{
    assert(Map::<u64, Stage>::empty().dom() =~= Set::<u64>::empty());
}

/// One step keeps every live token below the allocator.
pub proof fn lemma_step_preserves_wf(m: Model, s: Step)
    requires
        model_wf(m),
    ensures
        model_wf(step_model(m, s)),
{
    let m1 = step_model(m, s);
    assert forall|t: u64| #[trigger] m1.entries.dom().contains(t) implies LISTENER_TOKEN < t && t
        < m1.next by {
        match s {
            Step::Accept => {
                if m.next < u64::MAX && t != m.next {
                    assert(m.entries.dom().contains(t));
                }
            },
            _ => {
                assert(m.entries.dom().contains(t));
            },
        }
    }
}

/// One step keeps the reactor registrations equal to the live tokens.
pub proof fn lemma_step_preserves_sync(m: Model, s: Step)
    requires
        reactor_synced(m),
    ensures
        reactor_synced(step_model(m, s)),
{
    let m1 = step_model(m, s);
    assert(m1.reactor =~= m1.entries.dom());
}

/// A run from a well-formed state stays well formed.
pub proof fn lemma_run_preserves_wf(m: Model, steps: Seq<Step>)
    requires
        model_wf(m),
    ensures
        model_wf(run_model(m, steps)),
    decreases steps.len(),
{
    if steps.len() > 0 {
        lemma_step_preserves_wf(m, steps[0]);
        lemma_run_preserves_wf(step_model(m, steps[0]), steps.skip(1));
    }
}

/// Law: a token is registered at the reactor exactly when it has a live
/// client or player entry.  Along every run of the loop that starts in sync
/// — as the startup state is — no dangling registration and no orphaned
/// entry can arise.
pub proof fn lemma_run_reactor_synced(m: Model, steps: Seq<Step>)
    requires
        reactor_synced(m),
    ensures
        reactor_synced(run_model(m, steps)),
    decreases steps.len(),
{
    if steps.len() > 0 {
        lemma_step_preserves_sync(m, steps[0]);
        lemma_run_reactor_synced(step_model(m, steps[0]), steps.skip(1));
    }
}

/// Running a sequence and then one more step is one longer run.
pub proof fn lemma_run_snoc(m: Model, steps: Seq<Step>, s: Step)
    ensures
        run_model(m, steps.push(s)) == step_model(run_model(m, steps), s),
    decreases steps.len(),
{
    let p = steps.push(s);
    if steps.len() == 0 {
        assert(p[0] == s);
        assert(p.skip(1) =~= Seq::<Step>::empty());
        assert(run_model(m, p) == run_model(step_model(m, s), p.skip(1)));
        assert(run_model(step_model(m, s), p.skip(1)) == step_model(m, s));
        assert(run_model(m, steps) == m);
    } else {
        assert(p[0] == steps[0]);
        assert(p.skip(1) =~= steps.skip(1).push(s));
        lemma_run_snoc(step_model(m, steps[0]), steps.skip(1), s);
        assert(run_model(m, p) == run_model(step_model(m, steps[0]), p.skip(1)));
        assert(run_model(m, steps) == run_model(step_model(m, steps[0]), steps.skip(1)));
    }
}

/// The state after `i + 1` steps is one step past the state after `i`.
pub proof fn lemma_run_take_succ(m: Model, steps: Seq<Step>, i: int)
    requires
        0 <= i < steps.len(),
    ensures
        run_model(m, steps.take(i + 1)) == step_model(run_model(m, steps.take(i)), steps[i]),
{
    assert(steps.take(i + 1) =~= steps.take(i).push(steps[i]));
    lemma_run_snoc(m, steps.take(i), steps[i]);
}

/// One step moves the allocator up by at most one and never down.
pub proof fn lemma_step_next(m: Model, s: Step)
    ensures
        m.next <= step_model(m, s).next <= m.next + 1,
{
}

/// The allocator's value after the first `i` steps of a run.
pub open spec fn next_at(m: Model, steps: Seq<Step>, i: int) -> u64 {
    run_model(m, steps.take(i)).next
}

/// Along a run the allocator has moved up by at most one per step.
pub proof fn lemma_next_at_bounds(m: Model, steps: Seq<Step>, i: int)
    requires
        0 <= i <= steps.len(),
    ensures
        m.next <= next_at(m, steps, i) <= m.next + i,
    decreases i,
{
    if i == 0 {
        assert(steps.take(0) =~= Seq::<Step>::empty());
    } else {
        lemma_next_at_bounds(m, steps, i - 1);
        lemma_run_take_succ(m, steps, i - 1);
        lemma_step_next(run_model(m, steps.take(i - 1)), steps[i - 1]);
    }
}

/// The allocator never moves down along a run.
pub proof fn lemma_next_at_monotone(m: Model, steps: Seq<Step>, i: int, j: int)
    requires
        0 <= i <= j <= steps.len(),
    ensures
        next_at(m, steps, i) <= next_at(m, steps, j),
    decreases j - i,
{
    if i < j {
        lemma_next_at_monotone(m, steps, i, j - 1);
        lemma_run_take_succ(m, steps, j - 1);
        lemma_step_next(run_model(m, steps.take(j - 1)), steps[j - 1]);
    }
}

/// Law: tokens are strictly increasing and never reused for the life of the
/// process, across arbitrary accept sequences.  Of two accepts along one
/// run, the later mints the strictly larger token, and neither token has a
/// live entry at the moment it is minted.  The one machine limit: the run
/// must fit below the largest token.
pub proof fn lemma_tokens_strictly_increase(m: Model, steps: Seq<Step>, i: int, j: int)
    requires
        model_wf(m),
        0 <= i < j < steps.len(),
        steps[i] is Accept,
        steps[j] is Accept,
        m.next + steps.len() <= u64::MAX,
    ensures
        next_at(m, steps, i) < next_at(m, steps, j),
        !run_model(m, steps.take(i)).entries.dom().contains(next_at(m, steps, i)),
        !run_model(m, steps.take(j)).entries.dom().contains(next_at(m, steps, j)),
{
    lemma_next_at_bounds(m, steps, i);
    lemma_run_take_succ(m, steps, i);
    assert(next_at(m, steps, i + 1) == next_at(m, steps, i) + 1);
    lemma_next_at_monotone(m, steps, i + 1, j);
    lemma_run_preserves_wf(m, steps.take(i));
    lemma_run_preserves_wf(m, steps.take(j));
}

/// A step that promotes `token`: the client branch handled an event whose
/// flags requested promotion of a live client-stage entry.
pub open spec fn step_promotes(m: Model, s: Step, token: u64) -> bool {
    match s {
        Step::ClientEvent { token: t, closed, make_player } => t == token && client_event_action(
            m.entries,
            t,
            closed,
            make_player,
        ) == Action::Promote,
        _ => false,
    }
}

/// The iteration that observes `make_player` leaves the token with exactly
/// one player entry and no client entry.
pub proof fn lemma_promotion_immediate(m: Model, s: Step, token: u64)
    requires
        step_promotes(m, s, token),
    ensures
        step_model(m, s).entries.dom().contains(token),
        step_model(m, s).entries[token] == Stage::Player,
{
}

/// A token that has left client stage: still below the allocator, and live
/// only as a player if at all.
pub open spec fn promoted_or_gone(m: Model, token: u64) -> bool {
    &&& token < m.next
    &&& (m.entries.dom().contains(token) ==> m.entries[token] == Stage::Player)
}

/// No step brings a token back into client stage.
pub proof fn lemma_step_preserves_promoted_or_gone(m: Model, s: Step, token: u64)
    requires
        promoted_or_gone(m, token),
    ensures
        promoted_or_gone(step_model(m, s), token),
{
}

/// `promoted_or_gone` holds from any point of a run onwards.
pub proof fn lemma_promoted_or_gone_along(m: Model, steps: Seq<Step>, token: u64, i: int, j: int)
    requires
        0 <= i <= j <= steps.len(),
        promoted_or_gone(run_model(m, steps.take(i)), token),
    ensures
        promoted_or_gone(run_model(m, steps.take(j)), token),
    decreases j - i,
{
    if i < j {
        lemma_run_take_succ(m, steps, i);
        lemma_step_preserves_promoted_or_gone(run_model(m, steps.take(i)), steps[i], token);
        lemma_promoted_or_gone_along(m, steps, token, i + 1, j);
    }
}

/// Law: promotion is one-way and happens at most once per token.  Once a
/// run promotes a token, no later step of that run promotes it again — the
/// post-promotion hook cannot run twice.
pub proof fn lemma_promote_at_most_once(m: Model, steps: Seq<Step>, token: u64, i: int, j: int)
    requires
        model_wf(m),
        0 <= i < j < steps.len(),
        step_promotes(run_model(m, steps.take(i)), steps[i], token),
    ensures
        !step_promotes(run_model(m, steps.take(j)), steps[j], token),
{
    lemma_run_preserves_wf(m, steps.take(i));
    lemma_run_take_succ(m, steps, i);
    assert(promoted_or_gone(run_model(m, steps.take(i + 1)), token));
    lemma_promoted_or_gone_along(m, steps, token, i + 1, j);
}

/// A step that closes `token`: an event whose flags report the connection
/// closed, on the matching live entry, in either stage.
pub open spec fn step_closes(m: Model, s: Step, token: u64) -> bool {
    match s {
        Step::Accept => false,
        Step::ClientEvent { token: t, closed, make_player } => t == token && client_event_action(
            m.entries,
            t,
            closed,
            make_player,
        ) == Action::Deregister,
        Step::PlayerEvent { token: t, closed } => t == token && player_event_action(
            m.entries,
            t,
            closed,
        ) == Action::RemoveAndDeregister,
    }
}

/// A token that is gone: no live entry, and the allocator past it, so no
/// accept can ever mint it again.
pub open spec fn gone(m: Model, token: u64) -> bool {
    &&& token < m.next
    &&& !m.entries.dom().contains(token)
}

/// No step revives a gone token.
pub proof fn lemma_step_preserves_gone(m: Model, s: Step, token: u64)
    requires
        gone(m, token),
    ensures
        gone(step_model(m, s), token),
{
}

/// `gone` holds from any point of a run onwards.
pub proof fn lemma_gone_along(m: Model, steps: Seq<Step>, token: u64, i: int, j: int)
    requires
        0 <= i <= j <= steps.len(),
        gone(run_model(m, steps.take(i)), token),
    ensures
        gone(run_model(m, steps.take(j)), token),
    decreases j - i,
{
    if i < j {
        lemma_run_take_succ(m, steps, i);
        lemma_step_preserves_gone(run_model(m, steps.take(i)), steps[i], token);
        lemma_gone_along(m, steps, token, i + 1, j);
    }
}

/// Law: closing is idempotent.  A run deregisters a closed token exactly
/// once: no later step of the run closes it again, and every later event
/// addressed to it leaves the whole state untouched.
pub proof fn lemma_close_at_most_once(m: Model, steps: Seq<Step>, token: u64, i: int, j: int)
    requires
        model_wf(m),
        0 <= i < j < steps.len(),
        step_closes(run_model(m, steps.take(i)), steps[i], token),
    ensures
        !step_closes(run_model(m, steps.take(j)), steps[j], token),
        event_token(steps[j]) == Some(token) ==> step_model(
            run_model(m, steps.take(j)),
            steps[j],
        ) == run_model(m, steps.take(j)),
{
    lemma_run_preserves_wf(m, steps.take(i));
    lemma_run_take_succ(m, steps, i);
    assert(gone(run_model(m, steps.take(i + 1)), token));
    lemma_gone_along(m, steps, token, i + 1, j);
    lemma_stray_event_noop(run_model(m, steps.take(j)), steps[j], token);
}

/// Law: an event for a token with no live entry is a silent no-op.
pub proof fn lemma_stray_event_noop(m: Model, s: Step, token: u64)
    requires
        !m.entries.dom().contains(token),
    ensures
        event_token(s) == Some(token) ==> step_model(m, s) == m,
{
}

/// Law: draining `n` simultaneously pending connections yields exactly `n`
/// new client entries — at the `n` consecutive tokens minted — and leaves
/// every other entry untouched, before the drain halts.
pub proof fn lemma_accept_drain(m: Model, steps: Seq<Step>)
    requires
        model_wf(m),
        forall|k: int| 0 <= k < steps.len() ==> (#[trigger] steps[k]) is Accept,
        m.next + steps.len() <= u64::MAX,
    ensures
        run_model(m, steps).next == m.next + steps.len(),
        forall|t: u64|
            m.next <= t < m.next + steps.len() ==> (#[trigger] run_model(
                m,
                steps,
            ).entries.dom().contains(t)) && run_model(m, steps).entries[t] == Stage::Client,
        forall|t: u64|
            #[trigger] run_model(m, steps).entries.dom().contains(t) <==> (m.entries.dom().contains(
                t,
            ) || m.next <= t < m.next + steps.len()),
        forall|t: u64|
            #[trigger] m.entries.dom().contains(t) ==> run_model(m, steps).entries[t]
                == m.entries[t],
    decreases steps.len(),
{
    if steps.len() > 0 {
        let m1 = step_model(m, steps[0]);
        lemma_step_preserves_wf(m, steps[0]);
        assert forall|k: int| 0 <= k < steps.skip(1).len() implies (#[trigger] steps.skip(1)[k])
            is Accept by {
            assert(steps.skip(1)[k] == steps[k + 1]);
        }
        lemma_accept_drain(m1, steps.skip(1));
        assert(run_model(m, steps) == run_model(m1, steps.skip(1)));
        assert forall|t: u64| #[trigger] m.entries.dom().contains(t) implies run_model(
            m,
            steps,
        ).entries[t] == m.entries[t] by {
            assert(t != m.next);
            assert(m1.entries.dom().contains(t));
            assert(m1.entries[t] == m.entries[t]);
        }
    }
}

} // verus!
