use pumpkin_net::lifecycle::Action;
use pumpkin_net::lifecycle::Stage;
use pumpkin_net::lifecycle::FIRST_CONNECTION_TOKEN;
use pumpkin_net::lifecycle::LISTENER_TOKEN;
use pumpkin_net::registry::DispatchKind;
use pumpkin_net::registry::Registry;

#[test]
fn tokens_strictly_increase_across_accepts() {
    let mut r = Registry::new();
    let mut last = LISTENER_TOKEN;
    for _ in 0..10 {
        assert!(r.can_accept());
        let t = r.accept_connection();
        assert!(t > last);
        last = t;
    }
}

#[test]
fn closed_token_is_never_reused() {
    let mut r = Registry::new();
    let t1 = r.accept_connection();
    let t2 = r.accept_connection();
    assert_eq!(r.on_client_event(t1, true, false), Action::Deregister);
    assert_eq!(r.on_client_event(t2, true, false), Action::Deregister);
    let t3 = r.accept_connection();
    assert!(t3 > t2);
    assert_eq!(t3, t2 + 1);
}

#[test]
fn accept_drain_yields_one_client_per_pending_connection() {
    let mut r = Registry::new();
    let pending = 5;
    let mut minted = Vec::new();
    for _ in 0..pending {
        minted.push(r.accept_connection());
    }
    assert_eq!(r.live_count(), pending);
    for (i, t) in minted.iter().enumerate() {
        assert_eq!(*t, FIRST_CONNECTION_TOKEN + i as u64);
        assert_eq!(r.stage_of(*t), Some(Stage::Client));
    }
}

#[test]
fn immediate_disconnect_without_data() {
    // A client connects and disconnects without sending anything: one client
    // entry is created, the following readiness event reports it closed, it
    // is removed and owed a deregistration, and no player ever exists.
    let mut r = Registry::new();
    let t = r.accept_connection();
    assert_eq!(r.live_count(), 1);
    assert_eq!(r.stage_of(t), Some(Stage::Client));
    let action = r.on_client_event(t, true, false);
    assert_eq!(action, Action::Deregister);
    assert_eq!(r.stage_of(t), None);
    assert_eq!(r.live_count(), 0);
    assert_ne!(r.stage_of(t), Some(Stage::Player));
}

#[test]
fn promotion_on_first_frame() {
    // The packet processor flags make_player on the first frame: the client
    // entry disappears, exactly one player entry appears under the same
    // token, and the post-promotion hook is owed exactly once.
    let mut r = Registry::new();
    let t = r.accept_connection();
    let action = r.on_client_event(t, false, true);
    assert_eq!(action, Action::Promote);
    assert_eq!(r.stage_of(t), Some(Stage::Player));
    assert_eq!(r.live_count(), 1);
    // A repeat of the same flags finds no client entry: no second hook.
    assert_eq!(r.on_client_event(t, false, true), Action::Ignore);
    assert_eq!(r.stage_of(t), Some(Stage::Player));
}

#[test]
fn close_is_idempotent() {
    let mut r = Registry::new();
    let t = r.accept_connection();
    r.on_client_event(t, false, true);
    assert_eq!(r.on_player_event(t, true), Action::RemoveAndDeregister);
    assert_eq!(r.stage_of(t), None);
    // Stray events for the closed token are no-ops in both branches.
    assert_eq!(r.on_player_event(t, true), Action::Ignore);
    assert_eq!(r.on_client_event(t, true, false), Action::Ignore);
    assert_eq!(r.stage_of(t), None);
    assert_eq!(r.live_count(), 0);
}

#[test]
fn close_wins_over_promotion_request() {
    let mut r = Registry::new();
    let t = r.accept_connection();
    let action = r.on_client_event(t, true, true);
    assert_eq!(action, Action::Deregister);
    assert_eq!(r.stage_of(t), None);
}

#[test]
fn quiet_events_change_nothing() {
    let mut r = Registry::new();
    let t = r.accept_connection();
    assert_eq!(r.on_client_event(t, false, false), Action::Ignore);
    assert_eq!(r.stage_of(t), Some(Stage::Client));
    r.on_client_event(t, false, true);
    assert_eq!(r.on_player_event(t, false), Action::Ignore);
    assert_eq!(r.stage_of(t), Some(Stage::Player));
}

#[test]
fn dispatch_kind_follows_the_registry() {
    let mut r = Registry::new();
    assert_eq!(r.dispatch_kind(LISTENER_TOKEN), DispatchKind::Listener);
    assert_eq!(r.dispatch_kind(7), DispatchKind::Stray);
    let t = r.accept_connection();
    assert_eq!(r.dispatch_kind(t), DispatchKind::ClientReady);
    r.on_client_event(t, false, true);
    assert_eq!(r.dispatch_kind(t), DispatchKind::PlayerReady);
    r.on_player_event(t, true);
    assert_eq!(r.dispatch_kind(t), DispatchKind::Stray);
}
