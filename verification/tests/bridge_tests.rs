use tick_bridge::action::ActionRequest;
use tick_bridge::action::ErrorRecord;
use tick_bridge::action::InitError;
use tick_bridge::bridge::Bridge;

type TestBridge = Bridge<u32, u64, u32>;

/// Init succeeds at tick 3: readiness is false for ticks 0 through 2, true
/// from tick 3 onward, monotonically.
#[test]
fn readiness_follows_init_tick() {
    let mut b: TestBridge = Bridge::new();
    for _tick in 0..3 {
        b.install_connection();
        assert!(!b.is_ready());
    }
    // The background init task completes just before tick 3.
    b.complete_init(7);
    for tick in 3..10 {
        b.install_connection();
        assert!(b.is_ready(), "ready must hold from tick 3 on, failed at {}", tick);
    }
}

/// Init fails: readiness stays false on every tick; no subscription is ever
/// spawned and no action ever reaches the background domain.
#[test]
fn failed_init_keeps_everything_gated() {
    let mut b: TestBridge = Bridge::new();
    b.fail_init(InitError { reason: "bus unavailable".to_string() });
    assert!(b.init_error().is_some());
    for _tick in 0..5 {
        b.install_connection();
        assert!(!b.is_ready());
        assert!(!b.setup_subscription());
        b.submit_action(ActionRequest::ToggleWifi { enabled: true });
        assert!(b.dispatch_actions().is_empty());
        assert!(b.drain_errors().is_empty());
        assert!(b.drain_events().is_empty());
    }
}

/// The subscription task is spawned exactly once, however many ticks run
/// afterwards with the started flag up.
#[test]
fn subscription_setup_is_idempotent() {
    let mut b: TestBridge = Bridge::new();
    assert!(!b.setup_subscription(), "not ready: no spawn");
    b.complete_init(1);
    b.install_connection();
    let mut spawns = 0;
    for _tick in 0..6 {
        if b.setup_subscription() {
            spawns += 1;
        }
    }
    assert_eq!(spawns, 1);
}

/// An action submitted before readiness is silently dropped: no background
/// task, no error record, and no late delivery once ready.
#[test]
fn actions_dropped_while_not_ready() {
    let mut b: TestBridge = Bridge::new();
    b.submit_action(ActionRequest::SetWifi { enabled: true });
    b.submit_action(ActionRequest::ToggleWifi { enabled: false });
    assert!(b.dispatch_actions().is_empty());
    assert!(b.drain_errors().is_empty());
    // Becoming ready later does not revive the dropped requests.
    b.complete_init(9);
    b.install_connection();
    assert!(b.dispatch_actions().is_empty());
}

/// Once ready, dispatch hands the queued actions out in submission order.
#[test]
fn actions_dispatched_in_submission_order() {
    let mut b: TestBridge = Bridge::new();
    b.complete_init(3);
    b.install_connection();
    b.submit_action(ActionRequest::SetWifi { enabled: true });
    b.submit_action(ActionRequest::ToggleWifi { enabled: true });
    b.submit_action(ActionRequest::SetWifi { enabled: false });
    let tasks = b.dispatch_actions();
    assert_eq!(
        tasks,
        vec![
            ActionRequest::SetWifi { enabled: true },
            ActionRequest::ToggleWifi { enabled: true },
            ActionRequest::SetWifi { enabled: false },
        ]
    );
    assert!(b.dispatch_actions().is_empty());
}

/// Three events produced by the background stream before tick T are all
/// drained at tick T in arrival order; the drain at tick T+1 yields none.
#[test]
fn drain_yields_buffered_events_once() {
    let mut b: TestBridge = Bridge::new();
    b.deliver_event(100);
    b.deliver_event(200);
    b.deliver_event(300);
    let at_t = b.drain_events();
    assert_eq!(at_t, vec![100, 200, 300]);
    let at_t_plus_1 = b.drain_events();
    assert!(at_t_plus_1.is_empty());
}

/// A failed toggle surfaces exactly one error record with its reason in the
/// synchronous domain's error feed, within finitely many ticks.
#[test]
fn toggle_failure_surfaces_one_error_record() {
    let mut b: TestBridge = Bridge::new();
    b.complete_init(4);
    b.install_connection();
    b.submit_action(ActionRequest::ToggleWifi { enabled: true });
    let tasks = b.dispatch_actions();
    assert_eq!(tasks.len(), 1);
    // The background task fails and reports back.
    b.deliver_error(ErrorRecord::ToggleWifiFailed { reason: "bus timeout".to_string() });
    let mut seen = 0;
    for _tick in 0..4 {
        for rec in b.drain_errors() {
            match rec {
                ErrorRecord::ToggleWifiFailed { reason } => {
                    assert_eq!(reason, "bus timeout");
                    seen += 1;
                }
                ErrorRecord::SetWifiFailed { .. } => panic!("wrong record variant"),
            }
        }
    }
    assert_eq!(seen, 1);
}

/// A failed set-wifi action surfaces its own record variant.
#[test]
fn set_wifi_failure_surfaces_its_variant() {
    let mut b: TestBridge = Bridge::new();
    b.deliver_error(ErrorRecord::SetWifiFailed { reason: "no adapter".to_string() });
    let recs = b.drain_errors();
    assert_eq!(recs.len(), 1);
    assert!(matches!(&recs[0], ErrorRecord::SetWifiFailed { reason } if reason == "no adapter"));
}

/// A closed stream is distinguishable from an idle one: buffered events still
/// drain, then emptiness together with the closed flag means no more will
/// come.
#[test]
fn closed_stream_is_explicit() {
    let mut b: TestBridge = Bridge::new();
    b.deliver_event(1);
    b.deliver_event(2);
    assert!(!b.stream_closed());
    b.note_stream_closed();
    assert_eq!(b.drain_events(), vec![1, 2]);
    assert!(b.stream_closed());
    assert!(b.drain_events().is_empty());
    assert!(b.stream_closed());
}

/// The stream-consumer end crosses into the poll loop exactly once.
#[test]
fn source_handoff_is_one_shot() {
    let mut b: TestBridge = Bridge::new();
    assert_eq!(b.install_source(), None);
    b.deliver_source(42);
    assert_eq!(b.install_source(), Some(42));
    assert_eq!(b.install_source(), None);
}

/// The connection accessor mirrors readiness and hands out the installed
/// handle.
#[test]
fn connection_accessor_mirrors_readiness() {
    let mut b: TestBridge = Bridge::new();
    assert!(b.connection().is_none());
    b.complete_init(11);
    assert!(b.connection().is_none(), "not installed yet");
    b.install_connection();
    assert_eq!(b.connection(), Some(&11));
}
