use chrono::Utc;
use processor::alerts::{Alert, AlertHandler, AlertWindow, Status};

#[test]
fn it_removes_expired_records() {
    let now = Utc::now().timestamp();
    let mut handler = AlertHandler::new(500, 2);
    handler.window.push(now - 10000);
    handler.window.push(now - 1000);
    handler.window.push(now - 500);
    handler.window.push(now - 100);
    handler.window.push(now - 50);
    handler.window.push(now);

    handler.remove_records_by_ttl(now, 500);
    assert_eq!(handler.window.len(), 4);
}

#[test]
fn it_does_not_trigger_alert() {
    let now = Utc::now().timestamp();
    let mut handler = AlertHandler::new(1, 10);
    handler.window.push(now);
    handler.window.push(now);
    handler.window.push(now);
    handler.window.push(now);
    handler.window.push(now);
    handler.window.push(now);
    handler.window.push(now);

    handler.new_record(now);
    assert!(matches!(handler.current_alert, None));
}

#[test]
fn it_triggers_alert_on_high_threshold() {
    let mut handler = AlertHandler::new(1, 2);
    let now = Utc::now().timestamp();
    handler.new_record(now);
    assert!(matches!(handler.current_alert, None));
    handler.new_record(now);
    assert!(matches!(handler.current_alert, None));
    handler.new_record(now);
    assert!(matches!(
        handler.current_alert,
        Some(Alert::HighTraffic(Status::Start(_now)))
    ));
    handler.new_record(now);
    assert!(matches!(
        handler.current_alert,
        Some(Alert::HighTraffic(Status::InProgress))
    ));
}

// The window keeps exactly the timestamps within the trailing TTL: an entry
// at the cutoff itself stays, an older one leaves.
#[test]
fn eviction_keeps_the_cutoff_boundary() {
    let mut window = AlertWindow::new();
    window.push(99);
    window.push(100);
    window.push(150);
    // cutoff is 200 - 100 = 100: the entry at 99 leaves, 100 and 150 stay
    window.evict(200, 100);
    assert_eq!(window.len(), 2);
}

// Pushing a record grows the window by exactly one; evicting never grows it.
#[test]
fn push_grows_and_evict_shrinks() {
    let mut window = AlertWindow::new();
    assert_eq!(window.len(), 0);
    window.push(10);
    assert_eq!(window.len(), 1);
    window.push(11);
    assert_eq!(window.len(), 2);
    window.evict(11, 5);
    assert_eq!(window.len(), 2);
    window.evict(1000, 5);
    assert_eq!(window.len(), 0);
}

// A full episode: rise to the threshold, stay there, fall below. The emitted
// states are one onset, sustained, one recovery tick, then inactive again.
#[test]
fn one_alert_per_episode() {
    let t = 1_500_000_000;
    // threshold 2 per second over a 1 second window: 2 records in the window
    let mut handler = AlertHandler::new(1, 2);
    handler.new_record(t);
    assert!(matches!(handler.current_alert, None));
    handler.new_record(t);
    assert!(matches!(handler.current_alert, None));
    handler.new_record(t);
    assert_eq!(
        handler.current_alert,
        Some(Alert::HighTraffic(Status::Start(t)))
    );
    handler.new_record(t);
    assert_eq!(
        handler.current_alert,
        Some(Alert::HighTraffic(Status::InProgress))
    );
    handler.new_record(t + 10);
    assert_eq!(
        handler.current_alert,
        Some(Alert::HighTraffic(Status::End(t + 10)))
    );
    handler.new_record(t + 20);
    assert!(matches!(handler.current_alert, None));
}

// During the recovery grace tick a rate back at the threshold starts a new
// episode at once: the state goes straight from recovering to onset.
#[test]
fn recovery_interrupted_by_new_onset() {
    let t = 1_500_000_000;
    let mut handler = AlertHandler::new(1, 1);
    handler.new_record(t);
    assert!(matches!(handler.current_alert, None));
    handler.new_record(t);
    assert_eq!(
        handler.current_alert,
        Some(Alert::HighTraffic(Status::Start(t)))
    );
    handler.new_record(t);
    assert_eq!(
        handler.current_alert,
        Some(Alert::HighTraffic(Status::InProgress))
    );
    // the window empties: below threshold, recovery begins
    handler.new_record(t + 5);
    assert_eq!(
        handler.current_alert,
        Some(Alert::HighTraffic(Status::End(t + 5)))
    );
    // one record now sits in the window: at the threshold again
    handler.new_record(t + 5);
    assert_eq!(
        handler.current_alert,
        Some(Alert::HighTraffic(Status::Start(t + 5)))
    );
}
