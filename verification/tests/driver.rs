use processor::alerts::{Alert, Status};
use processor::driver::StreamDriver;
use processor::{ConfigurationError, Record};

fn record(date: i64, status: u16, request: &str) -> Record {
    Record {
        remotehost: "10.0.0.1".to_string(),
        rfc931: "-".to_string(),
        authuser: "apache".to_string(),
        date,
        bytes: 1234,
        status,
        request: request.to_string(),
    }
}

#[test]
fn configuration_is_validated_at_startup() {
    assert!(StreamDriver::new(10, 120, 10).is_ok());
    assert_eq!(
        StreamDriver::new(0, 120, 10).err(),
        Some(ConfigurationError::NonPositiveCadence)
    );
    assert_eq!(
        StreamDriver::new(10, -1, 10).err(),
        Some(ConfigurationError::NonPositiveTtl)
    );
    assert_eq!(
        StreamDriver::new(10, 120, 0).err(),
        Some(ConfigurationError::NonPositiveThreshold)
    );
}

// The cadence boundary rule: the buffer is summarized exactly when a record
// arrives whose timestamp exceeds the first buffered one by strictly more
// than the cadence, and the buffer restarts with that record.
#[test]
fn summaries_follow_the_cadence() {
    let mut driver = StreamDriver::new(2, 120, 10).unwrap();

    let (summary, alert) = driver.process_record(record(1000, 200, "GET /api HTTP/1.0"));
    assert!(summary.is_none());
    assert!(alert.is_none());

    // delta 2 is not strictly greater than the cadence: no summary yet
    let (summary, _) = driver.process_record(record(1002, 404, "GET /api HTTP/1.0"));
    assert!(summary.is_none());

    // delta 3 crosses the boundary: the two buffered records are summarized
    let (summary, _) = driver.process_record(record(1003, 200, "GET / HTTP/1.0"));
    let stats = summary.unwrap();
    assert_eq!(stats.total_hits, 2);
    assert_eq!(stats.from_date, 1000);
    assert_eq!(stats.to_date, 1002);

    // the buffer restarted with the current record
    let (summary, _) = driver.process_record(record(1006, 200, "GET / HTTP/1.0"));
    let stats = summary.unwrap();
    assert_eq!(stats.total_hits, 1);
    assert_eq!(stats.from_date, 1003);
    assert_eq!(stats.to_date, 1003);
}

// The driver reports the alert state after each record, and only while one
// is active.
#[test]
fn alerts_flow_through_the_driver() {
    // threshold 2 per second over a 1 second window
    let mut driver = StreamDriver::new(1000, 1, 2).unwrap();
    let t = 1_500_000_000;

    let (_, alert) = driver.process_record(record(t, 200, "GET / HTTP/1.0"));
    assert!(alert.is_none());
    let (_, alert) = driver.process_record(record(t, 200, "GET / HTTP/1.0"));
    assert!(alert.is_none());
    let (_, alert) = driver.process_record(record(t, 200, "GET / HTTP/1.0"));
    assert_eq!(alert, Some(Alert::HighTraffic(Status::Start(t))));
    let (_, alert) = driver.process_record(record(t, 200, "GET / HTTP/1.0"));
    assert_eq!(alert, Some(Alert::HighTraffic(Status::InProgress)));
    let (_, alert) = driver.process_record(record(t + 10, 200, "GET / HTTP/1.0"));
    assert_eq!(alert, Some(Alert::HighTraffic(Status::End(t + 10))));
    let (_, alert) = driver.process_record(record(t + 20, 200, "GET / HTTP/1.0"));
    assert!(alert.is_none());
}
