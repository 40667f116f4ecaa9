use processor::stats::{
    build_summary_stats, get_request_method_and_path_info, is_wf_request_line, SummaryStats,
};
use processor::Record;
use std::collections::VecDeque;

fn record(date: i64, status: u16, request: &str) -> Record {
    Record {
        remotehost: "0.0.0.1".to_string(),
        rfc931: "-".to_string(),
        authuser: "apache".to_string(),
        date,
        bytes: 9999,
        status,
        request: request.to_string(),
    }
}

#[test]
fn it_gets_request_method_and_path_info() {
    let results = get_request_method_and_path_info(&"DELETE /12345678/1/2 HTTP/1.0".to_string());
    let expected = (
        "DELETE".to_string(),
        "/12345678/1/2".to_string(),
        "12345678".to_string(),
    );
    assert_eq!(results.0, expected.0);
    assert_eq!(results.1, expected.1);
    assert_eq!(results.2, expected.2);

    let results = get_request_method_and_path_info(&"GET / HTTP/1.0".to_string());
    let expected = ("GET".to_string(), "/".to_string(), "".to_string());
    assert_eq!(results.0, expected.0);
    assert_eq!(results.1, expected.1);
    assert_eq!(results.2, expected.2);
}

#[test]
fn it_builds_summary_stats() {
    let mut records = VecDeque::new();
    let now = 1_500_000_000;
    let _later = 1_600_000_000;

    records.push_back(record(now, 200, "GET /api/user HTTP/1.0"));
    records.push_back(record(now, 200, "GET /api/user HTTP/1.0"));
    records.push_back(record(now, 400, "GET /api/user HTTP/1.0"));
    records.push_back(record(now, 500, "GET / HTTP/1.0"));
    assert!(matches!(
        build_summary_stats(&records),
        Ok(SummaryStats {
            from_date: _now,
            to_date: _later,
            total_hits: 4,
            section_hits: _section_hits,
            http_errors: _http_errors,
        })
    ));
}

fn lookup<K: PartialEq>(pairs: &[(K, usize)], key: K) -> Option<usize> {
    pairs.iter().find(|(k, _)| *k == key).map(|(_, c)| *c)
}

// A batch of four records at one timestamp with statuses 200, 200, 400, 500
// and sections "api", "api", "api", "": four total hits, one error count
// each for 400 and 500, three hits for "api" and one for the root section.
#[test]
fn summary_of_one_batch_in_full() {
    let mut records = VecDeque::new();
    let now = 1_500_000_000;
    records.push_back(record(now, 200, "GET /api/user HTTP/1.0"));
    records.push_back(record(now, 200, "GET /api/user HTTP/1.0"));
    records.push_back(record(now, 400, "GET /api/user HTTP/1.0"));
    records.push_back(record(now, 500, "GET / HTTP/1.0"));

    let stats = build_summary_stats(&records).unwrap();
    assert_eq!(stats.total_hits, 4);
    assert_eq!(stats.from_date, now);
    assert_eq!(stats.to_date, now);
    assert_eq!(stats.http_errors.len(), 2);
    assert_eq!(lookup(&stats.http_errors, 400), Some(1));
    assert_eq!(lookup(&stats.http_errors, 500), Some(1));
    assert_eq!(stats.section_hits.len(), 2);
    assert_eq!(lookup(&stats.section_hits, "api".to_string()), Some(3));
    assert_eq!(lookup(&stats.section_hits, "".to_string()), Some(1));
}

// The section counts partition the batch and the error counts never exceed
// it: their sums come out as the batch size and at most the batch size.
#[test]
fn summary_counts_add_up() {
    let mut records = VecDeque::new();
    records.push_back(record(10, 200, "GET /a HTTP/1.0"));
    records.push_back(record(11, 404, "GET /b/c HTTP/1.0"));
    records.push_back(record(12, 301, "POST /a/x HTTP/1.0"));
    records.push_back(record(13, 500, "PUT / HTTP/1.0"));
    records.push_back(record(14, 404, "GET /a HTTP/1.0"));

    let stats = build_summary_stats(&records).unwrap();
    let section_sum: usize = stats.section_hits.iter().map(|(_, c)| *c).sum();
    let error_sum: usize = stats.http_errors.iter().map(|(_, c)| *c).sum();
    assert_eq!(section_sum, stats.total_hits);
    assert!(error_sum <= stats.total_hits);
    assert_eq!(stats.total_hits, 5);
    assert_eq!(error_sum, 3);
    assert_eq!(stats.from_date, 10);
    assert_eq!(stats.to_date, 14);
}

#[test]
fn empty_batch_is_an_error() {
    let records: VecDeque<Record> = VecDeque::new();
    assert!(matches!(
        build_summary_stats(&records),
        Err(processor::EmptyBatchError)
    ));
}

// Splitting follows whitespace runs: leading separators are skipped and a
// run between tokens counts as one boundary.
#[test]
fn request_line_with_extra_whitespace() {
    let results = get_request_method_and_path_info(&"GET  /a/b HTTP/1.0".to_string());
    assert_eq!(results.0, "GET");
    assert_eq!(results.1, "/a/b");
    assert_eq!(results.2, "a");

    let results = get_request_method_and_path_info(&"\tPOST /x\t".to_string());
    assert_eq!(results.0, "POST");
    assert_eq!(results.1, "/x");
    assert_eq!(results.2, "x");
}

#[test]
fn request_line_well_formedness() {
    assert!(is_wf_request_line("GET / HTTP/1.0"));
    assert!(is_wf_request_line("DELETE /12345678/1/2 HTTP/1.0"));
    // a second token exists even without a protocol token
    assert!(is_wf_request_line("GET /api"));
    // one token only
    assert!(!is_wf_request_line("GET"));
    assert!(!is_wf_request_line(""));
    // the path token holds no slash
    assert!(!is_wf_request_line("GET nopath HTTP/1.0"));
}
