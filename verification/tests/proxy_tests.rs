use proxy_stats::blacklist::Blacklist;
use proxy_stats::numfmt::u64_to_string;
use proxy_stats::proxy::{plan_request, record_completed, Header, ProxyPlan};
use proxy_stats::store::StatsStore;

fn sample_headers() -> Vec<Header> {
    vec![
        Header { name: "Host".to_string(), value: b"origin.example".to_vec() },
        Header { name: "X-Custom".to_string(), value: vec![0, 159, 146, 150] },
        Header { name: "Accept".to_string(), value: b"*/*".to_vec() },
    ]
}

#[test]
fn test_blocked_request_returns_403_and_records_nothing() {
    let blacklist = Blacklist::new(vec!["1.2.3.4".to_string()]);
    let mut store = StatsStore::new();

    let plan = plan_request(
        &blacklist,
        &"1.2.3.4".to_string(),
        "GET".to_string(),
        "/foo".to_string(),
        sample_headers(),
        &"localhost".to_string(),
        3000,
    );

    // The handler stops here for a blocked source: no upstream contact, no
    // timing, and no statistics call at all.
    match plan {
        ProxyPlan::Blocked(denial) => {
            assert_eq!(denial.status, 403);
            assert_eq!(denial.body, "Access denied");
        }
        ProxyPlan::Forward(_) => panic!("a blacklisted source must be rejected"),
    }
    assert_eq!(store.hists.len(), 0);
    assert_eq!(store.logs.len(), 0);
    assert!(store.is_ready());
}

#[test]
fn test_unblocked_request_is_forwarded() {
    let blacklist = Blacklist::new(vec!["1.2.3.4".to_string()]);
    let plan = plan_request(
        &blacklist,
        &"5.6.7.8".to_string(),
        "GET".to_string(),
        "/foo".to_string(),
        sample_headers(),
        &"localhost".to_string(),
        3000,
    );
    assert!(matches!(plan, ProxyPlan::Forward(_)));
}

#[test]
fn test_forwarding_preserves_request_parts() {
    let blacklist = Blacklist::new(vec![]);
    let headers = sample_headers();
    let plan = plan_request(
        &blacklist,
        &"9.9.9.9".to_string(),
        "POST".to_string(),
        "/a/b?x=1&y=2".to_string(),
        sample_headers(),
        &"upstream.example".to_string(),
        8080,
    );
    match plan {
        ProxyPlan::Forward(f) => {
            assert_eq!(f.method, "POST");
            assert_eq!(f.uri, "http://upstream.example:8080/a/b?x=1&y=2");
            assert_eq!(f.headers.len(), headers.len());
            for (sent, original) in f.headers.iter().zip(headers.iter()) {
                assert_eq!(sent.name, original.name);
                assert_eq!(sent.value, original.value);
            }
        }
        ProxyPlan::Blocked(_) => panic!("an empty blacklist blocks nobody"),
    }
}

#[test]
fn test_record_foo_15ms() {
    let mut store = StatsStore::new();
    assert!(store.is_ready());
    record_completed(
        &mut store,
        "GET".to_string(),
        "/foo?q=1".to_string(),
        &"/foo".to_string(),
        "5.6.7.8".to_string(),
        15_000,
        42,
    );

    // One log entry, with the method, URI, source IP, and microsecond
    // duration of the request.
    assert_eq!(store.logs.len(), 1);
    assert_eq!(store.logs[0].req_method, "GET");
    assert_eq!(store.logs[0].req_uri, "/foo?q=1");
    assert_eq!(store.logs[0].requester_ip, "5.6.7.8");
    assert_eq!(store.logs[0].micros, 15_000);
    assert_eq!(store.logs[0].timestamp, 42);

    // 15 ms lands in the second bucket of both the aggregate histogram and
    // the endpoint's own.
    assert_eq!(store.hists.len(), 2);
    for key in ["Overall", "/foo"] {
        let entry = store.hists.iter().find(|e| e.key == key).unwrap();
        assert_eq!(entry.hist.count_11_100, 1, "key = {}", key);
        assert_eq!(entry.hist.total_requests, 1, "key = {}", key);
        assert_eq!(entry.hist.count_0_10, 0);
        assert_eq!(entry.hist.last_request_time, Some(42));
    }
}

#[test]
fn test_snapshot_counts_all_records_then_empties() {
    let mut store = StatsStore::new();
    let n: u64 = 25;
    for i in 0..n {
        let key = format!("/endpoint{}", i % 4);
        assert!(store.is_ready());
        store.record_request(&key, (i as u128) * 60, i as i64);
    }

    let snap = store.snapshot_and_clear();
    let overall = snap.hists.iter().find(|e| e.key == "Overall").unwrap();
    assert_eq!(overall.hist.total_requests, n);
    let endpoint_sum: u64 =
        snap.hists.iter().filter(|e| e.key != "Overall").map(|e| e.hist.total_requests).sum();
    assert_eq!(endpoint_sum, n);

    // With no intervening activity the next snapshot is an empty store.
    let second = store.snapshot_and_clear();
    assert_eq!(second.hists.len(), 0);
    assert_eq!(second.logs.len(), 0);
    assert_eq!(store.hists.len(), 0);
    assert_eq!(store.logs.len(), 0);
}

#[test]
fn test_is_blocked_membership() {
    let blacklist = Blacklist::new(vec!["10.0.0.1".to_string(), "192.168.1.9".to_string()]);
    assert!(blacklist.is_blocked(&"10.0.0.1".to_string()));
    assert!(blacklist.is_blocked(&"192.168.1.9".to_string()));
    assert!(!blacklist.is_blocked(&"10.0.0.2".to_string()));
    assert!(!blacklist.is_blocked(&"".to_string()));
}

#[test]
fn test_u64_to_string_exact() {
    assert_eq!(u64_to_string(0), "0");
    assert_eq!(u64_to_string(7), "7");
    assert_eq!(u64_to_string(42), "42");
    assert_eq!(u64_to_string(1000), "1000");
    assert_eq!(u64_to_string(1234567890), "1234567890");
    assert_eq!(u64_to_string(u64::MAX), "18446744073709551615");
}
