use chrono::Utc;
use proxy_stats::histogram::Histogram;

#[test]
fn test_histogram() {
    let mut hist = Histogram::default();
    let timestamp = Utc::now().timestamp_micros();

    hist.add(5, timestamp);
    hist.add(50, timestamp);
    hist.add(150, timestamp);
    hist.add(300, timestamp);
    hist.add(600, timestamp);
    hist.add(1200, timestamp);

    assert_eq!(hist.count_0_10, 1);
    assert_eq!(hist.count_11_100, 1);
    assert_eq!(hist.count_101_250, 1);
    assert_eq!(hist.count_251_500, 1);
    assert_eq!(hist.count_501_1000, 1);
    assert_eq!(hist.count_1000_plus, 1);
    assert_eq!(hist.total_requests, 6);
    assert_eq!(hist.last_request_time, Some(timestamp));
}

#[test]
fn test_bucket_boundaries() {
    // Each named range is inclusive on its upper bound; 1001 ms falls into
    // the unbounded top bucket.
    let cases: Vec<(u128, usize)> = vec![
        (10, 0),
        (100, 1),
        (250, 2),
        (500, 3),
        (1000, 4),
        (1001, 5),
    ];
    for (millis, bucket) in cases {
        let mut hist = Histogram::new();
        hist.add(millis, 7);
        let counts = vec![
            hist.count_0_10,
            hist.count_11_100,
            hist.count_101_250,
            hist.count_251_500,
            hist.count_501_1000,
            hist.count_1000_plus,
        ];
        for (i, c) in counts.iter().enumerate() {
            assert_eq!(*c, if i == bucket { 1 } else { 0 }, "millis = {}", millis);
        }
        assert_eq!(hist.total_requests, 1);
    }
}

#[test]
fn test_last_request_time_follows_latest_call() {
    let mut hist = Histogram::new();
    hist.add(5, 100);
    assert_eq!(hist.last_request_time, Some(100));
    hist.add(2000, 250);
    assert_eq!(hist.last_request_time, Some(250));
    hist.add(70, 180);
    // Last write wins: no comparison against the prior value.
    assert_eq!(hist.last_request_time, Some(180));
    assert_eq!(hist.total_requests, 3);
}
