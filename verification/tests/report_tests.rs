use chrono::{DateTime, Local, Utc};
use prettytable::{Cell, Row, Table};
use proxy_stats::histogram::Histogram;
use proxy_stats::report::{add_histogram_row, print_histograms};
use proxy_stats::store::HistEntry;

#[test]
fn test_add_histogram_row() {
    let mut table = Table::new();
    table.set_format(*prettytable::format::consts::FORMAT_NO_BORDER_LINE_SEPARATOR);
    table.set_titles(Row::new(vec![
        Cell::new("Endpoint"),
        Cell::new("0-10ms"),
        Cell::new("11-100ms"),
        Cell::new("101-250ms"),
        Cell::new("251-500ms"),
        Cell::new("501-1000ms"),
        Cell::new("1000ms+"),
        Cell::new("Total"),
        Cell::new("Last Request"),
    ]));

    let now = Utc::now().timestamp_micros();
    let hist = Histogram {
        count_0_10: 1,
        count_11_100: 2,
        count_101_250: 3,
        count_251_500: 4,
        count_501_1000: 5,
        count_1000_plus: 6,
        total_requests: 21,
        last_request_time: Some(now),
    };

    add_histogram_row(&mut table, "test", &hist);

    let binding = DateTime::<Local>::from(DateTime::<Utc>::from_timestamp_micros(now).unwrap())
        .format("%Y-%m-%d %H:%M:%S %Z")
        .to_string();
    let expected = vec!["test", "1", "2", "3", "4", "5", "6", "21", &binding];

    assert_eq!(
        table.get_row(0).unwrap().into_iter().map(|c| c.to_string()).collect::<Vec<_>>(),
        expected
    );
}

#[test]
fn test_print_histograms() {
    let histograms = vec![
        HistEntry { key: "Overall".to_string(), hist: Histogram::default() },
        HistEntry {
            key: "/test".to_string(),
            hist: Histogram {
                count_0_10: 1,
                count_11_100: 2,
                count_101_250: 3,
                count_251_500: 4,
                count_501_1000: 5,
                count_1000_plus: 6,
                total_requests: 21,
                last_request_time: None,
            },
        },
    ];

    let table = print_histograms(&histograms);

    let expected = vec![
        vec![
            "Endpoint",
            "0-10ms",
            "11-100ms",
            "101-250ms",
            "251-500ms",
            "501-1000ms",
            "1000ms+",
            "Total",
            "Last",
            "Request",
        ],
        vec!["Overall", "0", "0", "0", "0", "0", "0", "0", "N/A"],
        vec!["/test", "1", "2", "3", "4", "5", "6", "21", "N/A"],
    ];

    let mut i: usize = 0;
    for row in table.lines() {
        // skip looping if the row if the row is a separator -----
        if row.contains("-----") {
            continue;
        }

        let cells = row
            .split_whitespace()
            .filter(|c| c.to_string() != "|")
            .map(|c| c.to_string())
            .collect::<Vec<_>>();

        assert_eq!(cells, expected[i]);
        i += 1;
    }
}

#[test]
fn test_render_empty_store() {
    // An empty snapshot renders as a single aggregate row of all zeros with
    // no last-request time.
    let table = print_histograms(&vec![]);
    let rows: Vec<Vec<String>> = table
        .lines()
        .filter(|row| !row.contains("-----"))
        .map(|row| {
            row.split_whitespace()
                .filter(|c| c.to_string() != "|")
                .map(|c| c.to_string())
                .collect()
        })
        .collect();
    assert_eq!(rows.len(), 2);
    assert_eq!(rows[1], vec!["Overall", "0", "0", "0", "0", "0", "0", "0", "N/A"]);
}

#[test]
fn test_only_empty_overall_entry_renders_zero_row() {
    // A snapshot holding only a never-updated aggregate entry renders like
    // an empty one.
    let histograms = vec![HistEntry { key: "Overall".to_string(), hist: Histogram::new() }];
    let table = print_histograms(&histograms);
    let rows: Vec<Vec<String>> = table
        .lines()
        .filter(|row| !row.contains("-----"))
        .map(|row| {
            row.split_whitespace()
                .filter(|c| c.to_string() != "|")
                .map(|c| c.to_string())
                .collect()
        })
        .collect();
    assert_eq!(rows.len(), 2);
    assert_eq!(rows[1], vec!["Overall", "0", "0", "0", "0", "0", "0", "0", "N/A"]);
}

#[test]
fn test_only_nonempty_overall_entry_renders_counts() {
    // A snapshot whose only entry is a non-empty aggregate one renders that
    // entry with its actual counts and last-request time.
    let now = Utc::now().timestamp_micros();
    let mut hist = Histogram::new();
    hist.add(15, now);
    let histograms = vec![HistEntry { key: "Overall".to_string(), hist }];
    let table = print_histograms(&histograms);
    let rows: Vec<Vec<String>> = table
        .lines()
        .filter(|row| !row.contains("-----"))
        .map(|row| {
            row.split_whitespace()
                .filter(|c| c.to_string() != "|")
                .map(|c| c.to_string())
                .collect()
        })
        .collect();
    assert_eq!(rows.len(), 2);
    assert_eq!(rows[1][..8], ["Overall", "0", "1", "0", "0", "0", "0", "1"]);
    let binding = DateTime::<Local>::from(DateTime::<Utc>::from_timestamp_micros(now).unwrap())
        .format("%Y-%m-%d %H:%M:%S %Z")
        .to_string();
    assert_eq!(rows[1][8..].join(" "), binding);
}
