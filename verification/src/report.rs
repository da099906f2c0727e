//! Rendering a statistics snapshot as the periodic report: one row per
//! endpoint key, the aggregate row first, and a single all-zero aggregate
//! row when there is nothing to show.

use vstd::prelude::*;

use crate::histogram::Histogram;
use crate::numfmt::{dec_chars, lemma_dec_chars_line_free, line_free, u64_to_string};
use crate::store::{overall_key, HistEntry};
use crate::table::{
    table_add_row, table_has_report_format, table_new, table_rows, table_set_report_format,
    table_set_titles, table_text, table_titles, table_to_string,
};

verus! {

/// The report's column headers.
pub open spec fn report_titles() -> Seq<Seq<char>> {
    seq![
        "Endpoint"@,
        "0-10ms"@,
        "11-100ms"@,
        "101-250ms"@,
        "251-500ms"@,
        "501-1000ms"@,
        "1000ms+"@,
        "Total"@,
        "Last Request"@,
    ]
}

/// What one rendered row says of a histogram: the endpoint name, the six
/// bucket counts and the total in decimal, and `N/A` for the last-request
/// time when there has been none. (When there has been one, the cell holds
/// it formatted in the machine's local time, of which nothing more is
/// stated.)
pub open spec fn row_matches(row: Seq<Seq<char>>, endpoint: Seq<char>, h: Histogram) -> bool {
    row.len() == 9 && row[0] == endpoint && row[1] == dec_chars(h.count_0_10 as nat) && row[2]
        == dec_chars(h.count_11_100 as nat) && row[3] == dec_chars(h.count_101_250 as nat)
        && row[4] == dec_chars(h.count_251_500 as nat) && row[5] == dec_chars(
        h.count_501_1000 as nat,
    ) && row[6] == dec_chars(h.count_1000_plus as nat) && row[7] == dec_chars(
        h.total_requests as nat,
    ) && (h.last_request_time is None ==> row[8] == "N/A"@)
}

/// Relies on chrono's timestamp conversion and local-time formatting. The
/// result depends on the machine's time zone, so its text is not stated;
/// it holds no line break, since the format items print only digits, `-`,
/// `:` and spaces, and the zone is a `+HH:MM`-style offset.
#[verifier::external_body]
fn format_local_time(micros: i64) -> (r: String)
    ensures
        line_free(r@),
{
    match chrono::DateTime::from_timestamp_micros(micros) {
        Some(t) => chrono::DateTime::<chrono::Local>::from(t).format("%Y-%m-%d %H:%M:%S %Z")
            .to_string(),
        None => String::new(),
    }
}

/// Append one row for `hist` under the name `endpoint` to the report table:
/// the six bucket counts and the total in decimal, and the last-request
/// time in local time, or `N/A` if the histogram never saw a request.
/// Endpoint names are URI paths, so they hold no line break.
pub fn add_histogram_row(table: &mut prettytable::Table, endpoint: &str, hist: &Histogram)
    requires
        line_free(endpoint@),
    ensures
        table_rows(*final(table)).len() == table_rows(*old(table)).len() + 1,
        table_rows(*final(table)).drop_last() == table_rows(*old(table)),
        row_matches(table_rows(*final(table)).last(), endpoint@, *hist),
        table_titles(*final(table)) == table_titles(*old(table)),
        table_has_report_format(*final(table)) == table_has_report_format(*old(table)),
{
    let last_request: String = match hist.last_request_time {
        Option::Some(t) => format_local_time(t),
        Option::None => "N/A".to_owned(),
    };
    let mut cells: Vec<String> = Vec::new();
    cells.push(endpoint.to_owned());
    cells.push(u64_to_string(hist.count_0_10));
    cells.push(u64_to_string(hist.count_11_100));
    cells.push(u64_to_string(hist.count_101_250));
    cells.push(u64_to_string(hist.count_251_500));
    cells.push(u64_to_string(hist.count_501_1000));
    cells.push(u64_to_string(hist.count_1000_plus));
    cells.push(u64_to_string(hist.total_requests));
    cells.push(last_request);
    proof {
        lemma_dec_chars_line_free(hist.count_0_10 as nat);
        lemma_dec_chars_line_free(hist.count_11_100 as nat);
        lemma_dec_chars_line_free(hist.count_101_250 as nat);
        lemma_dec_chars_line_free(hist.count_251_500 as nat);
        lemma_dec_chars_line_free(hist.count_501_1000 as nat);
        lemma_dec_chars_line_free(hist.count_1000_plus as nat);
        lemma_dec_chars_line_free(hist.total_requests as nat);
        if hist.last_request_time is None {
            reveal_strlit("N/A");
            crate::numfmt::lemma_short_line_free("N/A"@);
        }
        assert(forall|i: int| 0 <= i < cells@.len() ==> line_free(#[trigger] cells@[i]@));
    }
    table_add_row(table, &cells);
    proof {
        assert(table_rows(*table).drop_last() =~= table_rows(*old(table)));
        assert(row_matches(table_rows(*table).last(), endpoint@, *hist)) by {
            assert(cells@.map_values(|s: String| s@)[0] == endpoint@);
            assert(cells@.map_values(|s: String| s@)[8] == cells@[8]@);
        }
    }
}

/// Whether the snapshot has nothing to report: no entries at all, or a
/// single never-updated entry under the reserved aggregate key.
pub open spec fn only_trivial(entries: Seq<HistEntry>) -> bool {
    entries.len() == 0 || (entries.len() == 1 && entries[0].key@ == overall_key()
        && entries[0].hist == Histogram::empty())
}

/// The non-aggregate entries, in order.
pub open spec fn others_of(s: Seq<HistEntry>) -> Seq<HistEntry>
    decreases s.len(),
{
    if s.len() == 0 {
        Seq::empty()
    } else if s.last().key@ == overall_key() {
        others_of(s.drop_last())
    } else {
        others_of(s.drop_last()).push(s.last())
    }
}

/// The histogram of the first entry under the reserved aggregate key, if
/// there is one.
pub open spec fn first_overall(s: Seq<HistEntry>) -> Option<Histogram>
    decreases s.len(),
{
    if s.len() == 0 {
        Option::None
    } else if s[0].key@ == overall_key() {
        Option::Some(s[0].hist)
    } else {
        first_overall(s.drop_first())
    }
}

/// Which rows the report holds for a snapshot: a single all-zero aggregate
/// row when the snapshot is empty or holds only an empty aggregate entry;
/// otherwise the aggregate row first (if the snapshot has one, with its
/// actual counts), then one row per other endpoint, in entry order.
pub open spec fn report_rows_ok(entries: Seq<HistEntry>, rows: Seq<Seq<Seq<char>>>) -> bool {
    if only_trivial(entries) {
        rows.len() == 1 && row_matches(rows[0], overall_key(), Histogram::empty())
    } else {
        let others = others_of(entries);
        match first_overall(entries) {
            Option::Some(h) => rows.len() == others.len() + 1 && row_matches(
                rows[0],
                overall_key(),
                h,
            ) && forall|i: int|
                0 <= i < others.len() ==> row_matches(
                    #[trigger] rows[i + 1],
                    others[i].key@,
                    others[i].hist,
                ),
            Option::None => rows.len() == others.len() && forall|i: int|
                0 <= i < others.len() ==> row_matches(
                    #[trigger] rows[i],
                    others[i].key@,
                    others[i].hist,
                ),
        }
    }
}

/// A scan that has passed `i` entries without meeting the aggregate key and
/// stops at one carrying it has found the first aggregate entry.
proof fn lemma_first_overall_at(s: Seq<HistEntry>, i: int)
    requires
        0 <= i < s.len(),
        s[i].key@ == overall_key(),
        forall|j: int| 0 <= j < i ==> s[j].key@ != overall_key(),
    ensures
        first_overall(s) == Option::Some(s[i].hist),
    decreases i,
{
    if i == 0 {
    } else {
        assert(forall|j: int| 0 <= j < s.drop_first().len() ==> s.drop_first()[j] == s[j + 1]);
        lemma_first_overall_at(s.drop_first(), i - 1);
    }
}

/// A scan that finds no aggregate key finds no aggregate entry.
proof fn lemma_first_overall_none(s: Seq<HistEntry>)
    requires
        forall|j: int| 0 <= j < s.len() ==> s[j].key@ != overall_key(),
    ensures
        first_overall(s) is None,
    decreases s.len(),
{
    if s.len() > 0 {
        assert(forall|j: int| 0 <= j < s.drop_first().len() ==> s.drop_first()[j] == s[j + 1]);
        lemma_first_overall_none(s.drop_first());
    }
}

/// Render a snapshot's histogram entries as the report table and return its
/// text: the column headers, then the aggregate row first and one row per
/// other endpoint in entry order — or a single all-zero aggregate row when
/// the snapshot is empty or holds only an empty aggregate entry.
/// Endpoint keys are URI paths, so they hold no line break.
pub fn print_histograms(histograms: &Vec<HistEntry>) -> (r: String)
    requires
        forall|i: int| 0 <= i < histograms@.len() ==> line_free(#[trigger] histograms@[i].key@),
    ensures
        exists|rows: Seq<Seq<Seq<char>>>|
            #[trigger] report_rows_ok(histograms@, rows) && r@ == table_text(
                report_titles(),
                rows,
            ),
{
    let ghost s = histograms@;
    let mut table = table_new();
    table_set_report_format(&mut table);
    let mut titles: Vec<String> = Vec::new();
    titles.push("Endpoint".to_owned());
    titles.push("0-10ms".to_owned());
    titles.push("11-100ms".to_owned());
    titles.push("101-250ms".to_owned());
    titles.push("251-500ms".to_owned());
    titles.push("501-1000ms".to_owned());
    titles.push("1000ms+".to_owned());
    titles.push("Total".to_owned());
    titles.push("Last Request".to_owned());
    proof {
        reveal_strlit("Endpoint");
        reveal_strlit("0-10ms");
        reveal_strlit("11-100ms");
        reveal_strlit("101-250ms");
        reveal_strlit("251-500ms");
        reveal_strlit("501-1000ms");
        reveal_strlit("1000ms+");
        reveal_strlit("Total");
        reveal_strlit("Last Request");
        reveal_strlit("Overall");
        crate::numfmt::lemma_short_line_free("Endpoint"@);
        crate::numfmt::lemma_short_line_free("0-10ms"@);
        crate::numfmt::lemma_short_line_free("11-100ms"@);
        crate::numfmt::lemma_short_line_free("101-250ms"@);
        crate::numfmt::lemma_short_line_free("251-500ms"@);
        crate::numfmt::lemma_short_line_free("501-1000ms"@);
        crate::numfmt::lemma_short_line_free("1000ms+"@);
        crate::numfmt::lemma_short_line_free("Total"@);
        crate::numfmt::lemma_short_line_free("Last Request"@);
        crate::numfmt::lemma_short_line_free("Overall"@);
    }
    table_set_titles(&mut table, &titles);
    proof {
        assert(titles@.map_values(|x: String| x@) =~= report_titles());
    }
    let overall: String = "Overall".to_owned();
    let n = histograms.len();
    let trivial: bool = n == 0 || (n == 1 && histograms[0].key.eq(&overall)
        && histograms[0].hist.is_empty());
    if trivial {
        let h = Histogram::new();
        add_histogram_row(&mut table, "Overall", &h);
        proof {
            assert(table_rows(table) =~= Seq::<Seq<Seq<char>>>::empty().push(
                table_rows(table).last(),
            ));
            assert(report_rows_ok(s, table_rows(table)));
        }
    } else {
        let mut oi: usize = n;
        let mut idx: usize = 0;
        while idx < n
            invariant
                0 <= idx <= n,
                n == s.len(),
                s == histograms@,
                overall@ == overall_key(),
                oi == n || (oi < idx && s[oi as int].key@ == overall_key()),
                oi < n ==> forall|j: int| 0 <= j < oi ==> (#[trigger] s[j].key)@ != overall_key(),
                oi == n ==> forall|j: int| 0 <= j < idx ==> (#[trigger] s[j].key)@ != overall_key(),
            decreases n - idx,
        {
            if oi == n && histograms[idx].key.eq(&overall) {
                oi = idx;
            }
            idx = idx + 1;
        }
        let found: bool = oi < n;
        proof {
            if found {
                lemma_first_overall_at(s, oi as int);
            } else {
                lemma_first_overall_none(s);
            }
        }
        if found {
            add_histogram_row(&mut table, "Overall", &histograms[oi].hist);
        }
        let ghost base_rows = table_rows(table);
        let mut i: usize = 0;
        while i < n
            invariant
                0 <= i <= n,
                n == s.len(),
                s == histograms@,
                overall@ == overall_key(),
                forall|j: int| 0 <= j < s.len() ==> line_free(#[trigger] s[j].key@),
                table_titles(table) == report_titles(),
                table_has_report_format(table),
                table_rows(table).len() == base_rows.len() + others_of(s.take(i as int)).len(),
                table_rows(table).take(base_rows.len() as int) == base_rows,
                forall|m: int|
                    0 <= m < others_of(s.take(i as int)).len() ==> row_matches(
                        #[trigger] table_rows(table)[base_rows.len() + m],
                        others_of(s.take(i as int))[m].key@,
                        others_of(s.take(i as int))[m].hist,
                    ),
            decreases n - i,
        {
            proof {
                assert(s.take(i + 1int).drop_last() =~= s.take(i as int));
                assert(s.take(i + 1int).last() == s[i as int]);
            }
            if !histograms[i].key.eq(&overall) {
                let ghost before = table_rows(table);
                add_histogram_row(&mut table, histograms[i].key.as_str(), &histograms[i].hist);
                proof {
                    assert(table_rows(table).take(base_rows.len() as int) =~= base_rows);
                    assert(others_of(s.take(i + 1int)) == others_of(s.take(i as int)).push(
                        s[i as int],
                    ));
                    assert(forall|m: int|
                        0 <= m < before.len() ==> #[trigger] table_rows(table)[m] == before[m]);
                }
            }
            i = i + 1;
        }
        proof {
            assert(s.take(n as int) =~= s);
            let rows = table_rows(table);
            let others = others_of(s);
            if found {
                assert(rows[0] == rows.take(base_rows.len() as int)[0]);
                assert(rows[0] == base_rows[0]);
                assert(base_rows[0] == base_rows.last());
                assert forall|i: int| 0 <= i < others.len() implies row_matches(
                    #[trigger] rows[i + 1],
                    others[i].key@,
                    others[i].hist,
                ) by {
                    assert(row_matches(rows[base_rows.len() + i], others[i].key@, others[i].hist));
                    assert(rows[i + 1] == rows[base_rows.len() + i]);
                }
            } else {
                assert(base_rows.len() == 0);
                assert forall|i: int| 0 <= i < others.len() implies row_matches(
                    #[trigger] rows[i],
                    others[i].key@,
                    others[i].hist,
                ) by {
                    assert(row_matches(rows[base_rows.len() + i], others[i].key@, others[i].hist));
                }
            }
            assert(report_rows_ok(s, rows));
        }
    }
    let r = table_to_string(&table);
    proof {
        let rows = table_rows(table);
        assert(report_rows_ok(s, rows) && r@ == table_text(report_titles(), rows));
    }
    r
}

} // verus!
