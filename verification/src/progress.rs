//! Throughput while a table is read, and the lines and totals of a run.
//!
//! Times are whole nanoseconds. Rates are bytes per second.

use vstd::prelude::*;
use vstd::string::StringExecFns;
use crate::catalog::TableDescriptor;
use crate::database::{identifier_spec, table_identifier};
use crate::format::{
    decimal, fixed1, percent, percent_spec, pretty_bytes, pretty_bytes_spec, pretty_time,
    pretty_time_spec, push_decimal, push_fixed1, rate_per_second, rate_spec, round_div,
    round_half_even, NANOS_PER_SEC,
};
use crate::sums::{lemma_sum_by_concat, lemma_sum_by_permutation, sum_by};

verus! {

/// The counters of a reporter as values.
pub struct ProgressState {
    /// Seconds between two reports; zero for no reports.
    pub interval_secs: nat,
    /// Bytes read so far.
    pub streamed: nat,
    /// Bytes that had been read at the last report.
    pub last_bytes: nat,
    /// Nanoseconds spent in reads so far.
    pub read_nanos: nat,
}

/// One report: the rate since the last report (bytes since then by the
/// time since then), the rate since the start (all bytes by the time spent
/// in reads), and the bytes read since the start.
#[derive(Clone, Copy, Debug, PartialEq, Eq, Structural)]
pub struct ProgressTick {
    pub instant_rate: u64,
    pub average_rate: u64,
    pub total_bytes: u64,
}

/// Whether a report is due: reporting is on, and the interval has passed
/// since the last report.
pub open spec fn tick_due(interval_secs: nat, since_tick_nanos: nat) -> bool {
    interval_secs > 0 && since_tick_nanos >= interval_secs * (NANOS_PER_SEC as nat)
}

/// The counters after a read of `bytes` that took `read_nanos`.
pub open spec fn after_read(state: ProgressState, bytes: nat, read_nanos: nat) -> ProgressState {
    ProgressState {
        streamed: state.streamed + bytes,
        read_nanos: state.read_nanos + read_nanos,
        ..state
    }
}

/// The report for these counters, `since_tick_nanos` after the last report.
pub open spec fn tick_of(state: ProgressState, since_tick_nanos: nat) -> ProgressTick {
    ProgressTick {
        instant_rate: rate_spec(
            (state.streamed - state.last_bytes) as nat,
            since_tick_nanos,
        ) as u64,
        average_rate: rate_spec(state.streamed, state.read_nanos) as u64,
        total_bytes: state.streamed as u64,
    }
}

/// The counters after a report: the next instant rate starts from here.
pub open spec fn after_tick(state: ProgressState) -> ProgressState {
    ProgressState { last_bytes: state.streamed, ..state }
}

/// The throughput of one table's scan.
pub struct ProgressReporter {
    interval_secs: u64,
    streamed: u64,
    last_bytes: u64,
    read_nanos: u64,
}

impl View for ProgressReporter {
    type V = ProgressState;

    closed spec fn view(&self) -> ProgressState {
        ProgressState {
            interval_secs: self.interval_secs as nat,
            streamed: self.streamed as nat,
            last_bytes: self.last_bytes as nat,
            read_nanos: self.read_nanos as nat,
        }
    }
}

impl ProgressReporter {
    /// What was counted at the last report is part of what is counted now.
    pub closed spec fn wf(&self) -> bool {
        self.last_bytes <= self.streamed
    }

    /// A reporter for a scan that has read nothing. An interval of zero
    /// turns reporting off.
    pub fn new(interval_secs: u64) -> (reporter: Self)
        ensures
            reporter.wf(),
            reporter@ == (ProgressState {
                interval_secs: interval_secs as nat,
                streamed: 0,
                last_bytes: 0,
                read_nanos: 0,
            }),
    {
        ProgressReporter { interval_secs, streamed: 0, last_bytes: 0, read_nanos: 0 }
    }

    /// Bytes read so far.
    pub fn streamed(&self) -> (n: u64)
        ensures
            n as nat == self@.streamed,
    {
        self.streamed
    }

    /// Nanoseconds spent in reads so far.
    pub fn read_nanos(&self) -> (n: u64)
        ensures
            n as nat == self@.read_nanos,
    {
        self.read_nanos
    }

    /// Whether this reporter ever reports.
    pub fn enabled(&self) -> (on: bool)
        ensures
            on == (self@.interval_secs > 0),
    {
        self.interval_secs > 0
    }

    /// Counts a read of `bytes` that took `read_nanos`. Where a report is
    /// due, `since_tick_nanos` after the last one (or after the start),
    /// gives the report and starts the next interval.
    pub fn record_read(&mut self, bytes: u64, read_nanos: u64, since_tick_nanos: u64) -> (tick:
        Option<ProgressTick>)
        requires
            old(self).wf(),
            old(self)@.streamed + bytes <= u64::MAX,
            old(self)@.read_nanos + read_nanos <= u64::MAX,
        ensures
            final(self).wf(),
            tick_due(old(self)@.interval_secs, since_tick_nanos as nat) ==> tick == Some(
                tick_of(
                    after_read(old(self)@, bytes as nat, read_nanos as nat),
                    since_tick_nanos as nat,
                ),
            ) && final(self)@ == after_tick(
                after_read(old(self)@, bytes as nat, read_nanos as nat),
            ),
            !tick_due(old(self)@.interval_secs, since_tick_nanos as nat) ==> tick is None
                && final(self)@ == after_read(old(self)@, bytes as nat, read_nanos as nat),
    {
        self.streamed = self.streamed + bytes;
        self.read_nanos = self.read_nanos + read_nanos;
        let due = self.interval_secs > 0 && since_tick_nanos as u128 >= self.interval_secs as u128
            * 1000000000;
        if due {
            let tick = ProgressTick {
                instant_rate: rate_per_second(self.streamed - self.last_bytes, since_tick_nanos),
                average_rate: rate_per_second(self.streamed, self.read_nanos),
                total_bytes: self.streamed,
            };
            self.last_bytes = self.streamed;
            Some(tick)
        } else {
            None
        }
    }
}

/// The line of one report for a table, `elapsed_nanos` after the scan began.
pub open spec fn progress_line_spec(
    schema: Seq<char>,
    table: Seq<char>,
    elapsed_nanos: nat,
    tick: ProgressTick,
) -> Seq<char> {
    "PG "@ + schema + "."@ + table + " t="@ + fixed1(round_half_even(elapsed_nanos, 100000000))
        + "s inst "@ + pretty_bytes_spec(tick.instant_rate as nat) + "/s avg "@ + pretty_bytes_spec(
        tick.average_rate as nat,
    ) + "/s total "@ + pretty_bytes_spec(tick.total_bytes as nat)
}

/// The line of one report for a table, `elapsed_nanos` after the scan began.
pub fn progress_line(schema: &str, table: &str, elapsed_nanos: u64, tick: ProgressTick) -> (line:
    String)
    ensures
        line@ == progress_line_spec(schema@, table@, elapsed_nanos as nat, tick),
{
    let mut line = String::from_str("PG ");
    line.append(schema);
    line.append(".");
    line.append(table);
    line.append(" t=");
    push_fixed1(&mut line, round_div(elapsed_nanos as u128, 100000000));
    line.append("s inst ");
    line.append(pretty_bytes(tick.instant_rate).as_str());
    line.append("/s avg ");
    line.append(pretty_bytes(tick.average_rate).as_str());
    line.append("/s total ");
    line.append(pretty_bytes(tick.total_bytes).as_str());
    line
}

/// The outcome of one table's scan: the table, its digest as hexadecimal
/// text, the bytes or rows that went into it, and the time the scan took.
#[derive(Clone, Debug)]
pub struct DigestResult {
    pub table_id: String,
    pub digest_hex: String,
    pub processed: u64,
    pub elapsed_nanos: u64,
}

impl DigestResult {
    /// The outcome of the scan of `table`.
    pub fn for_table(table: &TableDescriptor, digest_hex: String, processed: u64, elapsed_nanos: u64) -> (result:
        Self)
        ensures
            result.table_id@ == identifier_spec(table.schema@, table.name@),
            result.digest_hex == digest_hex,
            result.processed == processed,
            result.elapsed_nanos == elapsed_nanos,
    {
        DigestResult {
            table_id: table_identifier(table.schema.as_str(), table.name.as_str()),
            digest_hex,
            processed,
            elapsed_nanos,
        }
    }

    /// The outcome for a table that has nothing to scan: no digest, nothing
    /// read, no time spent.
    pub fn nothing_to_scan(table: &TableDescriptor) -> (result: Self)
        ensures
            result.table_id@ == identifier_spec(table.schema@, table.name@),
            result.digest_hex@ == Seq::<char>::empty(),
            result.processed == 0,
            result.elapsed_nanos == 0,
    {
        DigestResult::for_table(table, String::new(), 0, 0)
    }

    /// Bytes or rows per second over the whole scan.
    pub fn rate(&self) -> (rate: u64)
        ensures
            rate as nat == rate_spec(self.processed as nat, self.elapsed_nanos as nat),
    {
        rate_per_second(self.processed, self.elapsed_nanos)
    }
}

/// The line for one table of a run over many: its digest, its size and its
/// estimated rows with their shares of the whole set, the time the scan
/// took and its rate.
pub open spec fn table_line_spec(
    table: TableDescriptor,
    digest: Seq<char>,
    streamed: nat,
    nanos: nat,
    set_bytes: nat,
    set_rows: nat,
) -> Seq<char> {
    table.schema@ + "."@ + table.name@ + " "@ + digest + " size "@ + pretty_bytes_spec(
        table.total_byte_size as nat,
    ) + " ("@ + percent_spec(table.total_byte_size as nat, set_bytes) + "% of set) rows~"@
        + decimal(table.estimated_row_count as nat) + " ("@ + percent_spec(
        table.estimated_row_count as nat,
        set_rows,
    ) + "% of set) took "@ + pretty_time_spec(nanos) + " rate "@ + pretty_bytes_spec(
        rate_spec(streamed, nanos),
    ) + "/s"@
}

/// The line for one table of a run over many.
pub fn table_line(table: &TableDescriptor, result: &DigestResult, set_bytes: u64, set_rows: u64) -> (line:
    String)
    ensures
        line@ == table_line_spec(
            *table,
            result.digest_hex@,
            result.processed as nat,
            result.elapsed_nanos as nat,
            set_bytes as nat,
            set_rows as nat,
        ),
{
    let digest = result.digest_hex.as_str();
    let streamed = result.processed;
    let nanos = result.elapsed_nanos;
    let mut line = String::from_str(table.schema.as_str());
    line.append(".");
    line.append(table.name.as_str());
    line.append(" ");
    line.append(digest);
    line.append(" size ");
    line.append(pretty_bytes(table.total_byte_size).as_str());
    line.append(" (");
    line.append(percent(table.total_byte_size, set_bytes).as_str());
    line.append("% of set) rows~");
    push_decimal(&mut line, table.estimated_row_count as u128);
    line.append(" (");
    line.append(percent(table.estimated_row_count, set_rows).as_str());
    line.append("% of set) took ");
    line.append(pretty_time(nanos).as_str());
    line.append(" rate ");
    line.append(pretty_bytes(rate_per_second(streamed, nanos)).as_str());
    line.append("/s");
    line
}

/// The line for the table of a run over that table alone: as in a run over
/// many, without the shares.
pub open spec fn single_table_line_spec(
    table: TableDescriptor,
    digest: Seq<char>,
    streamed: nat,
    nanos: nat,
) -> Seq<char> {
    table.schema@ + "."@ + table.name@ + " "@ + digest + " size "@ + pretty_bytes_spec(
        table.total_byte_size as nat,
    ) + " rows~"@ + decimal(table.estimated_row_count as nat) + " took "@ + pretty_time_spec(nanos)
        + " rate "@ + pretty_bytes_spec(rate_spec(streamed, nanos)) + "/s"@
}

/// The line for the table of a run over that table alone.
pub fn single_table_line(table: &TableDescriptor, result: &DigestResult) -> (line: String)
    ensures
        line@ == single_table_line_spec(
            *table,
            result.digest_hex@,
            result.processed as nat,
            result.elapsed_nanos as nat,
        ),
{
    let digest = result.digest_hex.as_str();
    let streamed = result.processed;
    let nanos = result.elapsed_nanos;
    let mut line = String::from_str(table.schema.as_str());
    line.append(".");
    line.append(table.name.as_str());
    line.append(" ");
    line.append(digest);
    line.append(" size ");
    line.append(pretty_bytes(table.total_byte_size).as_str());
    line.append(" rows~");
    push_decimal(&mut line, table.estimated_row_count as u128);
    line.append(" took ");
    line.append(pretty_time(nanos).as_str());
    line.append(" rate ");
    line.append(pretty_bytes(rate_per_second(streamed, nanos)).as_str());
    line.append("/s");
    line
}

/// What one worker did: the sizes and estimated rows of the tables it
/// scanned, and the time it spent.
#[derive(Clone, Copy, Debug, PartialEq, Eq, Structural)]
pub struct WorkerSummary {
    pub bytes_done: u64,
    pub rows_done: u64,
    pub time_spent_nanos: u64,
}

pub open spec fn bytes_done_fn() -> spec_fn(WorkerSummary) -> nat {
    |w: WorkerSummary| w.bytes_done as nat
}

pub open spec fn rows_done_fn() -> spec_fn(WorkerSummary) -> nat {
    |w: WorkerSummary| w.rows_done as nat
}

pub open spec fn time_spent_fn() -> spec_fn(WorkerSummary) -> nat {
    |w: WorkerSummary| w.time_spent_nanos as nat
}

/// The bytes, rows and time of all workers together.
pub open spec fn combined_spec(summaries: Seq<WorkerSummary>) -> (nat, nat, nat) {
    (
        sum_by(summaries, bytes_done_fn()),
        sum_by(summaries, rows_done_fn()),
        sum_by(summaries, time_spent_fn()),
    )
}

/// The totals of a run do not depend on the order in which the workers
/// come in.
pub proof fn lemma_totals_ignore_completion_order(a: Seq<WorkerSummary>, b: Seq<WorkerSummary>)
    requires
        a.to_multiset() == b.to_multiset(),
    ensures
        combined_spec(a) == combined_spec(b),
{
    lemma_sum_by_permutation(a, b, bytes_done_fn());
    lemma_sum_by_permutation(a, b, rows_done_fn());
    lemma_sum_by_permutation(a, b, time_spent_fn());
}

impl WorkerSummary {
    /// The summary of a worker that has done nothing yet.
    pub fn new() -> (summary: Self)
        ensures
            summary.bytes_done == 0,
            summary.rows_done == 0,
            summary.time_spent_nanos == 0,
    {
        WorkerSummary { bytes_done: 0, rows_done: 0, time_spent_nanos: 0 }
    }

    /// Adds one scanned table: its size, its estimated rows and the time spent on it.
    pub fn record_table(&mut self, table: &TableDescriptor, spent_nanos: u64)
        requires
            old(self).bytes_done + table.total_byte_size <= u64::MAX,
            old(self).rows_done + table.estimated_row_count <= u64::MAX,
            old(self).time_spent_nanos + spent_nanos <= u64::MAX,
        ensures
            final(self).bytes_done == old(self).bytes_done + table.total_byte_size,
            final(self).rows_done == old(self).rows_done + table.estimated_row_count,
            final(self).time_spent_nanos == old(self).time_spent_nanos + spent_nanos,
    {
        self.bytes_done = self.bytes_done + table.total_byte_size;
        self.rows_done = self.rows_done + table.estimated_row_count;
        self.time_spent_nanos = self.time_spent_nanos + spent_nanos;
    }
}

proof fn lemma_prefix_le(s: Seq<WorkerSummary>, i: int, f: spec_fn(WorkerSummary) -> nat)
    requires
        0 <= i <= s.len(),
    ensures
        sum_by(s.take(i), f) <= sum_by(s, f),
{
    lemma_sum_by_concat(s.take(i), s.skip(i), f);
    assert(s.take(i) + s.skip(i) =~= s);
}

/// The summaries of all workers added up; `None` where one of the three
/// sums does not fit in 64 bits.
pub fn combine_summaries(summaries: &Vec<WorkerSummary>) -> (total: Option<WorkerSummary>)
    ensures
        match total {
            Some(t) => (t.bytes_done as nat, t.rows_done as nat, t.time_spent_nanos as nat)
                == combined_spec(summaries@),
            None => combined_spec(summaries@).0 > u64::MAX || combined_spec(summaries@).1
                > u64::MAX || combined_spec(summaries@).2 > u64::MAX,
        },
{
    let mut total = WorkerSummary::new();
    let mut i: usize = 0;
    assert(summaries@.take(0) =~= Seq::<WorkerSummary>::empty());
    while i < summaries.len()
        invariant
            i <= summaries.len(),
            (total.bytes_done as nat, total.rows_done as nat, total.time_spent_nanos as nat)
                == combined_spec(summaries@.take(i as int)),
        decreases summaries.len() - i,
    {
        proof {
            assert(summaries@.take(i + 1).drop_last() =~= summaries@.take(i as int));
            assert(summaries@.take(i + 1).last() == summaries@[i as int]);
            lemma_prefix_le(summaries@, i + 1, bytes_done_fn());
            lemma_prefix_le(summaries@, i + 1, rows_done_fn());
            lemma_prefix_le(summaries@, i + 1, time_spent_fn());
        }
        let w = summaries[i];
        let bytes = total.bytes_done.checked_add(w.bytes_done);
        let rows = total.rows_done.checked_add(w.rows_done);
        let time = total.time_spent_nanos.checked_add(w.time_spent_nanos);
        match (bytes, rows, time) {
            (Some(b), Some(r), Some(t)) => {
                total = WorkerSummary { bytes_done: b, rows_done: r, time_spent_nanos: t };
            },
            _ => {
                return None;
            },
        }
        i += 1;
    }
    assert(summaries@.take(summaries.len() as int) =~= summaries@);
    Some(total)
}

/// The size of the scanned set for the summary: the catalog's total, or,
/// where that is zero, what the workers added up.
pub fn set_size(catalog_total_bytes: u64, workers_bytes: u64) -> (size: u64)
    ensures
        size == if catalog_total_bytes > 0 {
            catalog_total_bytes
        } else {
            workers_bytes
        },
{
    if catalog_total_bytes > 0 {
        catalog_total_bytes
    } else {
        workers_bytes
    }
}

/// The last line of a run: the number of tables, the size of the scanned
/// set, the size of the whole database as the catalog gives it, the
/// estimated rows, and the wall-clock time of the run.
pub open spec fn summary_line_spec(
    tables: nat,
    set_bytes: nat,
    db_bytes: nat,
    rows: nat,
    wall_nanos: nat,
) -> Seq<char> {
    "SUMMARY tables="@ + decimal(tables) + " set_size="@ + pretty_bytes_spec(set_bytes)
        + " db_size="@ + pretty_bytes_spec(db_bytes) + " rows~"@ + decimal(rows) + " took "@
        + pretty_time_spec(wall_nanos)
}

/// The last line of a run.
pub fn summary_line(tables: usize, set_bytes: u64, db_bytes: u64, rows: u64, wall_nanos: u64) -> (line:
    String)
    ensures
        line@ == summary_line_spec(
            tables as nat,
            set_bytes as nat,
            db_bytes as nat,
            rows as nat,
            wall_nanos as nat,
        ),
{
    let mut line = String::from_str("SUMMARY tables=");
    push_decimal(&mut line, tables as u128);
    line.append(" set_size=");
    line.append(pretty_bytes(set_bytes).as_str());
    line.append(" db_size=");
    line.append(pretty_bytes(db_bytes).as_str());
    line.append(" rows~");
    push_decimal(&mut line, rows as u128);
    line.append(" took ");
    line.append(pretty_time(wall_nanos).as_str());
    line
}

} // verus!
