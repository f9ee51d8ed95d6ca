//! Tables as the catalog lists them, and the choices made before a run.

use vstd::prelude::*;
use vstd::string::{StrSliceExecFns, StringExecFns};
use crate::sums::{lemma_sum_by_concat, sum_by};

verus! {

/// One table of the catalog. The row count and the byte size are the
/// planner's estimates: good for reporting, never exact.
#[derive(Clone, Debug)]
pub struct TableDescriptor {
    pub schema: String,
    pub name: String,
    pub estimated_row_count: u64,
    pub total_byte_size: u64,
}

/// An estimate as the catalog gives it, with anything below zero taken as zero.
pub open spec fn clamp_spec(estimate: i64) -> nat {
    if estimate > 0 {
        estimate as nat
    } else {
        0
    }
}

/// An estimate as the catalog gives it, with anything below zero taken as zero.
pub fn clamp_estimate(estimate: i64) -> (n: u64)
    ensures
        n as nat == clamp_spec(estimate),
{
    if estimate > 0 {
        estimate as u64
    } else {
        0
    }
}

impl TableDescriptor {
    /// A table from one row of the catalog's listing.
    pub fn from_catalog(schema: String, name: String, estimated_rows: i64, total_bytes: i64) -> (t:
        Self)
        ensures
            t.schema == schema,
            t.name == name,
            t.estimated_row_count as nat == clamp_spec(estimated_rows),
            t.total_byte_size as nat == clamp_spec(total_bytes),
    {
        TableDescriptor {
            schema,
            name,
            estimated_row_count: clamp_estimate(estimated_rows),
            total_byte_size: clamp_estimate(total_bytes),
        }
    }
}

pub open spec fn rows_fn() -> spec_fn(TableDescriptor) -> nat {
    |t: TableDescriptor| t.estimated_row_count as nat
}

pub open spec fn bytes_fn() -> spec_fn(TableDescriptor) -> nat {
    |t: TableDescriptor| t.total_byte_size as nat
}

/// The estimated rows of all tables together.
pub open spec fn total_rows_spec(tables: Seq<TableDescriptor>) -> nat {
    sum_by(tables, rows_fn())
}

/// The byte sizes of all tables together.
pub open spec fn total_bytes_spec(tables: Seq<TableDescriptor>) -> nat {
    sum_by(tables, bytes_fn())
}

proof fn lemma_prefix_sum_le<A>(s: Seq<A>, i: int, f: spec_fn(A) -> nat)
    requires
        0 <= i <= s.len(),
    ensures
        sum_by(s.take(i), f) <= sum_by(s, f),
{
    lemma_sum_by_concat(s.take(i), s.skip(i), f);
    assert(s.take(i) + s.skip(i) =~= s);
}

/// The estimated rows of all tables together; `None` where the sum does not
/// fit in 64 bits.
pub fn total_rows(tables: &Vec<TableDescriptor>) -> (total: Option<u64>)
    ensures
        match total {
            Some(n) => n as nat == total_rows_spec(tables@),
            None => total_rows_spec(tables@) > u64::MAX,
        },
{
    let mut sum: u64 = 0;
    let mut i: usize = 0;
    assert(tables@.take(0) =~= Seq::<TableDescriptor>::empty());
    while i < tables.len()
        invariant
            i <= tables.len(),
            sum as nat == sum_by(tables@.take(i as int), rows_fn()),
        decreases tables.len() - i,
    {
        proof {
            assert(tables@.take(i + 1).drop_last() =~= tables@.take(i as int));
            assert(tables@.take(i + 1).last() == tables@[i as int]);
            lemma_prefix_sum_le(tables@, i + 1, rows_fn());
        }
        match sum.checked_add(tables[i].estimated_row_count) {
            Some(next) => {
                sum = next;
            },
            None => {
                return None;
            },
        }
        i += 1;
    }
    assert(tables@.take(tables.len() as int) =~= tables@);
    Some(sum)
}

/// The byte sizes of all tables together; `None` where the sum does not fit
/// in 64 bits.
pub fn total_bytes(tables: &Vec<TableDescriptor>) -> (total: Option<u64>)
    ensures
        match total {
            Some(n) => n as nat == total_bytes_spec(tables@),
            None => total_bytes_spec(tables@) > u64::MAX,
        },
{
    let mut sum: u64 = 0;
    let mut i: usize = 0;
    assert(tables@.take(0) =~= Seq::<TableDescriptor>::empty());
    while i < tables.len()
        invariant
            i <= tables.len(),
            sum as nat == sum_by(tables@.take(i as int), bytes_fn()),
        decreases tables.len() - i,
    {
        proof {
            assert(tables@.take(i + 1).drop_last() =~= tables@.take(i as int));
            assert(tables@.take(i + 1).last() == tables@[i as int]);
            lemma_prefix_sum_le(tables@, i + 1, bytes_fn());
        }
        match sum.checked_add(tables[i].total_byte_size) {
            Some(next) => {
                sum = next;
            },
            None => {
                return None;
            },
        }
        i += 1;
    }
    assert(tables@.take(tables.len() as int) =~= tables@);
    Some(sum)
}

/// What a run is told from outside: how many workers share the tables, how
/// many threads the hashing may use, and how often progress is reported.
#[derive(Clone, Copy, Debug, PartialEq, Eq, Structural)]
pub struct RunConfig {
    /// The number of workers: at least one.
    pub workers: usize,
    /// The size of the hashing thread pool, where one was asked for.
    pub hash_threads: Option<usize>,
    /// Seconds between two progress reports; zero for none.
    pub report_interval_secs: u64,
}

impl RunConfig {
    /// The configuration for the options given: one worker where none or
    /// zero was asked for, and no progress reports where no interval was
    /// given.
    pub fn from_options(
        workers: Option<usize>,
        hash_threads: Option<usize>,
        report_interval_secs: Option<u64>,
    ) -> (config: Self)
        ensures
            config.workers == match workers {
                Some(n) => if n == 0 {
                    1
                } else {
                    n
                },
                None => 1,
            },
            config.workers >= 1,
            config.hash_threads == hash_threads,
            config.report_interval_secs == match report_interval_secs {
                Some(n) => n,
                None => 0,
            },
    {
        RunConfig {
            workers: match workers {
                Some(n) => effective_workers(n),
                None => 1,
            },
            hash_threads,
            report_interval_secs: match report_interval_secs {
                Some(n) => n,
                None => 0,
            },
        }
    }
}

/// The number of workers to run: at least one.
pub fn effective_workers(workers: usize) -> (k: usize)
    ensures
        k == if workers == 0 {
            1
        } else {
            workers
        },
        k >= 1,
{
    if workers == 0 {
        1
    } else {
        workers
    }
}

/// The schema of a table that is named without one.
pub open spec fn default_schema() -> Seq<char> {
    "public"@
}

/// Whether the first dot of `arg` stands at index `i`.
pub open spec fn first_dot_at(arg: Seq<char>, i: int) -> bool {
    &&& 0 <= i < arg.len()
    &&& arg[i] == '.'
    &&& forall|j: int| 0 <= j < i ==> arg[j] != '.'
}

/// A table named on the command line, as schema and table: `schema.table`
/// is cut at its first dot, and a name without a dot is a table of the
/// default schema.
pub fn parse_table_arg(arg: &str) -> (parsed: (String, String))
    ensures
        !arg@.contains('.') ==> parsed.0@ == default_schema() && parsed.1@ == arg@,
        forall|i: int|
            first_dot_at(arg@, i) ==> parsed.0@ == arg@.take(i) && parsed.1@ == arg@.skip(i + 1),
{
    let n = arg.unicode_len();
    let mut i: usize = 0;
    while i < n
        invariant
            i <= n,
            n == arg@.len(),
            forall|j: int| 0 <= j < i ==> arg@[j] != '.',
        decreases n - i,
    {
        if arg.get_char(i) == '.' {
            let schema = String::from_str(arg.substring_char(0, i));
            let table = String::from_str(arg.substring_char(i + 1, n));
            proof {
                assert(arg@.contains('.'));
                assert(arg@.subrange(0, i as int) =~= arg@.take(i as int));
                assert(arg@.subrange(i + 1, n as int) =~= arg@.skip(i + 1));
                assert forall|k: int| first_dot_at(arg@, k) implies k == i by {
                    if k < i {
                        assert(arg@[k] != '.');
                    }
                }
            }
            return (schema, table);
        }
        i += 1;
    }
    proof {
        assert forall|k: int| !first_dot_at(arg@, k) by {
            if 0 <= k < arg@.len() {
                assert(arg@[k] != '.');
            }
        }
        if arg@.contains('.') {
            let k = choose|k: int| 0 <= k < arg@.len() && arg@[k] == '.';
            assert(arg@[k] != '.');
        }
    }
    (String::from_str("public"), String::from_str(arg))
}

} // verus!
