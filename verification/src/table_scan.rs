//! The scan of one table for its row digest, as a state machine.
//!
//! The machine decides; the caller does the work. The caller hands in what
//! happened as a `ScanEvent`, and `TableScan::step` answers with the next
//! thing to do. A scan that cannot reach its table ends with an empty
//! digest; a scan that reaches it ends with the digest of the rows read.

use vstd::prelude::*;
use vstd::string::StringExecFns;
use crate::row_digest::{
    decoded_rows, lemma_decoded_rows_bounds, lemma_decoded_rows_concat, rows_digest,
    undecodable_rows, CommutativeRowDigest, FetchedRow,
};
use crate::sql::{relation_lookup_query, relation_lookup_query_spec, row_query, row_query_spec};

verus! {

/// The number of rows fetched at a time where the caller names none.
pub const DEFAULT_BATCH_ROWS: i64 = 10000;

/// The number of rows to fetch at a time: the caller's, if it is positive.
pub open spec fn effective_batch_rows_spec(batch_rows: i32) -> int {
    if batch_rows > 0 {
        batch_rows as int
    } else {
        DEFAULT_BATCH_ROWS as int
    }
}

/// The number of rows to fetch at a time: the caller's, if it is positive.
pub fn effective_batch_rows(batch_rows: i32) -> (n: i64)
    ensures
        n == effective_batch_rows_spec(batch_rows),
        n > 0,
{
    if batch_rows > 0 {
        batch_rows as i64
    } else {
        DEFAULT_BATCH_ROWS
    }
}

/// Where a scan stands.
#[derive(Clone, Copy, Debug, PartialEq, Eq, Structural)]
pub enum ScanPhase {
    /// Nothing has been asked for yet.
    Idle,
    /// A session with the data source is being opened.
    Connecting,
    /// The schema and name of the table are being looked up.
    Resolving,
    /// The cursor over the table's rows is being opened.
    Opening,
    /// Rows are being fetched, batch by batch.
    Fetching,
    /// The scan is over.
    Finished,
}

/// What happened since the last step.
#[derive(Clone, Debug)]
pub enum ScanEvent {
    /// The scan is to begin.
    Start,
    /// The session is open.
    Connected,
    /// The session could not be opened.
    ConnectFailed,
    /// The table's schema and name were found.
    Resolved { schema: String, table: String },
    /// The table's schema and name could not be found or read.
    Unresolved,
    /// The cursor is open.
    CursorOpened,
    /// The query could not be prepared or the cursor could not be opened.
    CursorFailed,
    /// A fetch gave these rows.
    Batch(Vec<FetchedRow>),
    /// A fetch gave no rows, or no result at all.
    EndOfData,
}

/// A `ScanEvent` with its strings and rows as values.
pub enum ScanEventView {
    Start,
    Connected,
    ConnectFailed,
    Resolved { schema: Seq<char>, table: Seq<char> },
    Unresolved,
    CursorOpened,
    CursorFailed,
    Batch(Seq<FetchedRow>),
    EndOfData,
}

impl View for ScanEvent {
    type V = ScanEventView;

    open spec fn view(&self) -> ScanEventView {
        match *self {
            ScanEvent::Start => ScanEventView::Start,
            ScanEvent::Connected => ScanEventView::Connected,
            ScanEvent::ConnectFailed => ScanEventView::ConnectFailed,
            ScanEvent::Resolved { schema, table } => ScanEventView::Resolved {
                schema: schema@,
                table: table@,
            },
            ScanEvent::Unresolved => ScanEventView::Unresolved,
            ScanEvent::CursorOpened => ScanEventView::CursorOpened,
            ScanEvent::CursorFailed => ScanEventView::CursorFailed,
            ScanEvent::Batch(rows) => ScanEventView::Batch(rows@),
            ScanEvent::EndOfData => ScanEventView::EndOfData,
        }
    }
}

/// What the caller is to do next.
#[derive(Clone, Debug)]
pub enum ScanAction {
    /// Open a session with the data source.
    Connect,
    /// Run this query for the table's schema and name.
    ResolveName { query: String },
    /// Prepare this query and open a cursor on it.
    OpenCursor { query: String },
    /// Fetch at most this many rows from the cursor.
    Fetch { max_rows: i64 },
    /// Close what is named as open and hand out the digest: empty where the
    /// table could not be reached. `undecodable` counts the rows that were
    /// passed over because they could not be decoded.
    Finish { digest: String, undecodable: u64, close_cursor: bool, close_session: bool },
}

/// A `ScanAction` with its strings as values.
pub enum ScanActionView {
    Connect,
    ResolveName { query: Seq<char> },
    OpenCursor { query: Seq<char> },
    Fetch { max_rows: int },
    Finish { digest: Seq<char>, undecodable: nat, close_cursor: bool, close_session: bool },
}

impl View for ScanAction {
    type V = ScanActionView;

    open spec fn view(&self) -> ScanActionView {
        match *self {
            ScanAction::Connect => ScanActionView::Connect,
            ScanAction::ResolveName { query } => ScanActionView::ResolveName { query: query@ },
            ScanAction::OpenCursor { query } => ScanActionView::OpenCursor { query: query@ },
            ScanAction::Fetch { max_rows } => ScanActionView::Fetch { max_rows: max_rows as int },
            ScanAction::Finish { digest, undecodable, close_cursor, close_session } => {
                ScanActionView::Finish {
                    digest: digest@,
                    undecodable: undecodable as nat,
                    close_cursor,
                    close_session,
                }
            },
        }
    }
}

/// The state of a scan as values.
pub struct ScanState {
    /// Where the scan stands.
    pub phase: ScanPhase,
    /// The object identifier of the table.
    pub oid: u32,
    /// How many rows are fetched at a time.
    pub batch_rows: int,
    /// The encodings of the rows that take part in the digest so far.
    pub rows: Seq<Seq<u8>>,
    /// How many rows were fetched so far, whatever became of them.
    pub fetched: nat,
    /// How many of the fetched rows could not be decoded.
    pub undecodable: nat,
}

/// The end of a scan in `state` with `digest`: what is open is to be closed.
pub open spec fn conclusion(state: ScanState, digest: Seq<char>) -> (ScanState, ScanActionView) {
    (
        ScanState { phase: ScanPhase::Finished, ..state },
        ScanActionView::Finish {
            digest,
            undecodable: state.undecodable,
            close_cursor: state.phase == ScanPhase::Fetching,
            close_session: state.phase == ScanPhase::Resolving || state.phase
                == ScanPhase::Opening || state.phase == ScanPhase::Fetching,
        },
    )
}

/// The state after a batch of rows was taken in.
pub open spec fn after_batch(state: ScanState, batch: Seq<FetchedRow>) -> ScanState {
    ScanState {
        rows: state.rows + decoded_rows(batch),
        fetched: state.fetched + batch.len(),
        undecodable: state.undecodable + undecodable_rows(batch),
        ..state
    }
}

/// The rule of the scan: the state and the action that follow from a state
/// and an event. An event that the phase does not wait for, and every
/// failure, ends the scan with an empty digest.
pub open spec fn transition(state: ScanState, event: ScanEventView) -> (ScanState, ScanActionView) {
    match event {
        ScanEventView::Start => if state.phase == ScanPhase::Idle {
            (ScanState { phase: ScanPhase::Connecting, ..state }, ScanActionView::Connect)
        } else {
            conclusion(state, Seq::empty())
        },
        ScanEventView::Connected => if state.phase == ScanPhase::Connecting {
            (
                ScanState { phase: ScanPhase::Resolving, ..state },
                ScanActionView::ResolveName {
                    query: relation_lookup_query_spec(state.oid as nat),
                },
            )
        } else {
            conclusion(state, Seq::empty())
        },
        ScanEventView::Resolved { schema, table } => if state.phase == ScanPhase::Resolving {
            (
                ScanState { phase: ScanPhase::Opening, ..state },
                ScanActionView::OpenCursor { query: row_query_spec(schema, table) },
            )
        } else {
            conclusion(state, Seq::empty())
        },
        ScanEventView::CursorOpened => if state.phase == ScanPhase::Opening {
            (
                ScanState { phase: ScanPhase::Fetching, ..state },
                ScanActionView::Fetch { max_rows: state.batch_rows },
            )
        } else {
            conclusion(state, Seq::empty())
        },
        ScanEventView::Batch(batch) => if state.phase == ScanPhase::Fetching {
            if batch.len() > 0 {
                (after_batch(state, batch), ScanActionView::Fetch { max_rows: state.batch_rows })
            } else {
                conclusion(state, rows_digest(state.rows))
            }
        } else {
            conclusion(state, Seq::empty())
        },
        ScanEventView::EndOfData => if state.phase == ScanPhase::Fetching {
            conclusion(state, rows_digest(state.rows))
        } else {
            conclusion(state, Seq::empty())
        },
        ScanEventView::ConnectFailed => conclusion(state, Seq::empty()),
        ScanEventView::Unresolved => conclusion(state, Seq::empty()),
        ScanEventView::CursorFailed => conclusion(state, Seq::empty()),
    }
}

/// The state after a run of batches, one step each.
pub open spec fn after_batches(state: ScanState, batches: Seq<Seq<FetchedRow>>) -> ScanState
    decreases batches.len(),
{
    if batches.len() == 0 {
        state
    } else {
        transition(
            after_batches(state, batches.drop_last()),
            ScanEventView::Batch(batches.last()),
        ).0
    }
}

/// While rows are fetched, a run of batches, none of them empty, takes in
/// the rows of all of them, in order.
pub proof fn lemma_batches_accumulate(state: ScanState, batches: Seq<Seq<FetchedRow>>)
    requires
        state.phase == ScanPhase::Fetching,
        forall|i: int| 0 <= i < batches.len() ==> (#[trigger] batches[i]).len() > 0,
    ensures
        after_batches(state, batches) == after_batch(state, batches.flatten()),
    decreases batches.len(),
{
    if batches.len() == 0 {
        assert(batches.flatten() =~= Seq::<FetchedRow>::empty());
        assert(state.rows + decoded_rows(batches.flatten()) =~= state.rows);
    } else {
        let front = batches.drop_last();
        lemma_batches_accumulate(state, front);
        front.lemma_flatten_push(batches.last());
        assert(front.push(batches.last()) =~= batches);
        lemma_decoded_rows_concat(front.flatten(), batches.last());
        let mid = after_batch(state, front.flatten());
        assert(mid.rows + decoded_rows(batches.last()) =~= state.rows + decoded_rows(
            batches.flatten(),
        ));
    }
}

/// How the rows are cut into batches does not change the digest: two runs of
/// batches that hold the same rows in the same order end with the same
/// action.
pub proof fn lemma_scan_ignores_batching(
    state: ScanState,
    a: Seq<Seq<FetchedRow>>,
    b: Seq<Seq<FetchedRow>>,
)
    requires
        state.phase == ScanPhase::Fetching,
        forall|i: int| 0 <= i < a.len() ==> (#[trigger] a[i]).len() > 0,
        forall|i: int| 0 <= i < b.len() ==> (#[trigger] b[i]).len() > 0,
        a.flatten() == b.flatten(),
    ensures
        transition(after_batches(state, a), ScanEventView::EndOfData) == transition(
            after_batches(state, b),
            ScanEventView::EndOfData,
        ),
        transition(after_batches(state, a), ScanEventView::EndOfData).1 == (
        ScanActionView::Finish {
            digest: rows_digest(state.rows + decoded_rows(a.flatten())),
            undecodable: state.undecodable + undecodable_rows(a.flatten()),
            close_cursor: true,
            close_session: true,
        }),
{
    lemma_batches_accumulate(state, a);
    lemma_batches_accumulate(state, b);
}

/// The scan of one table.
pub struct TableScan {
    phase: ScanPhase,
    oid: u32,
    batch_rows: i64,
    engine: CommutativeRowDigest,
    fetched: u64,
    undecodable: u64,
}

impl View for TableScan {
    type V = ScanState;

    closed spec fn view(&self) -> ScanState {
        ScanState {
            phase: self.phase,
            oid: self.oid,
            batch_rows: self.batch_rows as int,
            rows: self.engine@,
            fetched: self.fetched as nat,
            undecodable: self.undecodable as nat,
        }
    }
}

impl TableScan {
    /// The digest engine is sound, and no more rows were counted than fetched.
    pub closed spec fn wf(&self) -> bool {
        &&& self.engine.wf()
        &&& self.engine@.len() + self.undecodable <= self.fetched
    }

    /// A scan of the table with this object identifier that has not begun.
    /// A batch size that is not positive stands for the default.
    pub fn new(oid: u32, batch_rows: i32) -> (scan: Self)
        ensures
            scan.wf(),
            scan@ == (ScanState {
                phase: ScanPhase::Idle,
                oid,
                batch_rows: effective_batch_rows_spec(batch_rows),
                rows: Seq::empty(),
                fetched: 0,
                undecodable: 0,
            }),
    {
        TableScan {
            phase: ScanPhase::Idle,
            oid,
            batch_rows: effective_batch_rows(batch_rows),
            engine: CommutativeRowDigest::new(),
            fetched: 0,
            undecodable: 0,
        }
    }

    /// Where the scan stands.
    pub fn phase(&self) -> (phase: ScanPhase)
        ensures
            phase == self@.phase,
    {
        self.phase
    }

    /// How many rows were fetched so far.
    pub fn rows_fetched(&self) -> (n: u64)
        ensures
            n as nat == self@.fetched,
    {
        self.fetched
    }

    fn conclude(&mut self, digest: String) -> (action: ScanAction)
        requires
            old(self).wf(),
        ensures
            final(self).wf(),
            (final(self)@, action@) == conclusion(old(self)@, digest@),
    {
        let close_cursor = self.phase == ScanPhase::Fetching;
        let close_session = self.phase == ScanPhase::Resolving || self.phase == ScanPhase::Opening
            || self.phase == ScanPhase::Fetching;
        self.phase = ScanPhase::Finished;
        ScanAction::Finish { digest, undecodable: self.undecodable, close_cursor, close_session }
    }

    fn fail(&mut self) -> (action: ScanAction)
        requires
            old(self).wf(),
        ensures
            final(self).wf(),
            (final(self)@, action@) == conclusion(old(self)@, Seq::empty()),
    {
        let digest = String::new();
        self.conclude(digest)
    }

    /// Takes what happened and says what to do next, by the rule of
    /// `transition`.
    pub fn step(&mut self, event: ScanEvent) -> (action: ScanAction)
        requires
            old(self).wf(),
            event matches ScanEvent::Batch(rows) ==> old(self)@.fetched + rows@.len() <= u64::MAX,
        ensures
            final(self).wf(),
            (final(self)@, action@) == transition(old(self)@, event@),
    {
        match event {
            ScanEvent::Start => {
                if self.phase == ScanPhase::Idle {
                    self.phase = ScanPhase::Connecting;
                    ScanAction::Connect
                } else {
                    self.fail()
                }
            },
            ScanEvent::Connected => {
                if self.phase == ScanPhase::Connecting {
                    self.phase = ScanPhase::Resolving;
                    ScanAction::ResolveName { query: relation_lookup_query(self.oid) }
                } else {
                    self.fail()
                }
            },
            ScanEvent::Resolved { schema, table } => {
                if self.phase == ScanPhase::Resolving {
                    self.phase = ScanPhase::Opening;
                    ScanAction::OpenCursor { query: row_query(schema.as_str(), table.as_str()) }
                } else {
                    self.fail()
                }
            },
            ScanEvent::CursorOpened => {
                if self.phase == ScanPhase::Opening {
                    self.phase = ScanPhase::Fetching;
                    ScanAction::Fetch { max_rows: self.batch_rows }
                } else {
                    self.fail()
                }
            },
            ScanEvent::Batch(rows) => {
                if self.phase == ScanPhase::Fetching {
                    if rows.len() > 0 {
                        proof {
                            lemma_decoded_rows_bounds(rows@);
                        }
                        let skipped = self.engine.absorb_batch(&rows);
                        self.fetched = self.fetched + rows.len() as u64;
                        self.undecodable = self.undecodable + skipped as u64;
                        ScanAction::Fetch { max_rows: self.batch_rows }
                    } else {
                        let digest = self.engine.finish();
                        self.conclude(digest)
                    }
                } else {
                    self.fail()
                }
            },
            ScanEvent::EndOfData => {
                if self.phase == ScanPhase::Fetching {
                    let digest = self.engine.finish();
                    self.conclude(digest)
                } else {
                    self.fail()
                }
            },
            ScanEvent::ConnectFailed => self.fail(),
            ScanEvent::Unresolved => self.fail(),
            ScanEvent::CursorFailed => self.fail(),
        }
    }
}

} // verus!
