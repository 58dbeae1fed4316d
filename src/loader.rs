use vstd::prelude::*;
use crate::error::IngestError;
use crate::ident::{valid_identifier, all_valid_identifiers, is_valid_identifier, all_identifiers_valid};
use crate::value::{Record, RecordModel, ValueModel, has_key, lookup};
use crate::sql::{
    InsertStatement, build_rows_insert, names_of, values_of, row_params, batch_params, field_bound,
    lemma_full_row_round_trip, BatchMode,
};
use crate::schema::{keys_within, record_within, resolve, resolved_columns, TableTarget};
use crate::sql::records_of;

verus! {

/// What happens to the batch when one row fails.
#[derive(Debug, Clone, Copy, PartialEq, Eq, Structural)]
pub enum FailPolicy {
    /// The first failing row aborts the batch and rolls it back.
    FailFast,
    /// A failing row is recorded and skipped; the other rows are committed.
    BestEffort,
}

/// The states of a loader.
#[derive(Debug, Clone, Copy, PartialEq, Eq, Structural)]
pub enum Phase {
    /// No transaction yet: waiting for the gateway to begin one.
    Idle,
    /// A transaction is open: waiting for the next record of the source.
    TransactionOpen,
    /// The statement of a row was handed out: waiting for its result.
    RowPending,
    /// A commit was asked for: waiting for its result.
    Committing,
    /// A rollback was asked for: waiting for its result.
    RollingBack,
    /// Terminal: no further events are taken.
    Closed,
}

/// A row that did not make it into the table, by its index in the source.
#[derive(Debug, Clone, Copy, PartialEq, Eq, Structural)]
pub struct RowFailure {
    pub row: usize,
    pub error: IngestError,
}

/// The summary of one ingestion.
#[derive(Debug)]
pub struct IngestionOutcome {
    pub attempted: usize,
    pub committed: usize,
    pub failed: Vec<RowFailure>,
}

/// What the driver reports to the loader.
#[derive(Debug)]
pub enum Event {
    /// The gateway began a transaction.
    Begun,
    /// The gateway could not begin a transaction.
    BeginFailed,
    /// The source produced its next record.
    Next(Record),
    /// The source is exhausted.
    SourceEnd,
    /// The source failed to decode its next record.
    DecodeFailed,
    /// The caller cancels the ingestion.
    Cancel,
    /// The statement of the pending row executed.
    RowDone,
    /// The statement of the pending row failed.
    RowFailed,
    /// The gateway committed.
    Committed,
    /// The gateway failed to commit.
    CommitFailed,
    /// The gateway rolled back.
    RolledBack,
    /// The gateway failed to roll back.
    RollbackFailed,
}

/// What the loader asks the driver to do next.
#[derive(Debug)]
pub enum Action {
    /// Fetch the next record from the source.
    Pull,
    /// Execute this statement inside the transaction.
    Execute(InsertStatement),
    /// Commit the transaction.
    Commit,
    /// Roll the transaction back.
    Rollback,
    /// The ingestion is over; its result is ready.
    Finish,
    /// The event does not fit the current state and was not taken.
    Ignore,
}

/// The number of `true` entries of `s`.
pub open spec fn ok_count(s: Seq<bool>) -> nat
    decreases s.len(),
{
    if s.len() == 0 {
        0
    } else {
        ok_count(s.drop_last()) + if s.last() {
            1nat
        } else {
            0nat
        }
    }
}

/// The indices of the `false` entries of `s`, in order.
pub open spec fn failed_indices(s: Seq<bool>) -> Seq<int>
    decreases s.len(),
{
    if s.len() == 0 {
        Seq::empty()
    } else if s.last() {
        failed_indices(s.drop_last())
    } else {
        failed_indices(s.drop_last()).push(s.len() - 1)
    }
}

/// The row indices of a list of failures.
pub open spec fn failure_rows(f: Seq<RowFailure>) -> Seq<int> {
    f.map_values(|x: RowFailure| x.row as int)
}

/// The rows that go into one statement under `mode`.
pub open spec fn chunk_size(mode: BatchMode) -> nat {
    match mode {
        BatchMode::PerRow => 1,
        BatchMode::MultiRow { max_rows } => max_rows as nat,
    }
}

/// `n` results of `b`.
pub open spec fn repeat(b: bool, n: nat) -> Seq<bool> {
    Seq::new(n, |i: int| b)
}

/// The failures, with error `e`, of the `n` rows from index `start` on.
pub open spec fn failures_from(start: nat, n: nat, e: IngestError) -> Seq<RowFailure> {
    Seq::new(n, |i: int| RowFailure { row: (start + i) as usize, error: e })
}

/// The model of a loader.
pub struct LoaderModel {
    pub table: Seq<char>,
    pub columns: Seq<Seq<char>>,
    pub policy: FailPolicy,
    pub mode: BatchMode,
    pub phase: Phase,
    pub attempted: nat,
    pub committed: nat,
    pub failed: Seq<RowFailure>,
    pub error: Option<IngestError>,
    /// Per attempted row, in source order: whether its statement executed.
    pub results: Seq<bool>,
    /// Records taken from the source and not yet handed out in a statement.
    pub buffer: Seq<RecordModel>,
    /// The rows of the statement handed out and not yet answered.
    pub pending: nat,
    /// The source is exhausted: the commit follows the statement in flight.
    pub draining: bool,
}

impl LoaderModel {
    pub open spec fn with_phase(self, p: Phase) -> LoaderModel {
        LoaderModel { phase: p, ..self }
    }

    pub open spec fn close_with(self, e: IngestError) -> LoaderModel {
        LoaderModel { phase: Phase::Closed, error: Some(e), ..self }
    }

    pub open spec fn abort_with(self, e: IngestError) -> LoaderModel {
        LoaderModel { phase: Phase::RollingBack, error: Some(e), ..self }
    }

    /// The rows of `buffer` are handed out in one statement.
    pub open spec fn flushed(self, draining: bool) -> LoaderModel {
        LoaderModel {
            phase: Phase::RowPending,
            buffer: Seq::empty(),
            pending: self.buffer.len(),
            draining,
            ..self
        }
    }

    /// Where the loader goes once the statement in flight is settled and the
    /// batch goes on.
    pub open spec fn after_settled(self) -> Phase {
        if self.draining {
            Phase::Committing
        } else {
            Phase::TransactionOpen
        }
    }

    /// The action that goes with `after_settled`.
    pub open spec fn next_action(self, act: Action) -> bool {
        if self.draining {
            act is Commit
        } else {
            act is Pull
        }
    }

    /// The rows of the statement in flight executed.
    pub open spec fn rows_succeeded(self) -> LoaderModel {
        LoaderModel {
            phase: self.after_settled(),
            attempted: self.attempted + self.pending,
            committed: self.committed + self.pending,
            results: self.results + repeat(true, self.pending),
            pending: 0,
            ..self
        }
    }

    /// The statement in flight failed with `e`: its rows are recorded as
    /// failed; under `BestEffort` the loader goes on, under `FailFast` the
    /// transaction is to be rolled back.
    pub open spec fn rows_failed(self, e: IngestError) -> LoaderModel {
        let recorded = LoaderModel {
            attempted: self.attempted + self.pending,
            failed: self.failed + failures_from(self.attempted, self.pending, e),
            results: self.results + repeat(false, self.pending),
            pending: 0,
            ..self
        };
        match self.policy {
            FailPolicy::BestEffort => recorded.with_phase(self.after_settled()),
            FailPolicy::FailFast => recorded.abort_with(e),
        }
    }

    /// The action that follows a failed statement under the policy.
    pub open spec fn after_rows_failure(self, act: Action) -> bool {
        match self.policy {
            FailPolicy::BestEffort => self.next_action(act),
            FailPolicy::FailFast => act is Rollback,
        }
    }

    /// The next record was rejected with `e` before any statement was built
    /// for it: it is recorded under its index in the source, and the
    /// transaction is to be rolled back, whatever the policy.
    pub open spec fn row_rejected(self, e: IngestError) -> LoaderModel {
        LoaderModel {
            failed: self.failed.push(
                RowFailure { row: (self.attempted + self.buffer.len()) as usize, error: e },
            ),
            ..self
        }.abort_with(e)
    }

    /// The loader as it starts.
    pub open spec fn initial(
        table: Seq<char>,
        columns: Seq<Seq<char>>,
        policy: FailPolicy,
        mode: BatchMode,
    ) -> LoaderModel {
        LoaderModel {
            table,
            columns,
            policy,
            mode,
            phase: Phase::Idle,
            attempted: 0,
            committed: 0,
            failed: Seq::empty(),
            error: None,
            results: Seq::empty(),
            buffer: Seq::empty(),
            pending: 0,
            draining: false,
        }
    }
}

/// The action hands out one statement that inserts `rows`.
pub open spec fn executes(act: Action, table: Seq<char>, cols: Seq<Seq<char>>, rows: Seq<RecordModel>) -> bool {
    match act {
        Action::Execute(st) => st.inserts(table, cols, rows),
        _ => false,
    }
}

/// The transition of the loader from `pre` on `ev`, giving `post` and the
/// action `act`. An event that does not fit the phase changes nothing.
pub open spec fn step_spec(pre: LoaderModel, ev: Event, post: LoaderModel, act: Action) -> bool {
    match (pre.phase, ev) {
        (Phase::Idle, Event::Begun) => post == pre.with_phase(Phase::TransactionOpen) && act is Pull,
        (Phase::Idle, Event::BeginFailed) => post == pre.close_with(
            IngestError::TransactionStartFailed,
        ) && act is Finish,
        (Phase::TransactionOpen, Event::Next(rec)) => if !keys_within(rec@, pre.columns) {
            post == pre.row_rejected(IngestError::SchemaMismatch) && act is Rollback
        } else {
            let more = LoaderModel { buffer: pre.buffer.push(rec@), ..pre };
            if more.buffer.len() >= chunk_size(pre.mode) {
                post == more.flushed(false) && executes(act, pre.table, pre.columns, more.buffer)
            } else {
                post == more && act is Pull
            }
        },
        (Phase::TransactionOpen, Event::SourceEnd) => if pre.buffer.len() > 0 {
            post == pre.flushed(true) && executes(act, pre.table, pre.columns, pre.buffer)
        } else {
            post == pre.with_phase(Phase::Committing) && act is Commit
        },
        (Phase::TransactionOpen, Event::DecodeFailed) => post == pre.abort_with(
            IngestError::DecodeError,
        ) && act is Rollback,
        (Phase::TransactionOpen, Event::Cancel) => post == pre.abort_with(IngestError::Cancelled)
            && act is Rollback,
        (Phase::RowPending, Event::RowDone) => post == pre.rows_succeeded() && pre.next_action(act),
        (Phase::RowPending, Event::RowFailed) => post == pre.rows_failed(
            IngestError::RowExecutionFailed,
        ) && pre.after_rows_failure(act),
        (Phase::Committing, Event::Committed) => post == pre.with_phase(Phase::Closed)
            && act is Finish,
        (Phase::Committing, Event::CommitFailed) => post == pre.close_with(
            IngestError::CommitFailed,
        ) && act is Finish,
        (Phase::RollingBack, Event::RolledBack) => post == pre.with_phase(Phase::Closed)
            && act is Finish,
        (Phase::RollingBack, Event::RollbackFailed) => post == pre.close_with(
            IngestError::RollbackFailed,
        ) && act is Finish,
        _ => post == pre && act is Ignore,
    }
}

/// The columns a loader is prepared with: those that the batch resolves
/// to, and none for an empty batch without known columns, which loads
/// nothing.
pub open spec fn load_columns(
    target_cols: Option<Seq<Seq<char>>>,
    rows: Seq<RecordModel>,
) -> Result<Seq<Seq<char>>, IngestError> {
    if target_cols is None && rows.len() == 0 {
        Ok(Seq::empty())
    } else {
        resolved_columns(target_cols, rows)
    }
}

/// The invariant of a loader model.
pub open spec fn model_wf(m: LoaderModel) -> bool {
    &&& valid_identifier(m.table)
    &&& all_valid_identifiers(m.columns)
    &&& chunk_size(m.mode) > 0
    &&& m.attempted + m.pending + m.buffer.len() <= usize::MAX
    &&& m.results.len() == m.attempted
    &&& m.committed == ok_count(m.results)
    &&& (m.error is None ==> failure_rows(m.failed) == failed_indices(m.results))
    &&& (m.phase == Phase::Idle ==> m.attempted == 0 && m.buffer.len() == 0)
    &&& (m.phase == Phase::RowPending ==> m.pending > 0 && m.buffer.len() == 0)
    &&& (m.phase != Phase::RowPending ==> m.pending == 0)
    &&& (m.phase == Phase::Committing ==> m.buffer.len() == 0)
    &&& (m.phase == Phase::RollingBack ==> m.error is Some)
    &&& (m.phase == Phase::Idle || m.phase == Phase::TransactionOpen || m.phase
        == Phase::RowPending || m.phase == Phase::Committing ==> m.error is None)
    &&& (m.policy == FailPolicy::FailFast && m.error is None ==> m.failed.len() == 0)
}

/// Drives one ingestion: decides, from each event that the driver reports,
/// the next state and the next action. The driver begins a transaction and
/// reports `Begun` or `BeginFailed` first.
pub struct Loader {
    table: String,
    columns: Vec<String>,
    policy: FailPolicy,
    mode: BatchMode,
    phase: Phase,
    outcome: IngestionOutcome,
    error: Option<IngestError>,
    buffer: Vec<Record>,
    pending: usize,
    draining: bool,
    results: Ghost<Seq<bool>>,
}

impl View for Loader {
    type V = LoaderModel;

    closed spec fn view(&self) -> LoaderModel {
        LoaderModel {
            table: self.table@,
            columns: names_of(self.columns@),
            policy: self.policy,
            mode: self.mode,
            phase: self.phase,
            attempted: self.outcome.attempted as nat,
            committed: self.outcome.committed as nat,
            failed: self.outcome.failed@,
            error: self.error,
            results: self.results@,
            buffer: records_of(self.buffer@),
            pending: self.pending as nat,
            draining: self.draining,
        }
    }
}

proof fn lemma_ok_count_bound(s: Seq<bool>)
    ensures
        ok_count(s) <= s.len(),
    decreases s.len(),
{
    if s.len() > 0 {
        lemma_ok_count_bound(s.drop_last());
    }
}

proof fn lemma_append_trues(s: Seq<bool>, n: nat)
    ensures
        ok_count(s + repeat(true, n)) == ok_count(s) + n,
        failed_indices(s + repeat(true, n)) == failed_indices(s),
    decreases n,
{
    if n > 0 {
        lemma_append_trues(s, (n - 1) as nat);
        assert((s + repeat(true, n)).drop_last() =~= s + repeat(true, (n - 1) as nat));
    } else {
        assert(s + repeat(true, n) =~= s);
    }
}

proof fn lemma_append_falses(s: Seq<bool>, n: nat)
    ensures
        ok_count(s + repeat(false, n)) == ok_count(s),
        failed_indices(s + repeat(false, n)) == failed_indices(s) + Seq::new(
            n,
            |i: int| s.len() + i,
        ),
    decreases n,
{
    if n > 0 {
        let m = (n - 1) as nat;
        lemma_append_falses(s, m);
        assert((s + repeat(false, n)).drop_last() =~= s + repeat(false, m));
        assert(failed_indices(s) + Seq::new(n, |i: int| s.len() + i) =~= (failed_indices(s)
            + Seq::new(m, |i: int| s.len() + i)).push((s.len() + m) as int));
    } else {
        assert(s + repeat(false, n) =~= s);
        assert(failed_indices(s) + Seq::new(n, |i: int| s.len() + i) =~= failed_indices(s));
    }
}

impl Loader {
    pub open spec fn wf(&self) -> bool {
        model_wf(self@)
    }

    /// A loader for the table `table` with the insert columns `columns`,
    /// batching rows as `mode` says; refused where a name fails the
    /// identifier allow-list.
    pub fn new(table: String, columns: Vec<String>, policy: FailPolicy, mode: BatchMode) -> (r:
        Result<Loader, IngestError>)
        requires
            mode matches BatchMode::MultiRow { max_rows } ==> max_rows > 0,
        ensures
            (r is Ok) == (valid_identifier(table@) && all_valid_identifiers(names_of(columns@))),
            r is Err ==> r == Err::<Loader, IngestError>(IngestError::InvalidIdentifier),
            r matches Ok(l) ==> l.wf() && l@ == LoaderModel::initial(
                table@,
                names_of(columns@),
                policy,
                mode,
            ),
    {
        if !is_valid_identifier(table.as_str()) || !all_identifiers_valid(&columns) {
            return Err(IngestError::InvalidIdentifier);
        }
        let l = Loader {
            table,
            columns,
            policy,
            mode,
            phase: Phase::Idle,
            outcome: IngestionOutcome { attempted: 0, committed: 0, failed: Vec::new() },
            error: None,
            buffer: Vec::new(),
            pending: 0,
            draining: false,
            results: Ghost(Seq::empty()),
        };
        proof {
            assert(l@.failed =~= Seq::<RowFailure>::empty());
            assert(l@.buffer =~= Seq::<RecordModel>::empty());
            assert(failure_rows(l@.failed) =~= Seq::<int>::empty());
        }
        Ok(l)
    }

    /// A loader for `target`, with its columns resolved against `batch`
    /// (the records themselves where the target names no columns; where it
    /// does, they are only checked against them). An empty batch without
    /// known columns is no error: it gives a loader without columns, for
    /// which the source can only end at once (see `lemma_empty_source`).
    /// Nothing is opened: a bad table name, a bad column name or a failed
    /// resolution is reported before any transaction.
    pub fn prepare(target: &TableTarget, batch: &Vec<Record>, policy: FailPolicy, mode: BatchMode) -> (r:
        Result<Loader, IngestError>)
        requires
            mode matches BatchMode::MultiRow { max_rows } ==> max_rows > 0,
        ensures
            !valid_identifier(target.name@) ==> r == Err::<Loader, IngestError>(
                IngestError::InvalidIdentifier,
            ),
            valid_identifier(target.name@) ==> match load_columns(
                target.columns_model(),
                records_of(batch@),
            ) {
                Err(e) => r == Err::<Loader, IngestError>(e),
                Ok(cols) => if all_valid_identifiers(cols) {
                    r matches Ok(l) && l.wf() && l@ == LoaderModel::initial(
                        target.name@,
                        cols,
                        policy,
                        mode,
                    )
                } else {
                    r == Err::<Loader, IngestError>(IngestError::InvalidIdentifier)
                },
            },
            valid_identifier(target.name@) && target.columns is None && batch@.len() == 0 ==> (r matches Ok(l)
                && l.wf() && l@ == LoaderModel::initial(target.name@, Seq::empty(), policy, mode)),
    {
        if !is_valid_identifier(target.name.as_str()) {
            return Err(IngestError::InvalidIdentifier);
        }
        if target.columns.is_none() && batch.len() == 0 {
            let none: Vec<String> = Vec::new();
            proof {
                assert(names_of(none@) =~= Seq::<Seq<char>>::empty());
            }
            return Loader::new(target.name.clone(), none, policy, mode);
        }
        match resolve(target, batch) {
            Err(e) => Err(e),
            Ok(cols) => Loader::new(target.name.clone(), cols, policy, mode),
        }
    }

    /// The current phase.
    pub fn phase(&self) -> (p: Phase)
        ensures
            p == self@.phase,
    {
        self.phase
    }

    /// The number of rows whose outcome is known.
    pub fn attempted(&self) -> (n: usize)
        ensures
            n == self@.attempted,
    {
        self.outcome.attempted
    }

    /// The number of rows taken from the source so far: those whose outcome
    /// is known, those in flight and those waiting for a statement.
    pub fn rows_taken(&self) -> (n: usize)
        requires
            self.wf(),
        ensures
            n == self@.attempted + self@.pending + self@.buffer.len(),
    {
        self.outcome.attempted + self.pending + self.buffer.len()
    }

    /// The number of rows whose statement executed.
    pub fn committed(&self) -> (n: usize)
        ensures
            n == self@.committed,
    {
        self.outcome.committed
    }

    /// The failed rows so far, in row order.
    pub fn failures(&self) -> (f: &Vec<RowFailure>)
        ensures
            f@ == self@.failed,
    {
        &self.outcome.failed
    }

    /// The error that ends the ingestion, if any.
    pub fn error(&self) -> (e: Option<IngestError>)
        ensures
            e == self@.error,
    {
        self.error
    }

    /// Hands out the buffered records in one statement.
    fn flush(&mut self, draining: bool) -> (act: Action)
        requires
            old(self).wf(),
            old(self)@.phase == Phase::TransactionOpen,
            old(self)@.buffer.len() > 0,
        ensures
            final(self).wf(),
            final(self)@ == old(self)@.flushed(draining),
            executes(act, old(self)@.table, old(self)@.columns, old(self)@.buffer),
    {
        let n = self.buffer.len();
        let st = build_rows_insert(self.table.as_str(), &self.columns, &self.buffer, 0, n);
        proof {
            assert(records_of(self.buffer@).subrange(0, n as int) =~= records_of(self.buffer@));
        }
        self.buffer = Vec::new();
        self.pending = n;
        self.draining = draining;
        self.phase = Phase::RowPending;
        proof {
            assert(records_of(self.buffer@) =~= Seq::<RecordModel>::empty());
        }
        Action::Execute(st)
    }

    /// What follows the settling of the statement in flight.
    fn go_on(&mut self) -> (act: Action)
        ensures
            final(self)@ == old(self)@.with_phase(old(self)@.after_settled()),
            old(self)@.next_action(act),
    {
        if self.draining {
            self.phase = Phase::Committing;
            Action::Commit
        } else {
            self.phase = Phase::TransactionOpen;
            Action::Pull
        }
    }

    /// Takes one event: moves to the next state and returns the next action.
    pub fn step(&mut self, ev: Event) -> (act: Action)
        requires
            old(self).wf(),
            old(self)@.attempted + old(self)@.pending + old(self)@.buffer.len() < usize::MAX,
        ensures
            final(self).wf(),
            step_spec(old(self)@, ev, final(self)@, act),
    {
        let ghost pre = self@;
        match (self.phase, ev) {
            (Phase::Idle, Event::Begun) => {
                self.phase = Phase::TransactionOpen;
                Action::Pull
            },
            (Phase::Idle, Event::BeginFailed) => {
                self.phase = Phase::Closed;
                self.error = Some(IngestError::TransactionStartFailed);
                Action::Finish
            },
            (Phase::TransactionOpen, Event::Next(rec)) => {
                if !record_within(&rec, &self.columns) {
                    let row = self.outcome.attempted + self.buffer.len();
                    self.outcome.failed.push(RowFailure { row, error: IngestError::SchemaMismatch });
                    self.phase = Phase::RollingBack;
                    self.error = Some(IngestError::SchemaMismatch);
                    Action::Rollback
                } else {
                    let ghost r = rec@;
                    self.buffer.push(rec);
                    proof {
                        assert(records_of(self.buffer@) =~= pre.buffer.push(r));
                    }
                    let size: usize = match self.mode {
                        BatchMode::PerRow => 1,
                        BatchMode::MultiRow { max_rows } => max_rows,
                    };
                    if self.buffer.len() >= size {
                        self.flush(false)
                    } else {
                        Action::Pull
                    }
                }
            },
            (Phase::TransactionOpen, Event::SourceEnd) => {
                if self.buffer.len() > 0 {
                    self.flush(true)
                } else {
                    self.phase = Phase::Committing;
                    Action::Commit
                }
            },
            (Phase::TransactionOpen, Event::DecodeFailed) => {
                self.phase = Phase::RollingBack;
                self.error = Some(IngestError::DecodeError);
                Action::Rollback
            },
            (Phase::TransactionOpen, Event::Cancel) => {
                self.phase = Phase::RollingBack;
                self.error = Some(IngestError::Cancelled);
                Action::Rollback
            },
            (Phase::RowPending, Event::RowDone) => {
                let k = self.pending;
                proof {
                    lemma_ok_count_bound(self.results@);
                    lemma_append_trues(self.results@, k as nat);
                }
                self.outcome.attempted = self.outcome.attempted + k;
                self.outcome.committed = self.outcome.committed + k;
                self.results = Ghost(self.results@ + repeat(true, k as nat));
                self.pending = 0;
                self.go_on()
            },
            (Phase::RowPending, Event::RowFailed) => {
                let k = self.pending;
                let start = self.outcome.attempted;
                let ghost failed0 = self.outcome.failed@;
                let mut extra: Vec<RowFailure> = Vec::new();
                let mut i: usize = 0;
                assert(extra@ =~= failures_from(start as nat, 0, IngestError::RowExecutionFailed));
                while i < k
                    invariant
                        0 <= i <= k,
                        start as nat + k as nat <= usize::MAX,
                        extra@ == failures_from(start as nat, i as nat, IngestError::RowExecutionFailed),
                    decreases k - i,
                {
                    extra.push(RowFailure { row: start + i, error: IngestError::RowExecutionFailed });
                    assert(extra@ =~= failures_from(
                        start as nat,
                        (i + 1) as nat,
                        IngestError::RowExecutionFailed,
                    ));
                    i = i + 1;
                }
                self.outcome.failed.append(&mut extra);
                proof {
                    lemma_append_falses(self.results@, k as nat);
                    let fr = failures_from(start as nat, k as nat, IngestError::RowExecutionFailed);
                    assert(self.results@.len() == start);
                    assert(failure_rows(failed0 + fr) =~= failure_rows(failed0) + Seq::new(
                        k as nat,
                        |j: int| self.results@.len() + j,
                    ));
                }
                self.outcome.attempted = start + k;
                self.results = Ghost(self.results@ + repeat(false, k as nat));
                self.pending = 0;
                match self.policy {
                    FailPolicy::BestEffort => self.go_on(),
                    FailPolicy::FailFast => {
                        self.phase = Phase::RollingBack;
                        self.error = Some(IngestError::RowExecutionFailed);
                        Action::Rollback
                    },
                }
            },
            (Phase::Committing, Event::Committed) => {
                self.phase = Phase::Closed;
                Action::Finish
            },
            (Phase::Committing, Event::CommitFailed) => {
                self.phase = Phase::Closed;
                self.error = Some(IngestError::CommitFailed);
                Action::Finish
            },
            (Phase::RollingBack, Event::RolledBack) => {
                self.phase = Phase::Closed;
                Action::Finish
            },
            (Phase::RollingBack, Event::RollbackFailed) => {
                self.phase = Phase::Closed;
                self.error = Some(IngestError::RollbackFailed);
                Action::Finish
            },
            _ => Action::Ignore,
        }
    }

    /// The result of the ingestion: the error that ended it, or its outcome.
    pub fn into_result(self) -> (r: Result<IngestionOutcome, IngestError>)
        ensures
            match self@.error {
                Some(e) => r == Err::<IngestionOutcome, IngestError>(e),
                None => r matches Ok(o) && o.attempted == self@.attempted && o.committed
                    == self@.committed && o.failed@ == self@.failed,
            },
    {
        match self.error {
            Some(e) => Err(e),
            None => Ok(self.outcome),
        }
    }
}

/// Over the per-row results of a run, the rows that executed and the rows
/// that failed add up to the rows attempted, and an index is among the failed
/// ones exactly when its row did not execute.
pub proof fn lemma_results_accounting(s: Seq<bool>)
    ensures
        ok_count(s) + failed_indices(s).len() == s.len(),
        forall|i: int|
            #![trigger failed_indices(s).contains(i)]
            #![trigger s[i]]
            failed_indices(s).contains(i) <==> (0 <= i < s.len() && !s[i]),
    decreases s.len(),
{
    if s.len() > 0 {
        let d = s.drop_last();
        lemma_results_accounting(d);
        assert forall|i: int|
            #![trigger failed_indices(s).contains(i)]
            #![trigger s[i]]
            failed_indices(s).contains(i) <==> (0 <= i < s.len() && !s[i]) by {
            assert(failed_indices(d).contains(i) <==> (0 <= i < d.len() && !d[i]));
            if 0 <= i < s.len() - 1 {
                assert(d[i] == s[i]);
            }
            if s.last() {
                assert(failed_indices(s) == failed_indices(d));
            } else {
                assert(failed_indices(s) == failed_indices(d).push(s.len() - 1));
                if failed_indices(s).contains(i) && i != s.len() - 1 {
                    let k = choose|k: int| 0 <= k < failed_indices(s).len() && failed_indices(s)[k] == i;
                    assert(failed_indices(d)[k] == i);
                }
                if i == s.len() - 1 {
                    assert(failed_indices(s)[failed_indices(d).len() as int] == i);
                }
                if failed_indices(d).contains(i) {
                    let k = choose|k: int| 0 <= k < failed_indices(d).len() && failed_indices(d)[k] == i;
                    assert(failed_indices(s)[k] == i);
                }
            }
        }
    }
}

/// Every run that ends without error accounts for each attempted row once:
/// the rows committed and the rows failed add up to the rows attempted, and
/// the rows that executed (and so are committed with the transaction) are
/// exactly those whose index is not among the failed rows.
pub proof fn lemma_outcome_accounting(m: LoaderModel)
    requires
        model_wf(m),
        m.error is None,
    ensures
        m.committed + m.failed.len() == m.attempted,
        forall|i: int|
            0 <= i < m.attempted ==> (m.results[i] <==> !failure_rows(m.failed).contains(i)),
        forall|i: int| failure_rows(m.failed).contains(i) ==> 0 <= i < m.attempted,
{
    lemma_results_accounting(m.results);
}

/// Under `FailFast` the batch is all or nothing: a commit is asked for only
/// when every record taken from the source has executed, and a statement
/// that fails leads to a rollback.
pub proof fn lemma_fail_fast_all_or_nothing(pre: LoaderModel, ev: Event, post: LoaderModel, act: Action)
    requires
        model_wf(pre),
        model_wf(post),
        pre.policy == FailPolicy::FailFast,
        step_spec(pre, ev, post, act),
    ensures
        act is Commit ==> {
            &&& post.buffer.len() == 0
            &&& post.pending == 0
            &&& post.committed == post.attempted
            &&& forall|i: int| 0 <= i < post.attempted ==> post.results[i]
        },
        ev is RowFailed && pre.phase == Phase::RowPending ==> act is Rollback && post.phase
            == Phase::RollingBack,
{
    lemma_results_accounting(post.results);
    if act is Commit {
        assert(post.error is None);
        assert forall|i: int| 0 <= i < post.attempted implies post.results[i] by {
            if !post.results[i] {
                assert(failed_indices(post.results).contains(i));
            }
        }
    }
}

/// Every record taken from the source has been handed out and executed.
pub open spec fn all_taken_executed(m: LoaderModel) -> bool {
    &&& m.buffer.len() == 0
    &&& m.pending == 0
    &&& m.committed == m.attempted
    &&& forall|i: int| 0 <= i < m.attempted ==> m.results[i]
}

/// The phases from which a run cannot reach a commit, or a rollback.
pub open spec fn settled_phase(p: Phase, committing: bool) -> bool {
    p == Phase::Closed || (committing && p == Phase::Committing) || (!committing && p
        == Phase::RollingBack)
}

proof fn lemma_run_stays_settled(
    ms: Seq<LoaderModel>,
    evs: Seq<Event>,
    acts: Seq<Action>,
    a: int,
    b: int,
    committing: bool,
)
    requires
        ms.len() == evs.len() + 1,
        acts.len() == evs.len(),
        forall|k: int|
            0 <= k < evs.len() ==> step_spec(#[trigger] ms[k], evs[k], ms[k + 1], acts[k]),
        0 <= a <= b < ms.len(),
        settled_phase(ms[a].phase, committing),
    ensures
        settled_phase(ms[b].phase, committing),
    decreases b - a,
{
    if a < b {
        lemma_run_stays_settled(ms, evs, acts, a, b - 1, committing);
        assert(step_spec(ms[b - 1], evs[b - 1], ms[b], acts[b - 1]));
    }
}

proof fn lemma_run_keeps_policy(ms: Seq<LoaderModel>, evs: Seq<Event>, acts: Seq<Action>, b: int)
    requires
        ms.len() == evs.len() + 1,
        acts.len() == evs.len(),
        forall|k: int|
            0 <= k < evs.len() ==> step_spec(#[trigger] ms[k], evs[k], ms[k + 1], acts[k]),
        0 <= b < ms.len(),
    ensures
        ms[b].policy == ms[0].policy,
    decreases b,
{
    if b > 0 {
        lemma_run_keeps_policy(ms, evs, acts, b - 1);
        assert(step_spec(ms[b - 1], evs[b - 1], ms[b], acts[b - 1]));
    }
}

/// Over a whole run under `FailFast` (the states `ms`, each event `evs[k]`
/// taking `ms[k]` to `ms[k + 1]` with the action `acts[k]`), the batch is
/// all or nothing: a commit is asked for only when every record taken from
/// the source has executed, and no run asks both for a commit and for a
/// rollback.
pub proof fn lemma_fail_fast_run(ms: Seq<LoaderModel>, evs: Seq<Event>, acts: Seq<Action>)
    requires
        ms.len() == evs.len() + 1,
        acts.len() == evs.len(),
        ms[0].policy == FailPolicy::FailFast,
        forall|k: int| 0 <= k < ms.len() ==> model_wf(#[trigger] ms[k]),
        forall|k: int|
            0 <= k < evs.len() ==> step_spec(#[trigger] ms[k], evs[k], ms[k + 1], acts[k]),
    ensures
        forall|k: int|
            0 <= k < acts.len() && (#[trigger] acts[k]) is Commit ==> all_taken_executed(ms[k + 1]),
        forall|i: int, j: int|
            0 <= i < acts.len() && 0 <= j < acts.len() && (#[trigger] acts[i]) is Commit ==> !(
            #[trigger] acts[j] is Rollback),
{
    assert forall|k: int| 0 <= k < acts.len() && (#[trigger] acts[k]) is Commit implies all_taken_executed(ms[k + 1]) by {
        lemma_run_keeps_policy(ms, evs, acts, k);
        assert(model_wf(ms[k]) && model_wf(ms[k + 1]));
        assert(step_spec(ms[k], evs[k], ms[k + 1], acts[k]));
        lemma_fail_fast_all_or_nothing(ms[k], evs[k], ms[k + 1], acts[k]);
    }
    assert forall|i: int, j: int|
        0 <= i < acts.len() && 0 <= j < acts.len() && (#[trigger] acts[i]) is Commit implies !(
        #[trigger] acts[j] is Rollback) by {
        assert(step_spec(ms[i], evs[i], ms[i + 1], acts[i]));
        assert(step_spec(ms[j], evs[j], ms[j + 1], acts[j]));
        if acts[j] is Rollback {
            assert(ms[i + 1].phase == Phase::Committing);
            assert(ms[j + 1].phase == Phase::RollingBack);
            assert(ms[i].phase == Phase::TransactionOpen || ms[i].phase == Phase::RowPending);
            assert(ms[j].phase == Phase::TransactionOpen || ms[j].phase == Phase::RowPending);
            if i < j {
                lemma_run_stays_settled(ms, evs, acts, i + 1, j, true);
            } else {
                lemma_run_stays_settled(ms, evs, acts, j + 1, i, false);
            }
        }
    }
}

/// An empty source is no error: begun, then exhausted at once, then
/// committed, the loader is closed with nothing attempted, committed or
/// failed.
pub proof fn lemma_empty_source(
    table: Seq<char>,
    columns: Seq<Seq<char>>,
    policy: FailPolicy,
    mode: BatchMode,
    m1: LoaderModel,
    a1: Action,
    m2: LoaderModel,
    a2: Action,
    m3: LoaderModel,
    a3: Action,
)
    requires
        step_spec(LoaderModel::initial(table, columns, policy, mode), Event::Begun, m1, a1),
        step_spec(m1, Event::SourceEnd, m2, a2),
        step_spec(m2, Event::Committed, m3, a3),
    ensures
        a1 is Pull,
        a2 is Commit,
        a3 is Finish,
        m3.phase == Phase::Closed,
        m3.error is None,
        m3.attempted == 0,
        m3.committed == 0,
        m3.failed.len() == 0,
{
}

/// Row by row, a record that has a value for every column of the loader,
/// and only for those, is handed to the gateway value for value: the
/// statement binds at each column's placeholder the record's own value, tag
/// and all, and binds every field of the record.
pub proof fn lemma_full_record_bound(pre: LoaderModel, rec: Record, post: LoaderModel, act: Action)
    requires
        pre.phase == Phase::TransactionOpen,
        pre.mode == BatchMode::PerRow,
        pre.buffer.len() == 0,
        rec.wf(),
        keys_within(rec@, pre.columns),
        forall|i: int| 0 <= i < pre.columns.len() ==> has_key(rec@, #[trigger] pre.columns[i]),
        step_spec(pre, Event::Next(rec), post, act),
    ensures
        act matches Action::Execute(st) && values_of(st.params@) == row_params(rec@, pre.columns),
        forall|i: int|
            0 <= i < pre.columns.len() ==> lookup(rec@, pre.columns[i]) == Some(
                #[trigger] row_params(rec@, pre.columns)[i],
            ),
        forall|j: int| 0 <= j < rec@.len() ==> #[trigger] field_bound(rec@, pre.columns, j),
{
    lemma_full_row_round_trip(rec@, pre.columns);
    let rows = seq![rec@];
    assert(pre.buffer.push(rec@) =~= rows);
    assert(rows.drop_last() =~= Seq::<RecordModel>::empty());
    assert(batch_params(rows.drop_last(), pre.columns) =~= Seq::<ValueModel>::empty());
    assert(batch_params(rows, pre.columns) =~= row_params(rec@, pre.columns));
}

} // verus!
