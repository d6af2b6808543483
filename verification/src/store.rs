//! The table of results under the upsert rule: one row for each pair of
//! execution and test name, a counter of how often the pair was ingested, and
//! the payload that came last.
//!
//! The service keeps its results in the embedded store and changes them with
//! the three statements that this module writes: the upsert, the status
//! update and the sweep. `ResultTable` is a model of that table in memory: it
//! says what each statement is meant to leave behind, and the laws of the
//! upsert rule are proved of it. No statement is run here.

use crate::models::{CreateTestResult, PayloadView, RowView, Status, TestResult};
use crate::text::opt_text;
use crate::seqs::{first_index, lemma_first_index, lemma_first_index_is};
use crate::text::copy_opt;
use vstd::prelude::*;

verus! {

/// Whether a row is the one for the test `name` of the execution
/// `execution_id`.
pub open spec fn has_key(execution_id: i64, name: Seq<char>) -> spec_fn(RowView) -> bool {
    |row: RowView| row.payload.execution_id == execution_id && row.payload.name == name
}

/// The index of the row for a key, or the number of rows where there is none.
pub open spec fn position(rows: Seq<RowView>, execution_id: i64, name: Seq<char>) -> int {
    first_index(rows, has_key(execution_id, name))
}

/// Whether a row has the id `id`.
pub open spec fn has_id(id: i64) -> spec_fn(RowView) -> bool {
    |row: RowView| row.id == Some(id)
}

/// The index of the first row with an id, or the number of rows where there
/// is none.
pub open spec fn position_of_id(rows: Seq<RowView>, id: i64) -> int {
    first_index(rows, has_id(id))
}

/// `row` with another status and all else as it is.
pub open spec fn with_status(row: RowView, status: Status) -> RowView {
    RowView {
        id: row.id,
        counter: row.counter,
        payload: PayloadView {
            execution_id: row.payload.execution_id,
            name: row.payload.name,
            platform: row.payload.platform,
            description: row.payload.description,
            status,
            execution_time: row.payload.execution_time,
            log: row.payload.log,
            screenshot_id: row.payload.screenshot_id,
            created_by: row.payload.created_by,
            time_created: row.payload.time_created,
        },
    }
}

/// One value bound to a placeholder of a statement.
#[derive(Debug)]
pub enum Binding {
    Integer(i64),
    Text(String),
    Null,
}

/// A bound value, as a mathematical value.
pub enum BindingView {
    Integer(i64),
    Text(Seq<char>),
    Null,
}

impl View for Binding {
    type V = BindingView;

    open spec fn view(&self) -> BindingView {
        match self {
            Binding::Integer(i) => BindingView::Integer(*i),
            Binding::Text(t) => BindingView::Text(t@),
            Binding::Null => BindingView::Null,
        }
    }
}

/// A statement against the store: its text, and the values bound to its
/// placeholders, in order.
#[derive(Debug)]
pub struct Statement {
    pub text: String,
    pub bindings: Vec<Binding>,
}

/// The bound values of a statement, as mathematical values.
pub open spec fn binding_views(bindings: Seq<Binding>) -> Seq<BindingView> {
    bindings.map_values(|b: Binding| b@)
}

/// An optional text as a bound value.
pub open spec fn text_or_null(text: Option<Seq<char>>) -> BindingView {
    match text {
        Some(t) => BindingView::Text(t),
        None => BindingView::Null,
    }
}

/// An optional number as a bound value.
pub open spec fn integer_or_null(number: Option<i64>) -> BindingView {
    match number {
        Some(n) => BindingView::Integer(n),
        None => BindingView::Null,
    }
}

/// The text of the upsert: a new row under the key with a counter of one, or,
/// where the key has a row, every column from the payload and the counter one
/// higher.
pub open spec fn upsert_text() -> Seq<char> {
    "INSERT INTO test_result (execution_id, name, platform, description, status, execution_time, counter, log, screenshot_id, created_by, time_created) VALUES (?, ?, ?, ?, ?, ?, 1, ?, ?, ?, ?) ON CONFLICT(execution_id, name) DO UPDATE SET platform = excluded.platform, description = excluded.description, status = excluded.status, execution_time = excluded.execution_time, counter = test_result.counter + 1, log = excluded.log, screenshot_id = excluded.screenshot_id, created_by = excluded.created_by, time_created = excluded.time_created"@
}

/// The values of the upsert, in the order of its placeholders.
pub open spec fn upsert_bindings(payload: PayloadView) -> Seq<BindingView> {
    seq![
        BindingView::Integer(payload.execution_id),
        BindingView::Text(payload.name),
        BindingView::Text(payload.platform),
        text_or_null(payload.description),
        BindingView::Text(payload.status.token()),
        integer_or_null(payload.execution_time),
        text_or_null(payload.log),
        integer_or_null(payload.screenshot_id),
        text_or_null(payload.created_by),
        BindingView::Integer(payload.time_created),
    ]
}

/// An optional text as a bound value.
fn bind_text(text: &Option<String>) -> (r: Binding)
    ensures
        r@ == text_or_null(opt_text(*text)),
{
    match text {
        Some(t) => Binding::Text(t.clone()),
        None => Binding::Null,
    }
}

/// An optional number as a bound value.
fn bind_integer(number: Option<i64>) -> (r: Binding)
    ensures
        r@ == integer_or_null(number),
{
    match number {
        Some(n) => Binding::Integer(n),
        None => Binding::Null,
    }
}

/// The statement that upserts one payload under its key.
pub fn upsert_statement(payload: &CreateTestResult) -> (r: Statement)
    ensures
        r.text@ == upsert_text(),
        binding_views(r.bindings@) == upsert_bindings(payload@),
{
    let mut bindings: Vec<Binding> = Vec::new();
    bindings.push(Binding::Integer(payload.execution_id));
    bindings.push(Binding::Text(payload.base.name.clone()));
    bindings.push(Binding::Text(payload.base.platform.clone()));
    bindings.push(bind_text(&payload.base.description));
    bindings.push(Binding::Text(payload.base.status.as_str().to_owned()));
    bindings.push(bind_integer(payload.base.execution_time));
    bindings.push(bind_text(&payload.base.log));
    bindings.push(bind_integer(payload.base.screenshot_id));
    bindings.push(bind_text(&payload.base.created_by));
    bindings.push(Binding::Integer(payload.base.time_created));
    assert(binding_views(bindings@) =~= upsert_bindings(payload@));
    Statement {
        text: "INSERT INTO test_result (execution_id, name, platform, description, status, execution_time, counter, log, screenshot_id, created_by, time_created) VALUES (?, ?, ?, ?, ?, ?, 1, ?, ?, ?, ?) ON CONFLICT(execution_id, name) DO UPDATE SET platform = excluded.platform, description = excluded.description, status = excluded.status, execution_time = excluded.execution_time, counter = test_result.counter + 1, log = excluded.log, screenshot_id = excluded.screenshot_id, created_by = excluded.created_by, time_created = excluded.time_created".to_owned(),
        bindings,
    }
}

/// The statement that sets the status of the result with the id `id` and
/// gives the row back.
pub fn status_statement(id: i64, status: Status) -> (r: Statement)
    ensures
        r.text@ == "UPDATE test_result SET status = ? WHERE id = ? RETURNING *"@,
        binding_views(r.bindings@) == seq![
            BindingView::Text(status.token()),
            BindingView::Integer(id),
        ],
{
    let mut bindings: Vec<Binding> = Vec::new();
    bindings.push(Binding::Text(status.as_str().to_owned()));
    bindings.push(Binding::Integer(id));
    assert(binding_views(bindings@) =~= seq![
        BindingView::Text(status.token()),
        BindingView::Integer(id),
    ]);
    Statement {
        text: "UPDATE test_result SET status = ? WHERE id = ? RETURNING *".to_owned(),
        bindings,
    }
}

/// The statement of a sweep: it deletes the results created before `cutoff`.
pub fn sweep_statement(cutoff: i64) -> (r: Statement)
    ensures
        r.text@ == "DELETE FROM test_result WHERE time_created < ?"@,
        binding_views(r.bindings@) == seq![BindingView::Integer(cutoff)],
{
    let mut bindings: Vec<Binding> = Vec::new();
    bindings.push(Binding::Integer(cutoff));
    assert(binding_views(bindings@) =~= seq![BindingView::Integer(cutoff)]);
    Statement { text: "DELETE FROM test_result WHERE time_created < ?".to_owned(), bindings }
}

/// Whether no two rows share a key.
pub open spec fn distinct_keys(rows: Seq<RowView>) -> bool {
    forall|i: int, j: int|
        0 <= i < j < rows.len() ==> !(#[trigger] rows[i].payload.execution_id
            == #[trigger] rows[j].payload.execution_id && rows[i].payload.name
            == rows[j].payload.name)
}

/// Whether every row has been ingested at least once.
pub open spec fn counted(rows: Seq<RowView>) -> bool {
    forall|i: int| 0 <= i < rows.len() ==> (#[trigger] rows[i]).counter >= 1
}

/// Whether a table is in order: no two rows share a key, and every counter
/// is at least one.
pub open spec fn table_wf(rows: Seq<RowView>) -> bool {
    distinct_keys(rows) && counted(rows)
}

/// A counter or an id after one more: the next number, and the largest where
/// there is no next.
pub open spec fn bumped(n: i64) -> i64 {
    if n < i64::MAX {
        (n + 1) as i64
    } else {
        n
    }
}

/// What a table holds: its rows in the order in which their keys first came,
/// and the id of the next new row.
pub struct TableView {
    pub rows: Seq<RowView>,
    pub next_id: i64,
}

/// The table after one upsert. Where the key has a row, the row keeps its id
/// and place, takes every column of the payload, and counts one more; where
/// it has none, a new row follows the others, with the next id and a counter
/// of one.
pub open spec fn upserted(table: TableView, payload: PayloadView) -> TableView {
    let at = position(table.rows, payload.execution_id, payload.name);
    if 0 <= at < table.rows.len() {
        TableView {
            rows: table.rows.update(
                at,
                RowView { id: table.rows[at].id, counter: bumped(table.rows[at].counter), payload },
            ),
            next_id: table.next_id,
        }
    } else {
        TableView {
            rows: table.rows.push(RowView { id: Some(table.next_id), counter: 1, payload }),
            next_id: bumped(table.next_id),
        }
    }
}

/// The table after a batch: one upsert for each item, in the order of the
/// batch.
pub open spec fn flushed(table: TableView, batch: Seq<PayloadView>) -> TableView
    decreases batch.len(),
{
    if batch.len() == 0 {
        table
    } else {
        upserted(flushed(table, batch.drop_last()), batch.last())
    }
}

/// The payloads of a batch, as mathematical values.
pub open spec fn payload_views(batch: Seq<CreateTestResult>) -> Seq<PayloadView> {
    batch.map_values(|p: CreateTestResult| p@)
}

/// The rows of a table, as mathematical values.
pub open spec fn row_views(rows: Seq<TestResult>) -> Seq<RowView> {
    rows.map_values(|r: TestResult| r@)
}

/// The rows that a sweep with the given cutoff leaves: those created at or
/// after it, in their order.
pub open spec fn swept(rows: Seq<RowView>, cutoff: i64) -> Seq<RowView>
    decreases rows.len(),
{
    if rows.len() == 0 {
        rows
    } else {
        let earlier = swept(rows.drop_last(), cutoff);
        if rows.last().payload.time_created < cutoff {
            earlier
        } else {
            earlier.push(rows.last())
        }
    }
}

/// A table of results in memory.
#[derive(Debug)]
pub struct ResultTable {
    rows: Vec<TestResult>,
    next_id: i64,
}

impl View for ResultTable {
    type V = TableView;

    closed spec fn view(&self) -> TableView {
        TableView { rows: row_views(self.rows@), next_id: self.next_id }
    }
}

/// The row that holds `payload` with the given id and counter.
fn row_for(payload: &CreateTestResult, id: Option<i64>, counter: i64) -> (r: TestResult)
    ensures
        r@ == (RowView { id, counter, payload: payload@ }),
{
    TestResult {
        id,
        execution_id: payload.execution_id,
        name: payload.base.name.clone(),
        platform: payload.base.platform.clone(),
        description: copy_opt(&payload.base.description),
        status: payload.base.status,
        execution_time: payload.base.execution_time,
        counter,
        log: copy_opt(&payload.base.log),
        screenshot_id: payload.base.screenshot_id,
        created_by: copy_opt(&payload.base.created_by),
        time_created: payload.base.time_created,
    }
}

impl ResultTable {
    /// No two rows share a key, and every counter is at least one.
    pub open spec fn wf(&self) -> bool {
        table_wf(self@.rows)
    }

    /// A table without rows; its first row will have the id one.
    pub fn new() -> (r: Self)
        ensures
            r.wf(),
            r@.rows == Seq::<RowView>::empty(),
            r@.next_id == 1,
    {
        let r = ResultTable { rows: Vec::new(), next_id: 1 };
        assert(r@.rows =~= Seq::empty());
        r
    }

    /// The number of rows.
    pub fn len(&self) -> (r: usize)
        ensures
            r == self@.rows.len(),
    {
        self.rows.len()
    }

    /// The index of the row for a key, or the number of rows.
    fn index_of(&self, execution_id: i64, name: &str) -> (r: usize)
        ensures
            r == position(self@.rows, execution_id, name@),
            r <= self.rows@.len(),
    {
        let ghost hit = has_key(execution_id, name@);
        let mut i: usize = 0;
        while i < self.rows.len()
            invariant
                i <= self.rows@.len(),
                hit == has_key(execution_id, name@),
                forall|j: int| 0 <= j < i ==> !hit(#[trigger] self@.rows[j]),
            decreases self.rows.len() - i,
        {
            if self.rows[i].execution_id == execution_id && crate::text::same_text(
                self.rows[i].name.as_str(),
                name,
            ) {
                proof {
                    assert(hit(self@.rows[i as int]));
                    lemma_first_index_is(self@.rows, hit, i as int);
                }
                return i;
            }
            assert(!hit(self@.rows[i as int]));
            i = i + 1;
        }
        proof {
            lemma_first_index_is(self@.rows, hit, i as int);
        }
        i
    }

    /// The row of the test `name` of the execution `execution_id`, if there
    /// is one.
    pub fn find(&self, execution_id: i64, name: &str) -> (r: Option<&TestResult>)
        ensures
            match r {
                Some(row) => {
                    let at = position(self@.rows, execution_id, name@);
                    0 <= at < self@.rows.len() && row@ == self@.rows[at]
                },
                None => position(self@.rows, execution_id, name@) == self@.rows.len(),
            },
    {
        let at = self.index_of(execution_id, name);
        if at < self.rows.len() {
            Some(&self.rows[at])
        } else {
            None
        }
    }

    /// The index of the first row with an id, or the number of rows.
    fn index_of_id(&self, id: i64) -> (r: usize)
        ensures
            r == position_of_id(self@.rows, id),
            r <= self.rows@.len(),
    {
        let ghost hit = has_id(id);
        let mut i: usize = 0;
        while i < self.rows.len()
            invariant
                i <= self.rows@.len(),
                hit == has_id(id),
                forall|j: int| 0 <= j < i ==> !hit(#[trigger] self@.rows[j]),
            decreases self.rows.len() - i,
        {
            let found = match self.rows[i].id {
                Some(other) => other == id,
                None => false,
            };
            if found {
                proof {
                    assert(hit(self@.rows[i as int]));
                    lemma_first_index_is(self@.rows, hit, i as int);
                }
                return i;
            }
            assert(!hit(self@.rows[i as int]));
            i = i + 1;
        }
        proof {
            lemma_first_index_is(self@.rows, hit, i as int);
        }
        i
    }

    /// The row with the id `id`, if there is one.
    pub fn get(&self, id: i64) -> (r: Option<&TestResult>)
        ensures
            match r {
                Some(row) => {
                    let at = position_of_id(self@.rows, id);
                    0 <= at < self@.rows.len() && row@ == self@.rows[at]
                },
                None => position_of_id(self@.rows, id) == self@.rows.len(),
            },
    {
        let at = self.index_of_id(id);
        if at < self.rows.len() {
            Some(&self.rows[at])
        } else {
            None
        }
    }

    /// Sets the status of the row with the id `id` and says whether there is
    /// such a row. The row keeps its key, its counter and every other column.
    pub fn update_status(&mut self, id: i64, status: Status) -> (found: bool)
        requires
            old(self).wf(),
        ensures
            final(self).wf(),
            final(self)@.next_id == old(self)@.next_id,
            found == (position_of_id(old(self)@.rows, id) < old(self)@.rows.len()),
            final(self)@.rows == if found {
                let at = position_of_id(old(self)@.rows, id);
                old(self)@.rows.update(at, with_status(old(self)@.rows[at], status))
            } else {
                old(self)@.rows
            },
    {
        let at = self.index_of_id(id);
        if at < self.rows.len() {
            let ghost before = self@.rows;
            self.rows[at].status = status;
            assert(self@.rows =~= before.update(at as int, with_status(before[at as int], status)));
            assert forall|i: int, j: int| 0 <= i < j < self@.rows.len() implies !(
            #[trigger] self@.rows[i].payload.execution_id
                == #[trigger] self@.rows[j].payload.execution_id && self@.rows[i].payload.name
                == self@.rows[j].payload.name) by {
                assert(self@.rows[i].payload.execution_id == before[i].payload.execution_id);
                assert(self@.rows[j].payload.execution_id == before[j].payload.execution_id);
                assert(self@.rows[i].payload.name == before[i].payload.name);
                assert(self@.rows[j].payload.name == before[j].payload.name);
            }
            true
        } else {
            false
        }
    }

    /// Upserts one payload under its key.
    pub fn upsert(&mut self, payload: &CreateTestResult)
        requires
            old(self).wf(),
        ensures
            final(self).wf(),
            final(self)@ == upserted(old(self)@, payload@),
    {
        let at = self.index_of(payload.execution_id, payload.base.name.as_str());
        proof {
            lemma_upsert_keeps_keys_distinct(self@, payload@);
        }
        if at < self.rows.len() {
            let counter: i64 = if self.rows[at].counter < i64::MAX {
                self.rows[at].counter + 1
            } else {
                self.rows[at].counter
            };
            let row = row_for(payload, self.rows[at].id, counter);
            self.rows.set(at, row);
            assert(self@.rows =~= upserted(old(self)@, payload@).rows);
        } else {
            let row = row_for(payload, Some(self.next_id), 1);
            self.rows.push(row);
            if self.next_id < i64::MAX {
                self.next_id = self.next_id + 1;
            }
            assert(self@.rows =~= upserted(old(self)@, payload@).rows);
        }
    }

    /// Deletes the rows created before `cutoff` and says how many they were.
    pub fn sweep(&mut self, cutoff: i64) -> (deleted: usize)
        requires
            old(self).wf(),
        ensures
            final(self).wf(),
            final(self)@.rows == swept(old(self)@.rows, cutoff),
            final(self)@.next_id == old(self)@.next_id,
            deleted == old(self)@.rows.len() - final(self)@.rows.len(),
    {
        let mut all: Vec<TestResult> = Vec::new();
        std::mem::swap(&mut self.rows, &mut all);
        let ghost stored = all@;
        let ghost before = row_views(all@);
        let total: usize = all.len();
        let mut kept: Vec<TestResult> = Vec::new();
        let mut deleted: usize = 0;
        assert(before.subrange(0, 0) =~= Seq::empty());
        assert(row_views(kept@) =~= Seq::empty());
        for row in it: all.into_iter()
            invariant
                it.seq() == stored,
                stored.len() == total,
                before == row_views(stored),
                row_views(kept@) == swept(before.subrange(0, it.index() as int), cutoff),
                deleted == it.index() - kept@.len(),
                kept@.len() <= it.index(),
        {
            let ghost i = it.index() as int;
            let ghost upto = before.subrange(0, i + 1);
            assert(upto.drop_last() =~= before.subrange(0, i));
            assert(upto.last() == before[i]);
            if row.time_created < cutoff {
                deleted = deleted + 1;
            } else {
                let ghost sofar = row_views(kept@);
                kept.push(row);
                assert(row_views(kept@) =~= sofar.push(before[i]));
            }
        }
        assert(before.subrange(0, before.len() as int) =~= before);
        self.rows = kept;
        proof {
            lemma_sweep_keeps_keys_distinct(before, cutoff);
        }
        deleted
    }

    /// Applies a batch as one flush does: an upsert for each item, in the
    /// order of the batch.
    pub fn flush(&mut self, batch: &Vec<CreateTestResult>)
        requires
            old(self).wf(),
        ensures
            final(self).wf(),
            final(self)@ == flushed(old(self)@, payload_views(batch@)),
    {
        let mut i: usize = 0;
        assert(payload_views(batch@).subrange(0, 0) =~= Seq::empty());
        while i < batch.len()
            invariant
                i <= batch.len(),
                self.wf(),
                self@ == flushed(old(self)@, payload_views(batch@).subrange(0, i as int)),
            decreases batch.len() - i,
        {
            self.upsert(&batch[i]);
            proof {
                let upto = payload_views(batch@).subrange(0, i as int + 1);
                assert(upto.drop_last() =~= payload_views(batch@).subrange(0, i as int));
                assert(upto.last() == batch@[i as int]@);
            }
            i = i + 1;
        }
        assert(payload_views(batch@).subrange(0, i as int) =~= payload_views(batch@));
    }
}

/// Uniqueness: an upsert into a table without two rows of one key leaves a
/// table without two rows of one key.
pub proof fn lemma_upsert_keeps_keys_distinct(table: TableView, payload: PayloadView)
    requires
        distinct_keys(table.rows),
    ensures
        distinct_keys(upserted(table, payload).rows),
{
    let hit = has_key(payload.execution_id, payload.name);
    lemma_first_index(table.rows, hit);
    let at = position(table.rows, payload.execution_id, payload.name);
    let after = upserted(table, payload).rows;
    assert forall|i: int, j: int| 0 <= i < j < after.len() implies !(
    #[trigger] after[i].payload.execution_id == #[trigger] after[j].payload.execution_id
        && after[i].payload.name == after[j].payload.name) by {
        if at < table.rows.len() {
            assert(hit(table.rows[at]));
            assert(after[i].payload.execution_id == table.rows[i].payload.execution_id);
            assert(after[j].payload.execution_id == table.rows[j].payload.execution_id);
            assert(after[i].payload.name == table.rows[i].payload.name);
            assert(after[j].payload.name == table.rows[j].payload.name);
        } else {
            if j == table.rows.len() {
                assert(!hit(table.rows[i]));
            } else {
                assert(after[i] == table.rows[i]);
                assert(after[j] == table.rows[j]);
            }
        }
    }
}

/// How many items of a batch carry a key.
pub open spec fn count_key(batch: Seq<PayloadView>, execution_id: i64, name: Seq<char>) -> nat
    decreases batch.len(),
{
    if batch.len() == 0 {
        0
    } else {
        count_key(batch.drop_last(), execution_id, name) + if batch.last().execution_id
            == execution_id && batch.last().name == name {
            1nat
        } else {
            0nat
        }
    }
}

/// The last item of a batch that carries a key, where one does.
pub open spec fn last_with_key(
    batch: Seq<PayloadView>,
    execution_id: i64,
    name: Seq<char>,
) -> PayloadView
    decreases batch.len(),
{
    if batch.len() == 0 {
        arbitrary()
    } else if batch.last().execution_id == execution_id && batch.last().name == name {
        batch.last()
    } else {
        last_with_key(batch.drop_last(), execution_id, name)
    }
}

/// A count as a counter holds it: the number itself, and the largest counter
/// where it is beyond that.
pub open spec fn capped(n: int) -> i64 {
    if n < i64::MAX {
        n as i64
    } else {
        i64::MAX
    }
}

/// The counter of the row for a key, and zero where the key has no row.
pub open spec fn counter_of(rows: Seq<RowView>, execution_id: i64, name: Seq<char>) -> i64 {
    let at = position(rows, execution_id, name);
    if 0 <= at < rows.len() {
        rows[at].counter
    } else {
        0
    }
}

/// Overwrite: after an upsert the row of the payload's key holds the payload,
/// column for column; its counter is one for a new row and one more than
/// before for an old one, which keeps its id. The row of any other key is as
/// it was, and a key without a row is still without.
pub proof fn lemma_upsert_row(
    table: TableView,
    payload: PayloadView,
    execution_id: i64,
    name: Seq<char>,
)
    ensures
        ({
            let after = upserted(table, payload);
            let was = position(table.rows, execution_id, name);
            let now = position(after.rows, execution_id, name);
            if payload.execution_id == execution_id && payload.name == name {
                &&& 0 <= now < after.rows.len()
                &&& after.rows[now].payload == payload
                &&& after.rows[now].counter == if 0 <= was < table.rows.len() {
                    bumped(table.rows[was].counter)
                } else {
                    1
                }
                &&& 0 <= was < table.rows.len() ==> after.rows[now].id == table.rows[was].id
            } else {
                &&& 0 <= was <= table.rows.len()
                &&& 0 <= now <= after.rows.len()
                &&& now < after.rows.len() <==> was < table.rows.len()
                &&& was < table.rows.len() ==> after.rows[now] == table.rows[was]
            }
        }),
{
    let hit = has_key(execution_id, name);
    let own = has_key(payload.execution_id, payload.name);
    lemma_first_index(table.rows, hit);
    lemma_first_index(table.rows, own);
    let after = upserted(table, payload);
    let was = position(table.rows, execution_id, name);
    let at = position(table.rows, payload.execution_id, payload.name);
    if at < table.rows.len() {
        assert(own(table.rows[at]));
        assert forall|j: int| 0 <= j < after.rows.len() implies hit(#[trigger] after.rows[j])
            == hit(table.rows[j]) by {}
        assert forall|j: int| 0 <= j < was implies !hit(#[trigger] after.rows[j]) by {
            assert(!hit(table.rows[j]));
        }
        if was < table.rows.len() {
            assert(hit(after.rows[was]) == hit(table.rows[was]));
        }
        lemma_first_index_is(after.rows, hit, was);
    } else {
        assert forall|j: int| 0 <= j < table.rows.len() implies after.rows[j]
            == table.rows[j] by {}
        if payload.execution_id == execution_id && payload.name == name {
            assert(hit == own);
            assert forall|j: int| 0 <= j < table.rows.len() implies !hit(
                #[trigger] after.rows[j],
            ) by {
                assert(!own(table.rows[j]));
            }
            assert(hit(after.rows[table.rows.len() as int]));
            lemma_first_index_is(after.rows, hit, table.rows.len() as int);
        } else {
            assert forall|j: int| 0 <= j < was implies !hit(#[trigger] after.rows[j]) by {
                assert(!hit(table.rows[j]));
            }
            if was < table.rows.len() {
                assert(hit(after.rows[was]));
                lemma_first_index_is(after.rows, hit, was);
            } else {
                assert(!hit(after.rows[table.rows.len() as int]));
                lemma_first_index_is(after.rows, hit, after.rows.len() as int);
            }
        }
    }
}

/// Uniqueness over a batch: a flush into a table without two rows of one key
/// leaves a table without two rows of one key.
pub proof fn lemma_flush_keeps_keys_distinct(table: TableView, batch: Seq<PayloadView>)
    requires
        distinct_keys(table.rows),
    ensures
        distinct_keys(flushed(table, batch).rows),
    decreases batch.len(),
{
    if batch.len() > 0 {
        lemma_flush_keeps_keys_distinct(table, batch.drop_last());
        lemma_upsert_keeps_keys_distinct(flushed(table, batch.drop_last()), batch.last());
    }
}

/// Counters stay at one or above: an upsert gives a new row the counter one
/// and raises the counter of an old one.
pub proof fn lemma_upsert_keeps_counters(table: TableView, payload: PayloadView)
    requires
        counted(table.rows),
    ensures
        counted(upserted(table, payload).rows),
{
    lemma_first_index(table.rows, has_key(payload.execution_id, payload.name));
}

/// Counters stay at one or above over a batch.
pub proof fn lemma_flush_keeps_counters(table: TableView, batch: Seq<PayloadView>)
    requires
        counted(table.rows),
    ensures
        counted(flushed(table, batch).rows),
    decreases batch.len(),
{
    if batch.len() > 0 {
        lemma_flush_keeps_counters(table, batch.drop_last());
        lemma_upsert_keeps_counters(flushed(table, batch.drop_last()), batch.last());
    }
}

/// Order: after a flush the row of a key that the batch carries holds the
/// last item of the batch with that key, and its counter has grown by the
/// number of items with that key. The row of a key that the batch does not
/// carry is as it was.
pub proof fn lemma_flush_row(
    table: TableView,
    batch: Seq<PayloadView>,
    execution_id: i64,
    name: Seq<char>,
)
    requires
        counted(table.rows),
    ensures
        ({
            let after = flushed(table, batch);
            let was = position(table.rows, execution_id, name);
            let now = position(after.rows, execution_id, name);
            let n = count_key(batch, execution_id, name);
            if n > 0 {
                &&& 0 <= now < after.rows.len()
                &&& after.rows[now].payload == last_with_key(batch, execution_id, name)
                &&& after.rows[now].counter == capped(
                    counter_of(table.rows, execution_id, name) + n,
                )
            } else {
                &&& 0 <= was <= table.rows.len()
                &&& 0 <= now <= after.rows.len()
                &&& now < after.rows.len() <==> was < table.rows.len()
                &&& was < table.rows.len() ==> after.rows[now] == table.rows[was]
            }
        }),
    decreases batch.len(),
{
    lemma_first_index(table.rows, has_key(execution_id, name));
    if batch.len() > 0 {
        let earlier = flushed(table, batch.drop_last());
        lemma_flush_keeps_counters(table, batch.drop_last());
        lemma_flush_row(table, batch.drop_last(), execution_id, name);
        lemma_upsert_row(earlier, batch.last(), execution_id, name);
        lemma_first_index(earlier.rows, has_key(execution_id, name));
    }
}

/// Counting: where every item of a batch carries the same key and the table
/// was empty, the table ends with one row, which holds the last item and
/// whose counter is the number of items, for a batch of any length that a
/// counter can hold.
pub proof fn lemma_counter_counts_acceptances(
    next_id: i64,
    batch: Seq<PayloadView>,
    execution_id: i64,
    name: Seq<char>,
)
    requires
        0 < batch.len(),
        forall|i: int|
            0 <= i < batch.len() ==> (#[trigger] batch[i]).execution_id == execution_id
                && batch[i].name == name,
    ensures
        ({
            let after = flushed(TableView { rows: Seq::empty(), next_id }, batch);
            &&& after.rows.len() == 1
            &&& after.rows[0].counter == capped(batch.len() as int)
            &&& batch.len() <= i64::MAX ==> after.rows[0].counter == batch.len()
            &&& after.rows[0].payload == batch.last()
            &&& after.rows[0].id == Some(next_id)
        }),
    decreases batch.len(),
{
    let empty = TableView { rows: Seq::<RowView>::empty(), next_id };
    let hit = has_key(execution_id, name);
    let earlier = flushed(empty, batch.drop_last());
    if batch.len() == 1 {
        assert(batch.drop_last().len() == 0);
        assert(earlier == empty);
        lemma_first_index(empty.rows, hit);
    } else {
        assert forall|i: int| 0 <= i < batch.drop_last().len() implies (
        #[trigger] batch.drop_last()[i]).execution_id == execution_id && batch.drop_last()[i].name
            == name by {
            assert(batch.drop_last()[i] == batch[i]);
        }
        lemma_counter_counts_acceptances(next_id, batch.drop_last(), execution_id, name);
        assert(hit(earlier.rows[0]));
        lemma_first_index_is(earlier.rows, hit, 0);
    }
}

/// Batching does not matter: two flushes one after the other leave the table
/// that one flush of both batches, in that order, leaves.
pub proof fn lemma_flush_in_parts(table: TableView, first: Seq<PayloadView>, second: Seq<PayloadView>)
    ensures
        flushed(flushed(table, first), second) == flushed(table, first + second),
    decreases second.len(),
{
    if second.len() == 0 {
        assert(first + second =~= first);
    } else {
        lemma_flush_in_parts(table, first, second.drop_last());
        assert((first + second).drop_last() =~= first + second.drop_last());
        assert((first + second).last() == second.last());
    }
}

/// A sweep leaves only rows that were there, none of them created before the
/// cutoff, and no two of one key where there were none before.
pub proof fn lemma_sweep_keeps_keys_distinct(rows: Seq<RowView>, cutoff: i64)
    requires
        distinct_keys(rows),
    ensures
        distinct_keys(swept(rows, cutoff)),
        swept(rows, cutoff).len() <= rows.len(),
        forall|i: int|
            0 <= i < swept(rows, cutoff).len() ==> rows.contains(#[trigger] swept(rows, cutoff)[i])
                && swept(rows, cutoff)[i].payload.time_created >= cutoff,
    decreases rows.len(),
{
    if rows.len() > 0 {
        let init = rows.drop_last();
        let last = rows.last();
        assert forall|i: int, j: int| 0 <= i < j < init.len() implies !(
        #[trigger] init[i].payload.execution_id == #[trigger] init[j].payload.execution_id
            && init[i].payload.name == init[j].payload.name) by {
            assert(init[i] == rows[i]);
            assert(init[j] == rows[j]);
        }
        lemma_sweep_keeps_keys_distinct(init, cutoff);
        let earlier = swept(init, cutoff);
        let after = swept(rows, cutoff);
        assert forall|i: int| 0 <= i < after.len() implies rows.contains(#[trigger] after[i])
            && after[i].payload.time_created >= cutoff by {
            if i < earlier.len() {
                assert(after[i] == earlier[i]);
                assert(init.contains(earlier[i]));
                let k = choose|k: int| 0 <= k < init.len() && init[k] == earlier[i];
                assert(rows[k] == after[i]);
            } else {
                assert(after[i] == last);
                assert(rows[rows.len() - 1] == last);
            }
        }
        assert forall|i: int, j: int| 0 <= i < j < after.len() implies !(
        #[trigger] after[i].payload.execution_id == #[trigger] after[j].payload.execution_id
            && after[i].payload.name == after[j].payload.name) by {
            if j < earlier.len() {
                assert(after[i] == earlier[i]);
                assert(after[j] == earlier[j]);
            } else {
                assert(after[j] == last);
                assert(after[i] == earlier[i]);
                assert(init.contains(earlier[i]));
                let k = choose|k: int| 0 <= k < init.len() && init[k] == earlier[i];
                assert(rows[k] == earlier[i]);
                assert(rows[rows.len() - 1] == last);
            }
        }
    }
}

/// A sweep whose cutoff no row has reached leaves the table empty.
pub proof fn lemma_sweep_deletes_older_rows(rows: Seq<RowView>, cutoff: i64)
    requires
        forall|i: int| 0 <= i < rows.len() ==> (#[trigger] rows[i]).payload.time_created < cutoff,
    ensures
        swept(rows, cutoff) == Seq::<RowView>::empty(),
    decreases rows.len(),
{
    if rows.len() > 0 {
        assert forall|i: int| 0 <= i < rows.drop_last().len() implies (
        #[trigger] rows.drop_last()[i]).payload.time_created < cutoff by {
            assert(rows.drop_last()[i] == rows[i]);
        }
        lemma_sweep_deletes_older_rows(rows.drop_last(), cutoff);
    }
}

} // verus!
