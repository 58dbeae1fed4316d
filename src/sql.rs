use vstd::prelude::*;
use vstd::string::StringExecFns;
use crate::value::{
    Value, ValueModel, Record, RecordModel, value_or_null, lookup, has_key, record_wf,
    lemma_lookup_at, lemma_lookup_found,
};
use crate::schema::keys_within;
use crate::ident::{valid_identifier, all_valid_identifiers};

verus! {

/// The models of a sequence of strings.
pub open spec fn names_of(v: Seq<String>) -> Seq<Seq<char>> {
    v.map_values(|s: String| s@)
}

/// The models of a sequence of values.
pub open spec fn values_of(v: Seq<Value>) -> Seq<ValueModel> {
    v.map_values(|x: Value| x@)
}

/// The models of a sequence of records.
pub open spec fn records_of(v: Seq<Record>) -> Seq<RecordModel> {
    v.map_values(|r: Record| r@)
}

/// The items of `s` separated by commas.
pub open spec fn join_commas(s: Seq<Seq<char>>) -> Seq<char>
    decreases s.len(),
{
    if s.len() == 0 {
        Seq::empty()
    } else if s.len() == 1 {
        s[0]
    } else {
        join_commas(s.drop_last()) + ","@ + s.last()
    }
}

/// `(?,?,...)` with `n` placeholders.
pub open spec fn row_placeholders(n: nat) -> Seq<char> {
    "("@ + join_commas(Seq::new(n, |i: int| "?"@)) + ")"@
}

/// The text of an INSERT of `nrows` rows of the columns `cols` into `table`.
pub open spec fn insert_sql(table: Seq<char>, cols: Seq<Seq<char>>, nrows: nat) -> Seq<char> {
    "INSERT INTO "@ + table + " ("@ + join_commas(cols) + ") VALUES "@ + join_commas(
        Seq::new(nrows, |i: int| row_placeholders(cols.len())),
    )
}

/// The values bound for one row: per column, the row's value or Null.
pub open spec fn row_params(row: RecordModel, cols: Seq<Seq<char>>) -> Seq<ValueModel> {
    Seq::new(cols.len(), |i: int| value_or_null(row, cols[i]))
}

/// The values bound for several rows, row after row.
pub open spec fn batch_params(rows: Seq<RecordModel>, cols: Seq<Seq<char>>) -> Seq<ValueModel>
    decreases rows.len(),
{
    if rows.len() == 0 {
        Seq::empty()
    } else {
        batch_params(rows.drop_last(), cols) + row_params(rows.last(), cols)
    }
}

/// SQL text and the values bound to its placeholders, in placeholder order.
#[derive(Debug)]
pub struct InsertStatement {
    pub sql: String,
    pub params: Vec<Value>,
}

impl InsertStatement {
    /// This statement inserts the rows `rows` into `table` with the columns
    /// `cols`, in one statement.
    pub open spec fn inserts(
        &self,
        table: Seq<char>,
        cols: Seq<Seq<char>>,
        rows: Seq<RecordModel>,
    ) -> bool {
        &&& self.sql@ == insert_sql(table, cols, rows.len())
        &&& values_of(self.params@) == batch_params(rows, cols)
    }
}

/// How a batch of rows is turned into statements.
#[derive(Debug, Clone, Copy, PartialEq, Eq, Structural)]
pub enum BatchMode {
    /// One statement per row.
    PerRow,
    /// One statement per run of at most `max_rows` consecutive rows.
    MultiRow { max_rows: usize },
}

/// The rows that statement `k` covers when at most `m` rows go into one
/// statement.
pub open spec fn chunk(rows: Seq<RecordModel>, m: nat, k: int) -> Seq<RecordModel> {
    let lo = k * m;
    let hi = if lo + m <= rows.len() {
        lo + m
    } else {
        rows.len() as int
    };
    rows.subrange(lo, hi)
}

/// The number of statements for `n` rows, at most `m` rows each.
pub open spec fn chunk_count(n: nat, m: nat) -> nat
    recommends
        m > 0,
{
    ((n + m - 1) / m as int) as nat
}

proof fn lemma_join_step(s: Seq<Seq<char>>, i: int)
    requires
        0 < i < s.len(),
    ensures
        join_commas(s.subrange(0, i + 1)) == join_commas(s.subrange(0, i)) + ","@ + s[i],
{
    assert(s.subrange(0, i + 1).drop_last() =~= s.subrange(0, i));
}

proof fn lemma_join_first(s: Seq<Seq<char>>)
    requires
        0 < s.len(),
    ensures
        join_commas(s.subrange(0, 1)) == s[0],
{
}

/// Appends the items of `items` separated by commas.
fn append_joined(out: &mut String, items: &Vec<String>)
    ensures
        final(out)@ == old(out)@ + join_commas(names_of(items@)),
{
    let ghost start = out@;
    let ghost s = names_of(items@);
    let mut i: usize = 0;
    assert(s.subrange(0, 0) =~= Seq::<Seq<char>>::empty());
    assert(start =~= start + Seq::<char>::empty());
    while i < items.len()
        invariant
            0 <= i <= items@.len(),
            s == names_of(items@),
            out@ == start + join_commas(s.subrange(0, i as int)),
        decreases items@.len() - i,
    {
        if i > 0 {
            out.append(",");
            out.append(items[i].as_str());
            proof {
                lemma_join_step(s, i as int);
                assert(out@ =~= start + join_commas(s.subrange(0, i + 1)));
            }
        } else {
            out.append(items[i].as_str());
            proof {
                lemma_join_first(s);
                assert(out@ =~= start + join_commas(s.subrange(0, i + 1)));
            }
        }
        i = i + 1;
    }
    assert(s.subrange(0, items@.len() as int) =~= s);
}

/// Appends `(?,?,...)` with `n` placeholders.
fn append_row_placeholders(out: &mut String, n: usize)
    ensures
        final(out)@ == old(out)@ + row_placeholders(n as nat),
{
    let ghost start = out@;
    let ghost s = Seq::new(n as nat, |i: int| "?"@);
    out.append("(");
    let mut i: usize = 0;
    assert(s.subrange(0, 0) =~= Seq::<Seq<char>>::empty());
    while i < n
        invariant
            0 <= i <= n,
            s == Seq::new(n as nat, |i: int| "?"@),
            out@ == start + "("@ + join_commas(s.subrange(0, i as int)),
        decreases n - i,
    {
        if i > 0 {
            out.append(",?");
            proof {
                lemma_join_step(s, i as int);
                assert(",?"@ =~= ","@ + "?"@) by {
                    reveal_strlit(",?");
                    reveal_strlit(",");
                    reveal_strlit("?");
                }
                assert(out@ =~= start + "("@ + join_commas(s.subrange(0, i + 1)));
            }
        } else {
            out.append("?");
            proof {
                lemma_join_first(s);
                assert(out@ =~= start + "("@ + join_commas(s.subrange(0, i + 1)));
            }
        }
        i = i + 1;
    }
    assert(s.subrange(0, n as int) =~= s);
    out.append(")");
}

/// Appends `(?,...),(?,...),...`: `nrows` groups of `ncols` placeholders.
fn append_values_groups(out: &mut String, ncols: usize, nrows: usize)
    ensures
        final(out)@ == old(out)@ + join_commas(
            Seq::new(nrows as nat, |i: int| row_placeholders(ncols as nat)),
        ),
{
    let ghost start = out@;
    let ghost s = Seq::new(nrows as nat, |i: int| row_placeholders(ncols as nat));
    let mut i: usize = 0;
    assert(s.subrange(0, 0) =~= Seq::<Seq<char>>::empty());
    assert(start =~= start + Seq::<char>::empty());
    while i < nrows
        invariant
            0 <= i <= nrows,
            s == Seq::new(nrows as nat, |i: int| row_placeholders(ncols as nat)),
            out@ == start + join_commas(s.subrange(0, i as int)),
        decreases nrows - i,
    {
        let ghost before = out@;
        if i > 0 {
            out.append(",");
            append_row_placeholders(out, ncols);
            proof {
                lemma_join_step(s, i as int);
                assert(out@ =~= start + join_commas(s.subrange(0, i + 1)));
            }
        } else {
            append_row_placeholders(out, ncols);
            proof {
                lemma_join_first(s);
                assert(out@ =~= start + join_commas(s.subrange(0, i + 1)));
            }
        }
        i = i + 1;
    }
    assert(s.subrange(0, nrows as int) =~= s);
}

/// The text of an INSERT of `nrows` rows.
fn insert_text(table: &str, columns: &Vec<String>, nrows: usize) -> (r: String)
    ensures
        r@ == insert_sql(table@, names_of(columns@), nrows as nat),
{
    let mut sql = String::from_str("INSERT INTO ");
    sql.append(table);
    sql.append(" (");
    append_joined(&mut sql, columns);
    sql.append(") VALUES ");
    append_values_groups(&mut sql, columns.len(), nrows);
    proof {
        assert(names_of(columns@).len() == columns@.len());
    }
    sql
}

/// Appends the values bound for `row`: per column, the row's value or Null.
fn append_row_params(params: &mut Vec<Value>, columns: &Vec<String>, row: &Record)
    ensures
        values_of(final(params)@) == values_of(old(params)@) + row_params(row@, names_of(columns@)),
{
    let ghost start = values_of(params@);
    let ghost cols = names_of(columns@);
    let mut i: usize = 0;
    assert(values_of(params@) =~= start + row_params(row@, cols.subrange(0, 0)));
    while i < columns.len()
        invariant
            0 <= i <= columns@.len(),
            cols == names_of(columns@),
            values_of(params@) == start + row_params(row@, cols.subrange(0, i as int)),
        decreases columns@.len() - i,
    {
        let v = match row.get(&columns[i]) {
            Some(v) => v.duplicate(),
            None => Value::Null,
        };
        let ghost before = params@;
        params.push(v);
        proof {
            assert(values_of(params@) =~= values_of(before).push(v@));
            assert(v@ == value_or_null(row@, cols[i as int]));
            assert(values_of(params@) =~= start + row_params(row@, cols.subrange(0, i + 1)));
        }
        i = i + 1;
    }
    assert(cols.subrange(0, columns@.len() as int) =~= cols);
}

/// Builds the INSERT of one row: one placeholder per column, in column
/// order, bound to the row's value for that column or to Null.
pub fn build_insert(table: &str, columns: &Vec<String>, row: &Record) -> (r: InsertStatement)
    requires
        valid_identifier(table@),
        all_valid_identifiers(names_of(columns@)),
    ensures
        r.inserts(table@, names_of(columns@), seq![row@]),
        r.sql@ == insert_sql(table@, names_of(columns@), 1),
        values_of(r.params@) == row_params(row@, names_of(columns@)),
{
    let sql = insert_text(table, columns, 1);
    let mut params: Vec<Value> = Vec::new();
    assert(values_of(params@) =~= Seq::<ValueModel>::empty());
    append_row_params(&mut params, columns, row);
    proof {
        let rows = seq![row@];
        assert(rows.drop_last() =~= Seq::<RecordModel>::empty());
        assert(batch_params(rows.drop_last(), names_of(columns@)) =~= Seq::<ValueModel>::empty());
        assert(rows.last() == row@);
        assert(batch_params(rows, names_of(columns@)) =~= row_params(row@, names_of(columns@)));
        assert(values_of(params@) =~= row_params(row@, names_of(columns@)));
    }
    InsertStatement { sql, params }
}

/// Builds one INSERT of the rows `lo..hi` of `rows`, one group of
/// placeholders per row.
pub fn build_rows_insert(table: &str, columns: &Vec<String>, rows: &Vec<Record>, lo: usize, hi: usize) -> (r:
    InsertStatement)
    requires
        valid_identifier(table@),
        all_valid_identifiers(names_of(columns@)),
        lo < hi <= rows@.len(),
    ensures
        r.inserts(table@, names_of(columns@), records_of(rows@).subrange(lo as int, hi as int)),
{
    let sql = insert_text(table, columns, hi - lo);
    let mut params: Vec<Value> = Vec::new();
    let ghost all = records_of(rows@);
    let mut i: usize = lo;
    assert(all.subrange(lo as int, lo as int) =~= Seq::<RecordModel>::empty());
    assert(values_of(params@) =~= Seq::<ValueModel>::empty());
    while i < hi
        invariant
            lo <= i <= hi <= rows@.len(),
            all == records_of(rows@),
            values_of(params@) == batch_params(all.subrange(lo as int, i as int), names_of(columns@)),
        decreases hi - i,
    {
        append_row_params(&mut params, columns, &rows[i]);
        proof {
            assert(all.subrange(lo as int, i + 1).drop_last() =~= all.subrange(lo as int, i as int));
        }
        i = i + 1;
    }
    InsertStatement { sql, params }
}

/// Builds the statements for a batch of rows: under `PerRow` one statement
/// per row, in row order; under `MultiRow` one statement per run of at most
/// `max_rows` consecutive rows, in row order (none for an empty batch).
pub fn build_batch_insert(
    table: &str,
    columns: &Vec<String>,
    rows: &Vec<Record>,
    mode: BatchMode,
) -> (r: Vec<InsertStatement>)
    requires
        valid_identifier(table@),
        all_valid_identifiers(names_of(columns@)),
        mode matches BatchMode::MultiRow { max_rows } ==> max_rows > 0,
    ensures
        mode == BatchMode::PerRow ==> {
            &&& r@.len() == rows@.len()
            &&& forall|i: int|
                0 <= i < rows@.len() ==> (#[trigger] r@[i]).inserts(
                    table@,
                    names_of(columns@),
                    seq![rows@[i]@],
                )
        },
        mode matches BatchMode::MultiRow { max_rows } ==> {
            &&& r@.len() == chunk_count(rows@.len(), max_rows as nat)
            &&& forall|k: int|
                0 <= k < r@.len() ==> (#[trigger] r@[k]).inserts(
                    table@,
                    names_of(columns@),
                    chunk(records_of(rows@), max_rows as nat, k),
                )
        },
{
    let mut out: Vec<InsertStatement> = Vec::new();
    match mode {
        BatchMode::PerRow => {
            let mut i: usize = 0;
            while i < rows.len()
                invariant
                    valid_identifier(table@),
                    all_valid_identifiers(names_of(columns@)),
                    0 <= i <= rows@.len(),
                    out@.len() == i,
                    forall|j: int|
                        0 <= j < i ==> (#[trigger] out@[j]).inserts(
                            table@,
                            names_of(columns@),
                            seq![rows@[j]@],
                        ),
                decreases rows@.len() - i,
            {
                let st = build_insert(table, columns, &rows[i]);
                out.push(st);
                i = i + 1;
            }
        },
        BatchMode::MultiRow { max_rows } => {
            let n = rows.len();
            let ghost m = max_rows as int;
            let mut start: usize = 0;
            assert(out@.len() * m == 0) by (nonlinear_arith)
                requires
                    out@.len() == 0,
            ;
            if n == 0 {
                assert(out@.len() == 0);
            }
            while start < n
                invariant
                    valid_identifier(table@),
                    all_valid_identifiers(names_of(columns@)),
                    m == max_rows as int,
                    m > 0,
                    n == rows@.len(),
                    start <= n,
                    start < n ==> start == out@.len() * m,
                    start == n ==> (n == out@.len() * m || (out@.len() > 0 && (out@.len() - 1) * m
                        < n < out@.len() * m)),
                    forall|k: int|
                        0 <= k < out@.len() ==> (#[trigger] out@[k]).inserts(
                            table@,
                            names_of(columns@),
                            chunk(records_of(rows@), m as nat, k),
                        ),
                decreases n - start,
            {
                let end = if n - start > max_rows {
                    start + max_rows
                } else {
                    n
                };
                let st = build_rows_insert(table, columns, rows, start, end);
                proof {
                    let k = out@.len() as int;
                    assert((k + 1) * m == k * m + m) by (nonlinear_arith);
                    assert(chunk(records_of(rows@), m as nat, k) == records_of(rows@).subrange(
                        start as int,
                        end as int,
                    ));
                }
                out.push(st);
                start = end;
            }
            proof {
                let c = out@.len() as int;
                let nn = n as int;
                assert(c == (nn + m - 1) / m) by (nonlinear_arith)
                    requires
                        m > 0,
                        nn >= 0,
                        c >= 0,
                        nn == c * m || (c > 0 && (c - 1) * m < nn < c * m),
                ;
            }
        },
    }
    out
}

/// Building an INSERT is deterministic: two statements built for the same
/// table and columns have the same text, whatever the rows, and the same
/// bound values, in the same order, for the same row.
pub proof fn lemma_build_insert_deterministic(
    a: InsertStatement,
    b: InsertStatement,
    table: Seq<char>,
    cols: Seq<Seq<char>>,
    row_a: RecordModel,
    row_b: RecordModel,
)
    requires
        a.inserts(table, cols, seq![row_a]),
        b.inserts(table, cols, seq![row_b]),
    ensures
        a.sql@ == b.sql@,
        row_a == row_b ==> values_of(a.params@) == values_of(b.params@),
{
}

/// Field `j` of `row` is bound at the placeholder of a column of its name.
pub open spec fn field_bound(row: RecordModel, cols: Seq<Seq<char>>, j: int) -> bool {
    exists|i: int|
        0 <= i < cols.len() && #[trigger] cols[i] == row[j].0 && row_params(row, cols)[i] == row[j].1
}

/// A row that has a value for every column, and only for those, is bound
/// value for value: the value at each placeholder is the row's value of that
/// column, tag and all (a Null stays a Null), and every field of the row is
/// bound at the placeholder of its column.
pub proof fn lemma_full_row_round_trip(row: RecordModel, cols: Seq<Seq<char>>)
    requires
        record_wf(row),
        keys_within(row, cols),
        forall|i: int| 0 <= i < cols.len() ==> has_key(row, #[trigger] cols[i]),
    ensures
        forall|i: int|
            0 <= i < cols.len() ==> lookup(row, cols[i]) == Some(#[trigger] row_params(row, cols)[i]),
        forall|j: int| 0 <= j < row.len() ==> #[trigger] field_bound(row, cols, j),
{
    assert forall|i: int| 0 <= i < cols.len() implies lookup(row, cols[i]) == Some(
        #[trigger] row_params(row, cols)[i],
    ) by {
        lemma_lookup_found(row, cols[i]);
    }
    assert forall|j: int| 0 <= j < row.len() implies #[trigger] field_bound(row, cols, j) by {
        assert(cols.contains(row[j].0));
        let i = choose|i: int| 0 <= i < cols.len() && cols[i] == row[j].0;
        lemma_lookup_at(row, j);
        assert(row_params(row, cols)[i] == row[j].1);
        assert(cols[i] == row[j].0);
    }
}

} // verus!
