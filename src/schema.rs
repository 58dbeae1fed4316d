use vstd::prelude::*;
use crate::error::IngestError;
use crate::value::{Record, RecordModel, keys_of};
use crate::sql::{names_of, records_of};

verus! {

/// The table to ingest into: its name and, where known, its columns in
/// insertion order.
#[derive(Debug)]
pub struct TableTarget {
    pub name: String,
    pub columns: Option<Vec<String>>,
}

/// Every field name of `r` is one of `cols`.
pub open spec fn keys_within(r: RecordModel, cols: Seq<Seq<char>>) -> bool {
    forall|i: int| 0 <= i < r.len() ==> cols.contains(#[trigger] r[i].0)
}

/// Every record of `rows` has only names of `cols`.
pub open spec fn all_keys_within(rows: Seq<RecordModel>, cols: Seq<Seq<char>>) -> bool {
    forall|i: int| 0 <= i < rows.len() ==> keys_within(#[trigger] rows[i], cols)
}

/// The field names of all rows, row after row.
pub open spec fn all_keys(rows: Seq<RecordModel>) -> Seq<Seq<char>>
    decreases rows.len(),
{
    if rows.len() == 0 {
        Seq::empty()
    } else {
        all_keys(rows.drop_last()) + keys_of(rows.last())
    }
}

/// The items of `s` without repeats, each where it is first seen.
pub open spec fn first_seen(s: Seq<Seq<char>>) -> Seq<Seq<char>>
    decreases s.len(),
{
    if s.len() == 0 {
        Seq::empty()
    } else {
        let p = first_seen(s.drop_last());
        if p.contains(s.last()) {
            p
        } else {
            p.push(s.last())
        }
    }
}

/// The columns that `resolve` gives for `target_cols` and `rows`.
pub open spec fn resolved_columns(
    target_cols: Option<Seq<Seq<char>>>,
    rows: Seq<RecordModel>,
) -> Result<Seq<Seq<char>>, IngestError> {
    match target_cols {
        Some(cols) => if all_keys_within(rows, cols) {
            Ok(cols)
        } else {
            Err(IngestError::SchemaMismatch)
        },
        None => if rows.len() == 0 {
            Err(IngestError::EmptyBatch)
        } else {
            Ok(first_seen(all_keys(rows)))
        },
    }
}

impl TableTarget {
    pub open spec fn columns_model(&self) -> Option<Seq<Seq<char>>> {
        match self.columns {
            Some(c) => Some(names_of(c@)),
            None => None,
        }
    }
}

/// Whether `name` is one of `names`.
pub fn contains_name(names: &Vec<String>, name: &String) -> (r: bool)
    ensures
        r == names_of(names@).contains(name@),
{
    let mut i: usize = 0;
    while i < names.len()
        invariant
            0 <= i <= names@.len(),
            forall|j: int| 0 <= j < i ==> names@[j]@ != name@,
        decreases names@.len() - i,
    {
        if names[i] == *name {
            assert(names_of(names@)[i as int] == name@);
            return true;
        }
        i = i + 1;
    }
    proof {
        if names_of(names@).contains(name@) {
            let j = choose|j: int| 0 <= j < names@.len() && names_of(names@)[j] == name@;
            assert(names@[j]@ == name@);
        }
    }
    false
}

/// A copy of `names`.
pub fn copy_names(names: &Vec<String>) -> (r: Vec<String>)
    ensures
        names_of(r@) == names_of(names@),
{
    let mut r: Vec<String> = Vec::new();
    let mut i: usize = 0;
    while i < names.len()
        invariant
            0 <= i <= names@.len(),
            r@.len() == i,
            names_of(r@) == names_of(names@).subrange(0, i as int),
        decreases names@.len() - i,
    {
        let c = names[i].clone();
        let ghost before = r@;
        r.push(c);
        assert(r@ == before.push(c));
        assert(names_of(r@) =~= names_of(names@).subrange(0, i + 1));
        i = i + 1;
    }
    assert(names_of(names@).subrange(0, names@.len() as int) =~= names_of(names@));
    r
}

/// Whether every field name of `row` is one of `columns`.
pub fn record_within(row: &Record, columns: &Vec<String>) -> (r: bool)
    ensures
        r == keys_within(row@, names_of(columns@)),
{
    let mut i: usize = 0;
    while i < row.len()
        invariant
            0 <= i <= row@.len(),
            forall|j: int| 0 <= j < i ==> names_of(columns@).contains(#[trigger] row@[j].0),
        decreases row@.len() - i,
    {
        if !contains_name(columns, row.name_at(i)) {
            return false;
        }
        i = i + 1;
    }
    true
}

proof fn lemma_all_keys_step(rows: Seq<RecordModel>, i: int)
    requires
        0 <= i < rows.len(),
    ensures
        all_keys(rows.subrange(0, i + 1)) == all_keys(rows.subrange(0, i)) + keys_of(rows[i]),
{
    assert(rows.subrange(0, i + 1).drop_last() =~= rows.subrange(0, i));
}

proof fn lemma_first_seen_push(s: Seq<Seq<char>>, x: Seq<char>)
    ensures
        first_seen(s.push(x)) == if first_seen(s).contains(x) {
            first_seen(s)
        } else {
            first_seen(s).push(x)
        },
{
    assert(s.push(x).drop_last() =~= s);
}

/// Decides the insert columns of a batch: the target's known columns, where
/// every record's names are among them; else the names of all records in
/// the order first seen.
pub fn resolve(target: &TableTarget, records: &Vec<Record>) -> (r: Result<Vec<String>, IngestError>)
    ensures
        match r {
            Ok(cols) => resolved_columns(target.columns_model(), records_of(records@)) == Ok::<
                Seq<Seq<char>>,
                IngestError,
            >(names_of(cols@)),
            Err(e) => resolved_columns(target.columns_model(), records_of(records@)) == Err::<
                Seq<Seq<char>>,
                IngestError,
            >(e),
        },
{
    let ghost rows = records_of(records@);
    match &target.columns {
        Some(cols) => {
            let mut i: usize = 0;
            assert(target.columns_model() == Some(names_of(cols@)));
            while i < records.len()
                invariant
                    target.columns_model() == Some(names_of(cols@)),
                    0 <= i <= records@.len(),
                    rows == records_of(records@),
                    forall|j: int| 0 <= j < i ==> keys_within(#[trigger] rows[j], names_of(cols@)),
                decreases records@.len() - i,
            {
                if !record_within(&records[i], cols) {
                    assert(!keys_within(rows[i as int], names_of(cols@)));
                    assert(!all_keys_within(rows, names_of(cols@)));
                    return Err(IngestError::SchemaMismatch);
                }
                i = i + 1;
            }
            Ok(copy_names(cols))
        },
        None => {
            if records.len() == 0 {
                return Err(IngestError::EmptyBatch);
            }
            let mut out: Vec<String> = Vec::new();
            let mut i: usize = 0;
            assert(rows.subrange(0, 0) =~= Seq::<RecordModel>::empty());
            assert(names_of(out@) =~= Seq::<Seq<char>>::empty());
            while i < records.len()
                invariant
                    0 <= i <= records@.len(),
                    rows == records_of(records@),
                    names_of(out@) == first_seen(all_keys(rows.subrange(0, i as int))),
                decreases records@.len() - i,
            {
                let row = &records[i];
                let ghost before = all_keys(rows.subrange(0, i as int));
                let ghost ks = keys_of(row@);
                let mut j: usize = 0;
                assert(before + ks.subrange(0, 0) =~= before);
                while j < row.len()
                    invariant
                        0 <= j <= row@.len(),
                        ks == keys_of(row@),
                        names_of(out@) == first_seen(before + ks.subrange(0, j as int)),
                    decreases row@.len() - j,
                {
                    let name = row.name_at(j);
                    let seen = contains_name(&out, name);
                    proof {
                        assert(before + ks.subrange(0, j + 1) =~= (before + ks.subrange(
                            0,
                            j as int,
                        )).push(name@));
                        lemma_first_seen_push(before + ks.subrange(0, j as int), name@);
                    }
                    if !seen {
                        out.push(name.clone());
                        assert(names_of(out@) =~= first_seen(before + ks.subrange(0, j + 1)));
                    }
                    j = j + 1;
                }
                proof {
                    assert(ks.subrange(0, row@.len() as int) =~= ks);
                    lemma_all_keys_step(rows, i as int);
                }
                i = i + 1;
            }
            assert(rows.subrange(0, records@.len() as int) =~= rows);
            Ok(out)
        },
    }
}


proof fn lemma_first_seen_contains(s: Seq<Seq<char>>, x: Seq<char>)
    ensures
        first_seen(s).contains(x) <==> s.contains(x),
    decreases s.len(),
{
    if s.len() > 0 {
        let d = s.drop_last();
        lemma_first_seen_contains(d, x);
        if d.contains(x) {
            let k = choose|k: int| 0 <= k < d.len() && d[k] == x;
            assert(s[k] == x);
        }
        if s.contains(x) && x != s.last() {
            let k = choose|k: int| 0 <= k < s.len() && s[k] == x;
            assert(d[k] == x);
        }
        let p = first_seen(d);
        if !p.contains(s.last()) {
            assert(p.push(s.last())[p.len() as int] == s.last());
            if p.contains(x) {
                let k = choose|k: int| 0 <= k < p.len() && p[k] == x;
                assert(p.push(s.last())[k] == x);
            }
            if p.push(s.last()).contains(x) && x != s.last() {
                let k = choose|k: int| 0 <= k < p.len() + 1 && p.push(s.last())[k] == x;
                assert(p[k] == x);
            }
        }
        assert(s[s.len() - 1] == s.last());
    }
}

proof fn lemma_all_keys_contains(rows: Seq<RecordModel>, j: int, i: int)
    requires
        0 <= j < rows.len(),
        0 <= i < rows[j].len(),
    ensures
        all_keys(rows).contains(rows[j][i].0),
    decreases rows.len(),
{
    let d = rows.drop_last();
    let a = all_keys(d);
    let ks = keys_of(rows.last());
    if j == rows.len() - 1 {
        assert((a + ks)[a.len() + i] == rows[j][i].0);
    } else {
        assert(d[j] == rows[j]);
        lemma_all_keys_contains(d, j, i);
        let k = choose|k: int| 0 <= k < a.len() && a[k] == rows[j][i].0;
        assert((a + ks)[k] == rows[j][i].0);
    }
}

/// Without known columns, the columns resolved for a batch cover every
/// record of it: each field name of each record is one of them, so no record
/// of the batch is refused for an unknown column.
pub proof fn lemma_union_covers_batch(rows: Seq<RecordModel>)
    requires
        rows.len() > 0,
    ensures
        resolved_columns(None, rows) matches Ok(cols) && all_keys_within(rows, cols),
{
    let cols = first_seen(all_keys(rows));
    assert forall|j: int| 0 <= j < rows.len() implies keys_within(#[trigger] rows[j], cols) by {
        assert forall|i: int| 0 <= i < rows[j].len() implies cols.contains(#[trigger] rows[j][i].0) by {
            lemma_all_keys_contains(rows, j, i);
            lemma_first_seen_contains(all_keys(rows), rows[j][i].0);
        }
    }
}

} // verus!
