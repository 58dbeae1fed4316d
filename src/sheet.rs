use vstd::prelude::*;
use crate::error::IngestError;
use crate::value::{Record, RecordModel, Value, ValueModel};
use crate::sql::{names_of, values_of, records_of};
use crate::adapt::{table_records, records_from_rows};

verus! {

/// The models of the rows of a table of values.
pub open spec fn value_rows(rows: Seq<Vec<Value>>) -> Seq<Seq<ValueModel>> {
    rows.map_values(|row: Vec<Value>| values_of(row@))
}

/// The texts of a row of text values.
pub open spec fn texts_of(row: Seq<ValueModel>) -> Seq<Seq<char>> {
    Seq::new(row.len(), |i: int| row[i]->Text_0)
}

/// The names of a header row, where every cell of it is text.
pub open spec fn header_names(row: Seq<ValueModel>) -> Option<Seq<Seq<char>>> {
    if forall|i: int| 0 <= i < row.len() ==> (#[trigger] row[i]) is Text {
        Some(texts_of(row))
    } else {
        None
    }
}

/// The records of a sheet whose first row is a header: none for an empty
/// sheet; `DecodeError` where a header cell is not text, or a header name
/// is empty or repeated.
pub open spec fn sheet_records(rows: Seq<Seq<ValueModel>>) -> Result<Seq<RecordModel>, IngestError> {
    if rows.len() == 0 {
        Ok(Seq::empty())
    } else {
        match header_names(rows[0]) {
            Some(h) => table_records(h, rows.drop_first()),
            None => Err(IngestError::DecodeError),
        }
    }
}

/// A copy of a row of values.
fn copy_values(v: &Vec<Value>) -> (r: Vec<Value>)
    ensures
        values_of(r@) == values_of(v@),
{
    let mut r: Vec<Value> = Vec::new();
    let mut i: usize = 0;
    while i < v.len()
        invariant
            0 <= i <= v@.len(),
            r@.len() == i,
            values_of(r@) == values_of(v@).subrange(0, i as int),
        decreases v@.len() - i,
    {
        let c = v[i].duplicate();
        let ghost before = r@;
        r.push(c);
        assert(r@ == before.push(c));
        assert(values_of(r@) =~= values_of(v@).subrange(0, i + 1));
        i = i + 1;
    }
    assert(values_of(v@).subrange(0, v@.len() as int) =~= values_of(v@));
    r
}

/// The records of a sheet's cells: the first row names the fields, each
/// further row is one record.
pub fn records_from_sheet(rows: &Vec<Vec<Value>>) -> (r: Result<Vec<Record>, IngestError>)
    ensures
        match r {
            Ok(rs) => sheet_records(value_rows(rows@)) == Ok::<Seq<RecordModel>, IngestError>(
                records_of(rs@),
            ),
            Err(e) => sheet_records(value_rows(rows@)) == Err::<Seq<RecordModel>, IngestError>(e),
        },
{
    let ghost all = value_rows(rows@);
    if rows.len() == 0 {
        let out: Vec<Record> = Vec::new();
        assert(records_of(out@) =~= Seq::<RecordModel>::empty());
        return Ok(out);
    }
    let first = &rows[0];
    let ghost hm = values_of(first@);
    let mut header: Vec<String> = Vec::new();
    let mut i: usize = 0;
    while i < first.len()
        invariant
            0 <= i <= first@.len(),
            hm == values_of(first@),
            rows@.len() > 0,
            all == value_rows(rows@),
            first@ == rows@[0]@,
            header@.len() == i,
            forall|k: int| 0 <= k < i ==> (#[trigger] hm[k]) is Text,
            names_of(header@) == texts_of(hm.subrange(0, i as int)),
        decreases first@.len() - i,
    {
        match &first[i] {
            Value::Text(s) => {
                let c = s.clone();
                let ghost before = header@;
                header.push(c);
                assert(header@ == before.push(c));
                assert(hm[i as int] == ValueModel::Text(s@));
                assert forall|k: int| 0 <= k < i + 1 implies names_of(header@)[k] == texts_of(
                    hm.subrange(0, i + 1),
                )[k] by {
                    if k < i {
                        assert(header@[k] == before[k]);
                        assert(names_of(before)[k] == texts_of(hm.subrange(0, i as int))[k]);
                    }
                }
                assert(names_of(header@) =~= texts_of(hm.subrange(0, i + 1)));
            },
            _ => {
                assert(!(hm[i as int] is Text));
                assert(all[0] == hm);
                return Err(IngestError::DecodeError);
            },
        }
        i = i + 1;
    }
    assert(hm.subrange(0, first@.len() as int) =~= hm);
    assert(all[0] == hm);
    let mut body: Vec<Vec<Value>> = Vec::new();
    let mut j: usize = 1;
    assert(value_rows(body@) =~= all.subrange(1, 1));
    while j < rows.len()
        invariant
            1 <= j <= rows@.len(),
            all == value_rows(rows@),
            body@.len() == j - 1,
            value_rows(body@) == all.subrange(1, j as int),
        decreases rows@.len() - j,
    {
        let row = copy_values(&rows[j]);
        let ghost before = body@;
        body.push(row);
        assert(body@ == before.push(row));
        assert(value_rows(body@) =~= all.subrange(1, j + 1));
        j = j + 1;
    }
    assert(all.subrange(1, rows@.len() as int) =~= all.drop_first());
    records_from_rows(&header, &body)
}

} // verus!
