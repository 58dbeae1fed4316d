use vstd::prelude::*;
use crate::error::IngestError;
use crate::value::{Record, RecordModel, Value, ValueModel, has_key};
use crate::sql::{names_of, values_of, records_of};

verus! {

/// Names that can head the fields of a record: non-empty and pairwise
/// distinct.
pub open spec fn names_wf(h: Seq<Seq<char>>) -> bool {
    &&& forall|i: int| 0 <= i < h.len() ==> (#[trigger] h[i]).len() > 0
    &&& forall|i: int, j: int| 0 <= i < j < h.len() ==> (#[trigger] h[i]) != (#[trigger] h[j])
}

/// The record of one table row: the i-th cell under the i-th header name,
/// for as many cells as both have.
pub open spec fn row_record(header: Seq<Seq<char>>, row: Seq<ValueModel>) -> RecordModel {
    let n = if header.len() <= row.len() {
        header.len()
    } else {
        row.len()
    };
    Seq::new(n, |i: int| (header[i], row[i]))
}

/// The records of a table with a header row: one per row, or `DecodeError`
/// where the header cannot name the fields of a record.
pub open spec fn table_records(header: Seq<Seq<char>>, rows: Seq<Seq<ValueModel>>) -> Result<
    Seq<RecordModel>,
    IngestError,
> {
    if names_wf(header) {
        Ok(Seq::new(rows.len(), |j: int| row_record(header, rows[j])))
    } else {
        Err(IngestError::DecodeError)
    }
}

/// A row of text cells as values.
pub open spec fn text_row(row: Seq<Seq<char>>) -> Seq<ValueModel> {
    row.map_values(|s: Seq<char>| ValueModel::Text(s))
}

/// The models of the rows of a table of strings.
pub open spec fn string_rows(rows: Seq<Vec<String>>) -> Seq<Seq<Seq<char>>> {
    rows.map_values(|row: Vec<String>| names_of(row@))
}

/// The header and rows that CSV text decodes to, where it decodes.
pub uninterp spec fn csv_table_of(text: Seq<char>) -> Option<(Seq<Seq<char>>, Seq<Seq<Seq<char>>>)>;

/// Relies on csv::Reader (from_reader, headers, records) with its default
/// settings: the first line is the header, each further line one row, and
/// the outcome depends on the text alone.
#[verifier::external_body]
fn read_csv_table(text: &str) -> (r: Option<(Vec<String>, Vec<Vec<String>>)>)
    ensures
        match r {
            Some((h, rows)) => csv_table_of(text@) == Some((names_of(h@), string_rows(rows@))),
            None => csv_table_of(text@) is None,
        },
{
    let mut rdr = csv::Reader::from_reader(text.as_bytes());
    let header: Vec<String> = match rdr.headers() {
        Ok(h) => h.iter().map(|f| f.to_string()).collect(),
        Err(_) => return None,
    };
    let rows: Result<Vec<Vec<String>>, csv::Error> = rdr.records().map(
        |rec| rec.map(|r| r.iter().map(|f| f.to_string()).collect()),
    ).collect();
    rows.ok().map(|rows| (header, rows))
}

/// Whether `header` can name the fields of a record.
pub fn header_names_ok(header: &Vec<String>) -> (r: bool)
    ensures
        r == names_wf(names_of(header@)),
{
    let ghost h = names_of(header@);
    let mut i: usize = 0;
    while i < header.len()
        invariant
            0 <= i <= header@.len(),
            h == names_of(header@),
            names_wf(h.subrange(0, i as int)),
        decreases header@.len() - i,
    {
        if header[i].as_str().is_empty() {
            assert(h[i as int].len() == 0);
            return false;
        }
        let mut j: usize = 0;
        while j < i
            invariant
                0 <= j <= i < header@.len(),
                h == names_of(header@),
                forall|k: int| 0 <= k < j ==> h[k] != h[i as int],
            decreases i - j,
        {
            if header[j] == header[i] {
                assert(h[j as int] == h[i as int]);
                return false;
            }
            j = j + 1;
        }
        proof {
            let p = h.subrange(0, i + 1);
            assert forall|a: int, b: int| 0 <= a < b < p.len() implies (#[trigger] p[a]) != (
            #[trigger] p[b]) by {
                if b < i {
                    assert(h.subrange(0, i as int)[a] == p[a]);
                    assert(h.subrange(0, i as int)[b] == p[b]);
                }
            }
            assert forall|a: int| 0 <= a < p.len() implies (#[trigger] p[a]).len() > 0 by {
                if a < i {
                    assert(h.subrange(0, i as int)[a] == p[a]);
                }
            }
        }
        i = i + 1;
    }
    assert(h.subrange(0, header@.len() as int) =~= h);
    true
}

/// The record of one row under a header that names record fields.
pub fn record_from_row(header: &Vec<String>, row: &Vec<Value>) -> (r: Record)
    requires
        names_wf(names_of(header@)),
    ensures
        r@ == row_record(names_of(header@), values_of(row@)),
        r.wf(),
{
    let ghost h = names_of(header@);
    let ghost cells = values_of(row@);
    let n = if header.len() <= row.len() {
        header.len()
    } else {
        row.len()
    };
    let mut r = Record::new();
    let mut i: usize = 0;
    while i < n
        invariant
            0 <= i <= n,
            n <= header@.len(),
            n <= row@.len(),
            h == names_of(header@),
            cells == values_of(row@),
            names_wf(h),
            r@ == Seq::new(i as nat, |k: int| (h[k], cells[k])),
            r.wf(),
        decreases n - i,
    {
        proof {
            if has_key(r@, h[i as int]) {
                let k = choose|k: int| 0 <= k < r@.len() && (#[trigger] r@[k]).0 == h[i as int];
                assert(h[k] != h[i as int]);
            }
        }
        let ok = r.push(header[i].clone(), row[i].duplicate());
        assert(ok);
        assert(r@ =~= Seq::new((i + 1) as nat, |k: int| (h[k], cells[k])));
        i = i + 1;
    }
    r
}

/// The records of a table under a header row: one per row, with the i-th
/// cell under the i-th name; `DecodeError` where a header name is empty or
/// repeated.
pub fn records_from_rows(header: &Vec<String>, rows: &Vec<Vec<Value>>) -> (r: Result<
    Vec<Record>,
    IngestError,
>)
    ensures
        match r {
            Ok(rs) => table_records(
                names_of(header@),
                rows@.map_values(|row: Vec<Value>| values_of(row@)),
            ) == Ok::<Seq<RecordModel>, IngestError>(records_of(rs@)),
            Err(e) => table_records(
                names_of(header@),
                rows@.map_values(|row: Vec<Value>| values_of(row@)),
            ) == Err::<Seq<RecordModel>, IngestError>(e),
        },
{
    if !header_names_ok(header) {
        return Err(IngestError::DecodeError);
    }
    let ghost h = names_of(header@);
    let ghost cells = rows@.map_values(|row: Vec<Value>| values_of(row@));
    let mut out: Vec<Record> = Vec::new();
    let mut j: usize = 0;
    while j < rows.len()
        invariant
            0 <= j <= rows@.len(),
            h == names_of(header@),
            cells == rows@.map_values(|row: Vec<Value>| values_of(row@)),
            names_wf(h),
            out@.len() == j,
            records_of(out@) == Seq::new(j as nat, |k: int| row_record(h, cells[k])),
        decreases rows@.len() - j,
    {
        let rec = record_from_row(header, &rows[j]);
        let ghost before = out@;
        out.push(rec);
        assert(out@ == before.push(rec));
        assert(cells[j as int] == values_of(rows@[j as int]@));
        assert(records_of(out@) =~= records_of(before).push(rec@));
        assert(records_of(out@) =~= Seq::new((j + 1) as nat, |k: int| row_record(h, cells[k])));
        j = j + 1;
    }
    Ok(out)
}

/// A row of strings as text values.
pub fn text_cells(row: &Vec<String>) -> (r: Vec<Value>)
    ensures
        values_of(r@) == text_row(names_of(row@)),
{
    let mut r: Vec<Value> = Vec::new();
    let mut i: usize = 0;
    while i < row.len()
        invariant
            0 <= i <= row@.len(),
            r@.len() == i,
            values_of(r@) == text_row(names_of(row@)).subrange(0, i as int),
        decreases row@.len() - i,
    {
        let c = row[i].clone();
        let ghost before = r@;
        r.push(Value::Text(c));
        assert(r@ == before.push(Value::Text(c)));
        assert(values_of(r@) =~= text_row(names_of(row@)).subrange(0, i + 1));
        i = i + 1;
    }
    assert(text_row(names_of(row@)).subrange(0, row@.len() as int) =~= text_row(names_of(row@)));
    r
}

/// The records of a table of strings, every cell as text, under its header.
pub fn records_from_text_table(header: &Vec<String>, rows: &Vec<Vec<String>>) -> (r: Result<
    Vec<Record>,
    IngestError,
>)
    ensures
        match r {
            Ok(rs) => table_records(names_of(header@), string_rows(rows@).map_values(
                |row: Seq<Seq<char>>| text_row(row),
            )) == Ok::<Seq<RecordModel>, IngestError>(records_of(rs@)),
            Err(e) => table_records(names_of(header@), string_rows(rows@).map_values(
                |row: Seq<Seq<char>>| text_row(row),
            )) == Err::<Seq<RecordModel>, IngestError>(e),
        },
{
    let mut cells: Vec<Vec<Value>> = Vec::new();
    let mut j: usize = 0;
    let ghost want = string_rows(rows@).map_values(|row: Seq<Seq<char>>| text_row(row));
    while j < rows.len()
        invariant
            0 <= j <= rows@.len(),
            want == string_rows(rows@).map_values(|row: Seq<Seq<char>>| text_row(row)),
            cells@.len() == j,
            cells@.map_values(|row: Vec<Value>| values_of(row@)) == want.subrange(0, j as int),
        decreases rows@.len() - j,
    {
        let row = text_cells(&rows[j]);
        let ghost before = cells@;
        cells.push(row);
        assert(cells@ == before.push(row));
        assert(want[j as int] == text_row(names_of(rows@[j as int]@)));
        assert(cells@.map_values(|row: Vec<Value>| values_of(row@)) =~= want.subrange(0, j + 1));
        j = j + 1;
    }
    assert(want.subrange(0, rows@.len() as int) =~= want);
    records_from_rows(header, &cells)
}

/// The records of CSV text: its header names the fields, each further line
/// is one record of text values; `DecodeError` where the text does not
/// decode or its header names a field twice or not at all.
pub fn records_from_csv(text: &str) -> (r: Result<Vec<Record>, IngestError>)
    ensures
        match csv_table_of(text@) {
            None => r == Err::<Vec<Record>, IngestError>(IngestError::DecodeError),
            Some((h, rows)) => match r {
                Ok(rs) => table_records(h, rows.map_values(|row: Seq<Seq<char>>| text_row(row)))
                    == Ok::<Seq<RecordModel>, IngestError>(records_of(rs@)),
                Err(e) => table_records(h, rows.map_values(|row: Seq<Seq<char>>| text_row(row)))
                    == Err::<Seq<RecordModel>, IngestError>(e),
            },
        },
{
    match read_csv_table(text) {
        None => Err(IngestError::DecodeError),
        Some((header, rows)) => records_from_text_table(&header, &rows),
    }
}

} // verus!
