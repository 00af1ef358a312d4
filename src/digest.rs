//! Reading lots from an uploaded CSV text whose first record names the columns.
use vstd::prelude::*;
use crate::lot::{Lot, LotModel, lot_from_str_spec};
use crate::text::{trimmed, ascii_lowercase};
use crate::validate::{Invalid, Reason};

verus! {

/// The records that the `csv` reader reads from a text, each as its fields, up to the
/// first that fails; then that record's index and the error's text, if one failed.
pub uninterp spec fn csv_records(b: Seq<u8>) -> (Seq<Seq<Seq<char>>>, Option<(int, Seq<char>)>);

/// The view of records as read.
pub open spec fn records_view(r: (Vec<Vec<String>>, Option<(usize, String)>)) -> (
    Seq<Seq<Seq<char>>>,
    Option<(int, Seq<char>)>,
) {
    (
        r.0@.map_values(|row: Vec<String>| row@.map_values(|f: String| f@)),
        match r.1 {
            Some((i, e)) => Some((i as int, e@)),
            None => None,
        },
    )
}

/// Relies on `csv::ReaderBuilder` (all records read as data, none as headers) and
/// `Reader::records`: the records in order, each field as text, up to the first error.
#[verifier::external_body]
fn read_records(bytes: &[u8]) -> (r: (Vec<Vec<String>>, Option<(usize, String)>))
    ensures
        records_view(r) == csv_records(bytes@),
{
    let mut reader = csv::ReaderBuilder::new().has_headers(false).from_reader(bytes);
    let mut rows: Vec<Vec<String>> = Vec::new();
    for (i, record) in reader.records().enumerate() {
        match record {
            Ok(r) => rows.push(r.iter().map(|f| f.to_owned()).collect()),
            Err(e) => return (rows, Some((i, e.to_string()))),
        }
    }
    (rows, None)
}

/// Why an upload could not be read as lots.
#[derive(Clone, Debug, PartialEq, Eq)]
pub enum CsvError {
    /// The record of this data row could not be read.
    RecordError { row: usize, cause: String },
    /// A field of this data row was refused.
    RecordInvalid { row: usize, cause: Invalid },
    /// No column has this name.
    MissingHeader { name: String },
    /// The record of column names could not be read.
    HeaderError { cause: String },
}

/// Why an upload could not be read as lots, as values.
pub enum CsvFailure {
    RecordError { row: int, cause: Seq<char> },
    RecordInvalid { row: int, field: Seq<char>, reason: Reason },
    MissingHeader { name: Seq<char> },
    HeaderError { cause: Seq<char> },
}

/// The view of a CSV error.
pub open spec fn csv_error_view(e: CsvError) -> CsvFailure {
    match e {
        CsvError::RecordError { row, cause } => CsvFailure::RecordError { row: row as int, cause: cause@ },
        CsvError::RecordInvalid { row, cause } => CsvFailure::RecordInvalid {
            row: row as int,
            field: cause.field@,
            reason: cause.reason,
        },
        CsvError::MissingHeader { name } => CsvFailure::MissingHeader { name: name@ },
        CsvError::HeaderError { cause } => CsvFailure::HeaderError { cause: cause@ },
    }
}

/// The key of a column name: trimmed, in lower case.
pub open spec fn header_key(h: Seq<char>) -> Seq<char> {
    ascii_lowercase(trimmed(h))
}

/// The keys of the column names.
pub open spec fn header_keys(headers: Seq<Seq<char>>) -> Seq<Seq<char>> {
    headers.map_values(|h: Seq<char>| header_key(h))
}

/// The last column with key `name`, or -1.
pub open spec fn header_index(keys: Seq<Seq<char>>, name: Seq<char>) -> int
    decreases keys.len(),
{
    if keys.len() == 0 {
        -1
    } else if keys.last() == name {
        keys.len() - 1
    } else {
        header_index(keys.drop_last(), name)
    }
}

/// The trimmed value of column `name` in a record of data row `row`.
pub open spec fn field_spec(row: int, name: Seq<char>, keys: Seq<Seq<char>>, record: Seq<Seq<char>>) -> Result<
    Seq<char>,
    CsvFailure,
> {
    let i = header_index(keys, name);
    if i < 0 {
        Err(CsvFailure::MissingHeader { name })
    } else if i >= record.len() {
        Err(CsvFailure::RecordInvalid { row, field: name, reason: Reason::Required })
    } else {
        Ok(trimmed(record[i]))
    }
}

/// The lot of a record of data row `row`: its five fields in order, then as
/// `Lot::from_str`.
pub open spec fn record_spec(row: int, keys: Seq<Seq<char>>, record: Seq<Seq<char>>) -> Result<
    LotModel,
    CsvFailure,
> {
    match field_spec(row, "account"@, keys, record) {
        Err(e) => Err(e),
        Ok(account) => match field_spec(row, "symbol"@, keys, record) {
            Err(e) => Err(e),
            Ok(symbol) => match field_spec(row, "date_acquired"@, keys, record) {
                Err(e) => Err(e),
                Ok(date) => match field_spec(row, "quantity"@, keys, record) {
                    Err(e) => Err(e),
                    Ok(quantity) => match field_spec(row, "cost_per_share"@, keys, record) {
                        Err(e) => Err(e),
                        Ok(cost) => match lot_from_str_spec(account, symbol, date, quantity, cost) {
                            Ok(l) => Ok(l),
                            Err((field, reason)) => Err(CsvFailure::RecordInvalid { row, field, reason }),
                        },
                    },
                },
            },
        },
    }
}

/// The lots of the data records, in order; the first refused record stops.
pub open spec fn records_spec(keys: Seq<Seq<char>>, records: Seq<Seq<Seq<char>>>) -> Result<
    Seq<LotModel>,
    CsvFailure,
>
    decreases records.len(),
{
    if records.len() == 0 {
        Ok(Seq::empty())
    } else {
        match records_spec(keys, records.drop_last()) {
            Err(e) => Err(e),
            Ok(lots) => match record_spec(records.len() - 1, keys, records.last()) {
                Ok(l) => Ok(lots.push(l)),
                Err(e) => Err(e),
            },
        }
    }
}

/// The lots of an upload: no lots where it holds no record; else the first record names
/// the columns and each later record is a lot; where the reader failed, the records
/// before the failure are checked first.
pub open spec fn csv_spec(b: Seq<u8>) -> Result<Seq<LotModel>, CsvFailure> {
    records_outcome(csv_records(b))
}

/// The lots of records as read: no lots where there is no record; else the first record
/// names the columns and each later record is a lot; where the reader failed at record
/// `i`, the records before it are checked first, then the failure is that of data row
/// `i - 1`.
pub open spec fn records_outcome(read: (Seq<Seq<Seq<char>>>, Option<(int, Seq<char>)>)) -> Result<
    Seq<LotModel>,
    CsvFailure,
> {
    let (rows, failure) = read;
    if rows.len() == 0 {
        match failure {
            Some((_, cause)) => Err(CsvFailure::HeaderError { cause }),
            None => Ok(Seq::empty()),
        }
    } else {
        match records_spec(header_keys(rows[0]), rows.drop_first()) {
            Err(e) => Err(e),
            Ok(lots) => match failure {
                Some((i, cause)) => Err(
                    CsvFailure::RecordError {
                        row: if i > 0 {
                            i - 1
                        } else {
                            0
                        },
                        cause,
                    },
                ),
                None => Ok(lots),
            },
        }
    }
}

/// The view of the outcome of reading lots.
pub open spec fn csv_result_view(r: Result<Vec<Lot>, CsvError>) -> Result<Seq<LotModel>, CsvFailure> {
    match r {
        Ok(lots) => Ok(lots@.map_values(|l: Lot| l@)),
        Err(e) => Err(csv_error_view(e)),
    }
}

/// The keys of column names: each trimmed and in lower case.
fn create_headers_to_index(headers: &Vec<String>) -> (r: Vec<String>)
    ensures
        r@.map_values(|k: String| k@) == header_keys(headers@.map_values(|f: String| f@)),
{
    let ghost hs = headers@.map_values(|f: String| f@);
    let mut keys: Vec<String> = Vec::new();
    for i in 0..headers.len()
        invariant
            hs == headers@.map_values(|f: String| f@),
            keys@.map_values(|k: String| k@) == header_keys(hs).take(i as int),
    {
        let key = headers[i].as_str().trim().to_ascii_lowercase();
        assert(hs[i as int] == headers@[i as int]@);
        assert(header_keys(hs)[i as int] == header_key(hs[i as int]));
        assert(header_keys(hs).take(i + 1) == header_keys(hs).take(i as int).push(
            header_keys(hs)[i as int],
        ));
        keys.push(key);
        assert(keys@.map_values(|k: String| k@) == header_keys(hs).take(i + 1));
    }
    assert(header_keys(hs).take(headers.len() as int) == header_keys(hs));
    keys
}

/// The trimmed value of column `name` in a record of data row `row`.
fn get_field<'a>(row: usize, name: &str, keys: &Vec<String>, record: &'a Vec<String>) -> (r: Result<
    &'a str,
    CsvError,
>)
    ensures
        match field_spec(row as int, name@, keys@.map_values(|k: String| k@), record@.map_values(|f: String| f@)) {
            Ok(v) => r matches Ok(s) && s@ == v,
            Err(e) => r matches Err(x) && csv_error_view(x) == e,
        },
{
    let ghost ks = keys@.map_values(|k: String| k@);
    let mut i: usize = keys.len();
    assert(ks.take(i as int) == ks);
    while i > 0 && !keys[i - 1].as_str().eq(name)
        invariant
            i <= keys@.len(),
            ks == keys@.map_values(|k: String| k@),
            header_index(ks, name@) == header_index(ks.take(i as int), name@),
        decreases i,
    {
        assert(ks.take(i as int).drop_last() == ks.take(i - 1));
        i = i - 1;
    }
    if i == 0 {
        assert(ks.take(0) == Seq::<Seq<char>>::empty());
        return Err(CsvError::MissingHeader { name: name.to_owned() });
    }
    let index = i - 1;
    assert(ks.take(i as int).last() == ks[index as int]);
    if index >= record.len() {
        return Err(CsvError::RecordInvalid { row, cause: Invalid::required_str(name) });
    }
    Ok(record[index].as_str().trim())
}

/// The lot of a record of data row `row`.
fn to_lot(row: usize, keys: &Vec<String>, record: &Vec<String>) -> (r: Result<Lot, CsvError>)
    ensures
        match record_spec(row as int, keys@.map_values(|k: String| k@), record@.map_values(|f: String| f@)) {
            Ok(l) => r matches Ok(x) && x@ == l,
            Err(e) => r matches Err(x) && csv_error_view(x) == e,
        },
{
    let account = get_field(row, "account", keys, record)?;
    let symbol = get_field(row, "symbol", keys, record)?;
    let date = get_field(row, "date_acquired", keys, record)?;
    let quantity = get_field(row, "quantity", keys, record)?;
    let cost = get_field(row, "cost_per_share", keys, record)?;
    match Lot::from_str(account, symbol, date, quantity, cost) {
        Ok(lot) => Ok(lot),
        Err(cause) => Err(CsvError::RecordInvalid { row, cause }),
    }
}

/// Reads the lots of an uploaded CSV text: the first record names the columns
/// (account, symbol, date_acquired, quantity, cost_per_share; trimmed, in any case and
/// order), each later record is one lot; the first failure is returned.
pub fn csv_to_lot(csv: &[u8]) -> (r: Result<Vec<Lot>, CsvError>)
    ensures
        csv_result_view(r) == csv_spec(csv@),
{
    let (rows, failure) = read_records(csv);
    lots_from_records(&rows, failure)
}

/// The lots of records as the CSV reader gave them (the records read, then the index and
/// text of the reader's failure, if any); see `records_outcome`.
pub fn lots_from_records(rows: &Vec<Vec<String>>, failure: Option<(usize, String)>) -> (r: Result<
    Vec<Lot>,
    CsvError,
>)
    ensures
        csv_result_view(r) == records_outcome(records_view((*rows, failure))),
{
    let ghost rs = records_view((*rows, failure)).0;
    if rows.len() == 0 {
        return match failure {
            Some((_, cause)) => Err(CsvError::HeaderError { cause }),
            None => {
                let none: Vec<Lot> = Vec::new();
                assert(none@.map_values(|l: Lot| l@) == Seq::<LotModel>::empty());
                Ok(none)
            },
        };
    }
    let keys = create_headers_to_index(&rows[0]);
    let ghost ks = keys@.map_values(|k: String| k@);
    assert(rs[0] == rows@[0]@.map_values(|f: String| f@));
    let ghost data = rs.drop_first();
    let mut lots: Vec<Lot> = Vec::new();
    assert(data.take(0) == Seq::<Seq<Seq<char>>>::empty());
    assert(lots@.map_values(|l: Lot| l@) == Seq::<LotModel>::empty());
    for k in 1..rows.len()
        invariant
            rs == records_view((*rows, failure)).0,
            rows@.len() > 0,
            rs.len() == rows@.len(),
            data == rs.drop_first(),
            ks == header_keys(rs[0]),
            ks == keys@.map_values(|k: String| k@),
            records_spec(ks, data.take(k - 1)) == Ok::<Seq<LotModel>, CsvFailure>(
                lots@.map_values(|l: Lot| l@),
            ),
    {
        assert(data.take(k as int).drop_last() == data.take(k - 1));
        assert(data.take(k as int).last() == rs[k as int]);
        assert(rs[k as int] == rows@[k as int]@.map_values(|f: String| f@));
        let lot = match to_lot(k - 1, &keys, &rows[k]) {
            Ok(lot) => lot,
            Err(e) => {
                proof {
                    lemma_records_failure_persists(ks, data, k as int);
                }
                return Err(e);
            },
        };
        lots.push(lot);
        assert(lots@.map_values(|l: Lot| l@) == records_spec(ks, data.take(k as int))->Ok_0);
    }
    assert(data.take(rows.len() - 1) == data);
    match failure {
        Some((i, cause)) => {
            let row = if i > 0 {
                i - 1
            } else {
                0
            };
            Err(CsvError::RecordError { row, cause })
        },
        None => Ok(lots),
    }
}

/// A refused record among the first ones is the outcome for all of them.
proof fn lemma_records_failure_persists(keys: Seq<Seq<char>>, records: Seq<Seq<Seq<char>>>, n: int)
    requires
        0 <= n <= records.len(),
        records_spec(keys, records.take(n)) is Err,
    ensures
        records_spec(keys, records) == records_spec(keys, records.take(n)),
    decreases records.len() - n,
{
    if n < records.len() {
        assert(records.take(n + 1).drop_last() == records.take(n));
        lemma_records_failure_persists(keys, records, n + 1);
    } else {
        assert(records.take(n) == records);
    }
}

} // verus!
