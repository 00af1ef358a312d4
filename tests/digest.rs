use portools::currency::{Currency, USD};
use portools::date::Date;
use portools::decimal::Decimal;
use portools::assertion::{assert_err_eq, assert_result_vec_eq_fn};
use portools::digest::{csv_to_lot, lots_from_records, CsvError};
use portools::lot::Lot;
use portools::validate::{Invalid, Reason};

fn new_lot(account: &str, symbol: &str, date: &str, quantity: i64, cost_basis_usd: &str) -> Lot {
    let cost_basis = Currency::new(Decimal::parse(cost_basis_usd).unwrap(), USD).unwrap();
    Lot::new(
        account,
        symbol,
        Date::parse_from_str(date, "%Y/%m/%d").unwrap(),
        Decimal::new(quantity, 0),
        cost_basis,
    )
    .unwrap()
}

fn expected_lots() -> Vec<Lot> {
    vec![
        new_lot("Taxable", "VOO", "2023/03/27", 1, "100.47"),
        new_lot("IRA", "BND", "2023/03/28", 2, "200.26"),
        new_lot("IRA", "BND", "2023/03/29", 3, "300.23"),
    ]
}

const VALID: &str = "account,symbol,date_acquired,quantity,cost_per_share
Taxable,VOO,2023/03/27,1,100.47
IRA,BND,2023/03/28,2,200.26
IRA,BND,2023/03/29,3,300.23
";

#[test]
fn digest_test_valid() {
    let result = csv_to_lot(VALID.as_bytes());
    assert_eq!(expected_lots(), result.unwrap());
}

#[test]
fn digest_test_valid_different_column_order() {
    let csv = "symbol,quantity,account,cost_per_share,date_acquired
VOO,1,Taxable,100.47,2023/03/27
BND,2,IRA,200.26,2023/03/28
BND,3,IRA,300.23,2023/03/29
";
    let result = csv_to_lot(csv.as_bytes());
    assert_eq!(expected_lots(), result.unwrap());
}

#[test]
fn digest_test_valid_with_whitespace() {
    let csv = " account , symbol ,date_acquired, quantity ,cost_per_share
 Taxable , VOO ,2023/03/27, 1 , 100.47
IRA,  BND,2023/03/28,2,200.26 
IRA,BND , 2023/03/29 ,3,300.23
";
    let result = csv_to_lot(csv.as_bytes());
    assert_eq!(expected_lots(), result.unwrap());
}

#[test]
fn digest_test_valid_with_capitalized_headers() {
    let csv = "Account,SYMBOL,Date_Acquired,Quantity,Cost_Per_Share
Taxable,VOO,2023/03/27,1,100.47
IRA,BND,2023/03/28,2,200.26
IRA,BND,2023/03/29,3,300.23
";
    let result = csv_to_lot(csv.as_bytes());
    assert_eq!(expected_lots(), result.unwrap());
}

#[test]
fn digest_test_missing_header() {
    let csv = "Taxable,VOO,2023/03/27,1,100.47
IRA,BND,2023/03/28,2,200.26
";
    let result = csv_to_lot(csv.as_bytes());
    assert_eq!(Err(CsvError::MissingHeader { name: "account".into() }), result);
}

#[test]
fn digest_test_missing_quantity_column() {
    let csv = "account,symbol,date_acquired,cost_per_share
Taxable,VOO,2023/03/27,100.47
";
    let result = csv_to_lot(csv.as_bytes());
    assert_eq!(Err(CsvError::MissingHeader { name: "quantity".into() }), result);
}

#[test]
fn digest_test_row_with_invalid_value() {
    let csv = "account,symbol,date_acquired,quantity,cost_per_share
Taxable,VOO,2023/03/27,1,100.47
IRA,BND,2023/03/28,2,not a number
";
    let result = csv_to_lot(csv.as_bytes());
    assert_eq!(
        Err(CsvError::RecordInvalid {
            row: 1,
            cause: Invalid::parse_money_error("cost_basis"),
        }),
        result
    );
}

#[test]
fn digest_empty_text_has_no_lots() {
    assert_eq!(Ok(Vec::new()), csv_to_lot(b""));
}

#[test]
fn digest_header_only_has_no_lots() {
    assert_eq!(Ok(Vec::new()), csv_to_lot(b"account,symbol\n"));
}

#[test]
fn digest_record_with_too_few_fields_is_record_error() {
    let csv = "account,symbol,date_acquired,quantity,cost_per_share
Taxable,VOO,2023/03/27,1,100.47
IRA,BND
";
    match csv_to_lot(csv.as_bytes()) {
        Err(CsvError::RecordError { row, .. }) => assert_eq!(1, row),
        other => panic!("expected a record error, got {:?}", other),
    }
}

#[test]
fn digest_record_with_invalid_symbol_names_the_field() {
    let csv = "account,symbol,date_acquired,quantity,cost_per_share
Taxable,VOODOO,2023/03/27,1,100.47
";
    assert_eq!(
        Err(CsvError::RecordInvalid {
            row: 0,
            cause: Invalid { field: "symbol".into(), reason: Reason::MustHaveShorterLen },
        }),
        csv_to_lot(csv.as_bytes())
    );
}

fn new_lot_of_day(account: &str, symbol: &str, day_of_month: u32, quantity: i64, cost_basis_usd: f64) -> Lot {
    let cost_basis = Currency::new(Decimal::parse(&cost_basis_usd.to_string()).unwrap(), USD).unwrap();
    Lot::new(
        account,
        symbol,
        Date::from_ymd_opt(2023, 3, day_of_month).unwrap(),
        Decimal::new(quantity, 0),
        cost_basis,
    )
    .unwrap()
}

fn expected_lots_by_day() -> Vec<Lot> {
    vec![
        new_lot_of_day("Taxable", "VOO", 27, 1, 100.47),
        new_lot_of_day("IRA", "BND", 28, 2, 200.26),
        new_lot_of_day("IRA", "BND", 29, 3, 300.23),
    ]
}

#[test]
fn csv_digester_test_valid() {
    let result = csv_to_lot(VALID.as_bytes());
    assert_result_vec_eq_fn(&expected_lots_by_day(), &result, |a: &Lot, b: &Lot| a == b);
}

#[test]
fn csv_digester_test_valid_different_column_order() {
    let csv = "date_acquired,cost_per_share,quantity,symbol,account
2023/03/27,100.47,1,VOO,Taxable
2023/03/28,200.26,2,BND,IRA
2023/03/29,300.23,3,BND,IRA
";
    let result = csv_to_lot(csv.as_bytes());
    assert_result_vec_eq_fn(&expected_lots_by_day(), &result, |a: &Lot, b: &Lot| a == b);
}

#[test]
fn csv_digester_test_valid_with_whitespace() {
    let csv = "account , symbol , date_acquired , quantity , cost_per_share
  Taxable  ,  VOO  ,  2023/03/27  ,  1  ,  100.47
IRA,BND,2023/03/28,2,200.26
IRA , BND , 2023/03/29 , 3 , 300.23
";
    let result = csv_to_lot(csv.as_bytes());
    assert_result_vec_eq_fn(&expected_lots_by_day(), &result, |a: &Lot, b: &Lot| a == b);
}

#[test]
fn csv_digester_test_valid_with_capitalized_headers() {
    let csv = "ACCOUNT,Symbol,DATE_ACQUIRED,QUANTITY,COST_PER_SHARE
Taxable,VOO,2023/03/27,1,100.47
IRA,BND,2023/03/28,2,200.26
IRA,BND,2023/03/29,3,300.23
";
    let result = csv_to_lot(csv.as_bytes());
    assert_result_vec_eq_fn(&expected_lots_by_day(), &result, |a: &Lot, b: &Lot| a == b);
}

#[test]
fn csv_digester_test_missing_header() {
    let csv = "Taxable,VOO,2023/03/27,1,100.47
IRA,BND,2023/03/28,2,200.26
";
    let result = csv_to_lot(csv.as_bytes());
    assert_err_eq(CsvError::MissingHeader { name: "account".to_string() }, result);
}

#[test]
fn csv_digester_test_missing_quantity_column() {
    let csv = "account,symbol,date_acquired,cost_per_share
Taxable,VOO,2023/03/27,100.47
";
    let result = csv_to_lot(csv.as_bytes());
    assert_err_eq(CsvError::MissingHeader { name: "quantity".to_string() }, result);
}

#[test]
fn csv_digester_test_row_with_invalid_value() {
    let csv = "account,symbol,date_acquired,quantity,cost_per_share
Taxable,VOO,2023/03/27,1,100.47
IRA,BND,2023/03/28,2,2OO.26
";
    let result = csv_to_lot(csv.as_bytes());
    assert_err_eq(
        CsvError::RecordInvalid { row: 1, cause: Invalid::parse_money_error("cost_basis") },
        result,
    );
}

fn record(fields: &[&str]) -> Vec<String> {
    fields.iter().map(|f| f.to_string()).collect()
}

#[test]
fn lots_from_records_reads_given_records() {
    let rows = vec![
        record(&["Symbol", "account", "quantity", "date_acquired", "cost_per_share"]),
        record(&["VOO", " Taxable ", "1", "2023/03/27", "100.47"]),
    ];
    assert_eq!(Ok(vec![new_lot("Taxable", "VOO", "2023/03/27", 1, "100.47")]), lots_from_records(&rows, None));
    assert_eq!(
        Err(CsvError::RecordError { row: 1, cause: "bad record".to_string() }),
        lots_from_records(&rows, Some((2, "bad record".to_string())))
    );
    assert_eq!(
        Err(CsvError::HeaderError { cause: "bad header".to_string() }),
        lots_from_records(&Vec::new(), Some((0, "bad header".to_string())))
    );
    let short = vec![record(&["account", "symbol", "date_acquired", "quantity", "cost_per_share"]), record(&["IRA"])];
    assert_eq!(
        Err(CsvError::RecordInvalid { row: 0, cause: Invalid::required_str("symbol") }),
        lots_from_records(&short, None)
    );
}
