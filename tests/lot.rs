use portools::currency::{Currency, CurrencyError, JPY, USD};
use portools::date::Date;
use portools::decimal::Decimal;
use portools::lot::Lot;
use portools::validate::{Invalid, Reason};

fn dec(s: &str) -> Decimal {
    Decimal::parse(s).unwrap()
}

fn currency_fixture() -> Currency {
    Currency::new(Decimal::new(1, 0), USD).unwrap()
}

fn date_fixture() -> Date {
    Date::from_ymd_opt(2023, 3, 27).unwrap()
}

fn cost_fixture() -> Currency {
    Currency::new(dec("300.64"), USD).unwrap()
}

fn lot_fixture() -> Lot {
    Lot::new("Taxable", "VOO", date_fixture(), Decimal::new(6, 0), cost_fixture()).unwrap()
}

fn invalid(field: &str, reason: Reason) -> Invalid {
    Invalid { field: field.to_string(), reason }
}

fn new_lot(account: &str, symbol: &str, quantity: Decimal, cost_basis: Currency) -> Result<Lot, Invalid> {
    Lot::new(account, symbol, date_fixture(), quantity, cost_basis)
}

#[allow(dead_code)]
fn unused_currency_items(_: CurrencyError<Decimal>) -> &'static str {
    JPY
}

#[test]
fn new_valid() {
    assert_eq!(Ok(lot_fixture()), new_lot("Taxable", "VOO", Decimal::new(6, 0), cost_fixture()));
}

#[test]
fn new_with_negative_quantity() {
    assert_eq!(Err(invalid("quantity", Reason::MustBePositive)), new_lot("Taxable", "VOO", Decimal::new(-1, 0), cost_fixture()));
}

#[test]
fn new_with_zero_cost_basis() {
    assert_eq!(Err(invalid("cost_basis", Reason::MustBePositive)), new_lot("Taxable", "VOO", Decimal::new(6, 0), Currency::new(Decimal::zero(), USD).unwrap()));
}

#[test]
fn new_with_negative_cost_basis() {
    assert_eq!(Err(invalid("cost_basis", Reason::MustBePositive)), new_lot("Taxable", "VOO", Decimal::new(6, 0), Currency::new(Decimal::new(-1, 0), USD).unwrap()));
}

#[test]
fn new_with_zero_quantity() {
    assert_eq!(Err(invalid("quantity", Reason::MustBePositive)), new_lot("Taxable", "VOO", Decimal::zero(), cost_fixture()));
}

#[test]
fn new_with_account_with_whitespace() {
    assert_eq!(Ok(lot_fixture()), new_lot(" Taxable ", "VOO", Decimal::new(6, 0), cost_fixture()));
}

#[test]
fn lot_new_with_symbol_with_whitespace() {
    assert_eq!(Ok(lot_fixture()), new_lot("Taxable", " VOO ", Decimal::new(6, 0), cost_fixture()));
}

#[test]
fn new_with_account_too_short() {
    assert_eq!(Err(invalid("account", Reason::MustHaveLongerLen)), new_lot("", "VOO", Decimal::new(6, 0), cost_fixture()));
}

#[test]
fn new_with_account_too_long() {
    let account: String = (0..101).map(|_| "X").collect();
    assert_eq!(Err(invalid("account", Reason::MustHaveShorterLen)), new_lot(&account, "VOO", Decimal::new(6, 0), cost_fixture()));
}

#[test]
fn lot_new_with_symbol_too_short() {
    assert_eq!(Err(invalid("symbol", Reason::MustHaveLongerLen)), new_lot("Taxable", "", Decimal::new(6, 0), cost_fixture()));
}

#[test]
fn lot_new_with_symbol_too_long() {
    assert_eq!(Err(invalid("symbol", Reason::MustHaveShorterLen)), new_lot("Taxable", "VOODOO", Decimal::new(6, 0), cost_fixture()));
}

#[test]
fn from_str_valid() {
    let lot = Lot::from_str("Taxable", "VOO", "2023/03/27", "6", "300.64");
    assert_eq!(Ok(lot_fixture()), lot);
}

#[test]
fn from_str_with_date_with_invalid_format() {
    let lot = Lot::from_str("Taxable", "VOO", "2023-03-27", "6", "300.64");
    let e = lot.unwrap_err();
    assert_eq!("date", e.field);
    assert_eq!(Reason::ParseDateError, e.reason);
}

#[test]
fn from_str_with_quantity_not_an_decimal() {
    let lot = Lot::from_str("Taxable", "VOO", "2023/03/27", "not a number", "300.64");
    let e = lot.unwrap_err();
    assert_eq!("quantity", e.field);
    assert_eq!(Reason::ParseDecimalError, e.reason);
}

#[test]
fn from_str_with_cost_basis_not_an_number() {
    let lot = Lot::from_str("Taxable", "VOO", "2023/03/27", "6", "not a number");
    let e = lot.unwrap_err();
    assert_eq!("cost_basis", e.field);
    assert_eq!(Reason::ParseMoneyError, e.reason);
}

#[test]
fn model_lot_new_valid() {
    assert_eq!(Ok(lot_fixture()), new_lot("Taxable", "VOO", Decimal::new(6, 0), cost_fixture()));
}

#[test]
fn model_lot_new_with_negative_quantity() {
    assert_eq!(Err(invalid("quantity", Reason::MustBePositive)), new_lot("Taxable", "VOO", Decimal::new(-1, 0), cost_fixture()));
}

#[test]
fn model_lot_new_with_zero_cost_basis() {
    assert_eq!(Err(invalid("cost_basis", Reason::MustBePositive)), new_lot("Taxable", "VOO", Decimal::new(6, 0), Currency::new(Decimal::zero(), USD).unwrap()));
}

#[test]
fn model_lot_new_with_negative_cost_basis() {
    assert_eq!(Err(invalid("cost_basis", Reason::MustBePositive)), new_lot("Taxable", "VOO", Decimal::new(6, 0), Currency::new(Decimal::new(-1, 0), USD).unwrap()));
}

#[test]
fn model_lot_new_with_zero_quantity() {
    assert_eq!(Err(invalid("quantity", Reason::MustBePositive)), new_lot("Taxable", "VOO", Decimal::zero(), cost_fixture()));
}

#[test]
fn model_lot_new_account_with_whitespace() {
    assert_eq!(Ok(lot_fixture()), new_lot(" Taxable ", "VOO", Decimal::new(6, 0), cost_fixture()));
}

#[test]
fn model_lot_new_symbol_with_whitespace() {
    assert_eq!(Ok(lot_fixture()), new_lot("Taxable", " VOO ", Decimal::new(6, 0), cost_fixture()));
}

#[test]
fn model_lot_new_account_too_short() {
    assert_eq!(Err(invalid("account", Reason::MustHaveLongerLen)), new_lot("", "VOO", Decimal::new(6, 0), cost_fixture()));
}

#[test]
fn model_lot_new_account_too_long() {
    let account: String = (0..101).map(|_| "X").collect();
    assert_eq!(Err(invalid("account", Reason::MustHaveShorterLen)), new_lot(&account, "VOO", Decimal::new(6, 0), cost_fixture()));
}

#[test]
fn model_lot_new_symbol_too_short() {
    assert_eq!(Err(invalid("symbol", Reason::MustHaveLongerLen)), new_lot("Taxable", "", Decimal::new(6, 0), cost_fixture()));
}

#[test]
fn model_lot_new_symbol_too_long() {
    assert_eq!(Err(invalid("symbol", Reason::MustHaveShorterLen)), new_lot("Taxable", "VOODOO", Decimal::new(6, 0), cost_fixture()));
}

#[test]
fn model_lot_from_str_valid() {
    let lot = Lot::from_str("Taxable", "VOO", "2023/03/27", "6", "300.64");
    assert_eq!(Ok(lot_fixture()), lot);
}

#[test]
fn model_lot_from_str_with_date_with_invalid_format() {
    let lot = Lot::from_str("Taxable", "VOO", "2023-03-27", "6", "300.64");
    let e = lot.unwrap_err();
    assert_eq!("date", e.field);
    assert_eq!(Reason::ParseDateError, e.reason);
}

#[test]
fn model_lot_from_str_with_quantity_not_an_decimal() {
    let lot = Lot::from_str("Taxable", "VOO", "2023/03/27", "not a number", "300.64");
    let e = lot.unwrap_err();
    assert_eq!("quantity", e.field);
    assert_eq!(Reason::ParseDecimalError, e.reason);
}

#[test]
fn model_lot_from_str_with_cost_basis_not_an_number() {
    let lot = Lot::from_str("Taxable", "VOO", "2023/03/27", "6", "not a number");
    let e = lot.unwrap_err();
    assert_eq!("cost_basis", e.field);
    assert_eq!(Reason::ParseMoneyError, e.reason);
}

#[test]
fn portfolio_lot_new_valid() {
    assert_eq!(Ok(lot_fixture()), new_lot("Taxable", "VOO", Decimal::new(6, 0), cost_fixture()));
}

#[test]
fn portfolio_lot_new_with_negative_quantity() {
    assert!(new_lot("Taxable", "VOO", Decimal::new(-1, 0), cost_fixture()).is_err());
}

#[test]
fn portfolio_lot_new_with_zero_cost_basis() {
    assert!(new_lot("Taxable", "VOO", Decimal::new(6, 0), Currency::new(Decimal::zero(), USD).unwrap()).is_err());
}

#[test]
fn portfolio_lot_new_with_negative_cost_basis() {
    assert!(new_lot("Taxable", "VOO", Decimal::new(6, 0), Currency::new(Decimal::new(-1, 0), USD).unwrap()).is_err());
}

#[test]
fn portfolio_lot_new_with_zero_quantity() {
    assert!(new_lot("Taxable", "VOO", Decimal::zero(), cost_fixture()).is_err());
}

#[test]
fn portfolio_lot_new_account_with_whitespace() {
    assert_eq!(Ok(lot_fixture()), new_lot(" Taxable ", "VOO", Decimal::new(6, 0), cost_fixture()));
}

#[test]
fn portfolio_lot_new_symbol_with_whitespace() {
    assert_eq!(Ok(lot_fixture()), new_lot("Taxable", " VOO ", Decimal::new(6, 0), cost_fixture()));
}

#[test]
fn portfolio_lot_new_account_too_short() {
    assert!(new_lot("", "VOO", Decimal::new(6, 0), cost_fixture()).is_err());
}

#[test]
fn portfolio_lot_new_account_too_long() {
    let account: String = (0..101).map(|_| "X").collect();
    assert!(new_lot(&account, "VOO", Decimal::new(6, 0), cost_fixture()).is_err());
}

#[test]
fn portfolio_lot_new_symbol_too_short() {
    assert!(new_lot("Taxable", "", Decimal::new(6, 0), cost_fixture()).is_err());
}

#[test]
fn portfolio_lot_new_symbol_too_long() {
    assert!(new_lot("Taxable", "VOODOO", Decimal::new(6, 0), cost_fixture()).is_err());
}

#[test]
fn get_total_cost_basic() {
    let lot = Lot::new("Taxable", "VOO", date_fixture(), Decimal::new(5, 0), Currency::new(dec("100.20"), USD).unwrap()).unwrap();
    assert_eq!(Ok(Currency::new(dec("501.00"), USD).unwrap()), lot.get_total_cost());
}

#[test]
fn lot_new_account_of_one_hundred_chars() {
    let account: String = (0..100).map(|_| "X").collect();
    assert!(new_lot(&account, "VOO", Decimal::new(6, 0), cost_fixture()).is_ok());
}

#[test]
fn lot_new_account_counts_characters_not_bytes() {
    let account: String = (0..100).map(|_| "\u{e9}").collect();
    assert!(new_lot(&account, "VOO", Decimal::new(6, 0), cost_fixture()).is_ok());
}

#[test]
fn lot_from_str_with_invalid_calendar_date() {
    let e = Lot::from_str("Taxable", "VOO", "2023/02/30", "6", "300.64").unwrap_err();
    assert_eq!(invalid("date", Reason::ParseDateError), e);
}

#[test]
fn lot_from_str_keeps_cents_of_whole_amount() {
    let lot = Lot::from_str("Taxable", "VOO", "2023/03/27", "6", "300").unwrap();
    assert_eq!(30000, lot.cost_basis().amount().mantissa());
    assert_eq!(2, lot.cost_basis().amount().scale());
    assert_eq!(Date::from_ymd_opt(2023, 3, 27).unwrap(), lot.date_acquired());
}

#[test]
fn lot_from_str_with_negative_cost_basis() {
    let e = Lot::from_str("Taxable", "VOO", "2023/03/27", "6", "-300.64").unwrap_err();
    assert_eq!(invalid("cost_basis", Reason::MustBePositive), e);
}

#[test]
fn date_from_ymd_opt_leap_years() {
    assert!(Date::from_ymd_opt(2024, 2, 29).is_some());
    assert!(Date::from_ymd_opt(2023, 2, 29).is_none());
    assert!(Date::from_ymd_opt(1900, 2, 29).is_none());
    assert!(Date::from_ymd_opt(2000, 2, 29).is_some());
    assert!(Date::from_ymd_opt(2023, 13, 1).is_none());
    assert!(Date::from_ymd_opt(2023, 4, 31).is_none());
}

#[test]
fn decimal_parse_values() {
    let d = dec("-12.345");
    assert_eq!(-12345, d.mantissa());
    assert_eq!(3, d.scale());
    assert!(Decimal::parse("twelve").is_none());
}

#[test]
fn invalid_constructors_name_field_and_reason() {
    assert_eq!(invalid("a", Reason::Required), Invalid::required("a".to_string()));
    assert_eq!(invalid("b", Reason::Required), Invalid::required_str("b"));
    assert_eq!(invalid("c", Reason::ParseDecimalError), Invalid::parse_decimal_error("c"));
    assert_eq!(invalid("d", Reason::ParseMoneyError), Invalid::parse_money_error("d"));
    assert_eq!(invalid("e", Reason::ParseDateError), Invalid::parse_date_error("e"));
}

#[test]
fn lot_from_str_with_longest_plain_amount() {
    let amount: String = (0..28).map(|_| "1").collect();
    assert!(Lot::from_str("Taxable", "VOO", "2023/03/27", "6", &amount).is_ok());
}

#[test]
fn lot_from_str_with_too_long_amount() {
    let amount: String = (0..29).map(|_| "9").collect();
    let e = Lot::from_str("Taxable", "VOO", "2023/03/27", "6", &amount).unwrap_err();
    assert_eq!(invalid("cost_basis", Reason::ParseMoneyError), e);
}

#[test]
fn decimal_equality_is_by_value() {
    assert_eq!(Decimal::new(1, 0), Decimal::new(10, 1));
    assert_eq!(dec("1803.84"), dec("1803.840"));
    assert_eq!(Decimal::zero(), Decimal::new(0, 5));
    assert_ne!(Decimal::new(1, 0), Decimal::new(-1, 0));
    assert_ne!(Decimal::new(1, 1), Decimal::new(1, 2));
    assert_eq!(Decimal::new(-25, 1), dec("-2.50"));
}

#[test]
fn lot_from_str_with_grouped_amount() {
    let lot = Lot::from_str("Taxable", "VOO", "2023/03/27", "6", "1,000.25").unwrap();
    assert_eq!(dec("1000.25"), lot.cost_basis().amount());
    let e = Lot::from_str("Taxable", "VOO", "2023/03/27", "6", "1,00").unwrap_err();
    assert_eq!(invalid("cost_basis", Reason::ParseMoneyError), e);
    let e = Lot::from_str("Taxable", "VOO", "2023/03/27", "6", "1.000,25").unwrap_err();
    assert_eq!(invalid("cost_basis", Reason::ParseMoneyError), e);
}
