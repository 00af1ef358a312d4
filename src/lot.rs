//! Lots: purchases of a security, validated at construction.
use vstd::prelude::*;
use crate::currency::{
    Currency,
    CurrencyError,
    CurrencyFailure,
    CurrencyModel,
    USD,
    currency_product,
    result_view,
};
use crate::date::{Date, date_parse};
use crate::decimal::{Decimal, decimal_parse, parts_in_range, parts_view, opt_parts_view};
use crate::text::{trimmed, trim_start, trim_end, lemma_trimmed_idempotent};
use crate::validate::{
    Invalid,
    Reason,
    trim_and_validate_len,
    validate_positive,
};

verus! {

/// Fewest characters of an account name.
pub const MIN_ACCOUNT_LEN: usize = 1;

/// Most characters of an account name.
pub const MAX_ACCOUNT_LEN: usize = 100;

/// Fewest characters of a ticker symbol.
pub const MIN_SYMBOL_LEN: usize = 1;

/// Most characters of a ticker symbol.
pub const MAX_SYMBOL_LEN: usize = 5;

/// The format of a date of acquisition in text: year/month/day.
pub const DATE_FORMAT: &'static str = "%Y/%m/%d";

/// What a lot is.
pub struct LotModel {
    pub account: Seq<char>,
    pub symbol: Seq<char>,
    pub date_acquired: (int, int, int),
    pub quantity: (int, nat),
    pub cost_basis: CurrencyModel,
}

/// Whether a text is trimmed and has between `min` and `max` characters.
pub open spec fn trimmed_within(s: Seq<char>, min: nat, max: nat) -> bool {
    &&& trimmed(s) == s
    &&& min <= s.len() <= max
}

/// What `Lot::new` gives for its arguments: the first refused field, in the order
/// account, symbol, quantity, cost basis; or the lot with trimmed texts.
pub open spec fn new_lot_spec(
    account: Seq<char>,
    symbol: Seq<char>,
    date_acquired: (int, int, int),
    quantity: (int, nat),
    cost_basis: CurrencyModel,
) -> Result<LotModel, (Seq<char>, Reason)> {
    let a = trimmed(account);
    let s = trimmed(symbol);
    if a.len() < MIN_ACCOUNT_LEN {
        Err(("account"@, Reason::MustHaveLongerLen))
    } else if a.len() > MAX_ACCOUNT_LEN {
        Err(("account"@, Reason::MustHaveShorterLen))
    } else if s.len() < MIN_SYMBOL_LEN {
        Err(("symbol"@, Reason::MustHaveLongerLen))
    } else if s.len() > MAX_SYMBOL_LEN {
        Err(("symbol"@, Reason::MustHaveShorterLen))
    } else if quantity.0 <= 0 {
        Err(("quantity"@, Reason::MustBePositive))
    } else if cost_basis.amount.0 <= 0 {
        Err(("cost_basis"@, Reason::MustBePositive))
    } else {
        Ok(
            LotModel {
                account: a,
                symbol: s,
                date_acquired,
                quantity,
                cost_basis,
            },
        )
    }
}

/// The view of the outcome of building a lot.
pub open spec fn lot_result_view(r: Result<Lot, Invalid>) -> Result<LotModel, (Seq<char>, Reason)> {
    match r {
        Ok(l) => Ok(l@),
        Err(e) => Err((e.field@, e.reason)),
    }
}

/// A text without its leading minus sign, if any.
pub open spec fn unsigned_part(s: Seq<char>) -> Seq<char> {
    if s.len() > 0 && s[0] == '-' {
        s.drop_first()
    } else {
        s
    }
}

/// Whether a character is an ASCII digit.
pub open spec fn is_digit_char(c: char) -> bool {
    '0' <= c && c <= '9'
}

/// The number of ASCII digits of a text.
pub open spec fn digit_count(b: Seq<char>) -> nat
    decreases b.len(),
{
    if b.len() == 0 {
        0
    } else {
        digit_count(b.drop_last()) + if is_digit_char(b.last()) {
            1nat
        } else {
            0nat
        }
    }
}

/// Whether a text is the body of a plain amount: a digit first, then digits and commas,
/// then, optionally, a point and digits (no comma after the point, no point last); 28
/// digits at most.
pub open spec fn plain_digits(b: Seq<char>) -> bool {
    &&& 1 <= b.len()
    &&& is_digit_char(b[0])
    &&& forall|i: int|
        0 <= i < b.len() ==> (is_digit_char(#[trigger] b[i]) || b[i] == ',' || b[i] == '.')
    &&& forall|i: int, j: int|
        0 <= i < b.len() && 0 <= j < b.len() && #[trigger] b[i] == '.' && #[trigger] b[j] == '.'
            ==> i == j
    &&& forall|i: int, j: int|
        0 <= i < j < b.len() && #[trigger] b[i] == '.' ==> #[trigger] b[j] != ','
    &&& b.last() != '.'
    &&& digit_count(b) <= 28
}

/// Whether a text is a plain amount: an optional minus sign, then digits, where commas
/// may group the digits before the point, and at most one point followed by digits; 28
/// digits at most.
pub open spec fn plain_amount(s: Seq<char>) -> bool {
    plain_digits(unsigned_part(s))
}

/// The (mantissa, scale) of the amount that `rusty_money` parses from a text in US
/// dollars, or `None` where the text is refused.
pub uninterp spec fn usd_amount_parse(s: Seq<char>) -> Option<(int, nat)>;

/// What `Lot::from_str` gives: the first text that does not parse, in the order date,
/// quantity, cost basis; else what `Lot::new` gives for the parsed values.
pub open spec fn lot_from_str_spec(
    account: Seq<char>,
    symbol: Seq<char>,
    date: Seq<char>,
    quantity: Seq<char>,
    cost_basis_amount: Seq<char>,
) -> Result<LotModel, (Seq<char>, Reason)> {
    match date_parse(date, DATE_FORMAT@) {
        None => Err(("date"@, Reason::ParseDateError)),
        Some(d) => match decimal_parse(quantity) {
            None => Err(("quantity"@, Reason::ParseDecimalError)),
            Some(q) => if !plain_amount(cost_basis_amount) {
                Err(("cost_basis"@, Reason::ParseMoneyError))
            } else {
                match usd_amount_parse(cost_basis_amount) {
                    None => Err(("cost_basis"@, Reason::ParseMoneyError)),
                    Some(c) => new_lot_spec(
                        account,
                        symbol,
                        d,
                        q,
                        CurrencyModel { amount: c, symbol: USD@ },
                    ),
                }
            },
        },
    }
}

/// An amount of a security purchased on one date, in one account.
#[derive(Debug, PartialEq, Eq)]
pub struct Lot {
    account: String,
    symbol: String,
    date_acquired: Date,
    quantity: Decimal,
    cost_basis: Currency,
}

impl View for Lot {
    type V = LotModel;

    closed spec fn view(&self) -> LotModel {
        LotModel {
            account: self.account@,
            symbol: self.symbol@,
            date_acquired: self.date_acquired@,
            quantity: self.quantity@,
            cost_basis: self.cost_basis@,
        }
    }
}

impl Clone for Lot {
    fn clone(&self) -> (r: Lot)
        ensures
            r@ == self@,
    {
        proof {
            use_type_invariant(self);
        }
        Lot {
            account: self.account.clone(),
            symbol: self.symbol.clone(),
            date_acquired: self.date_acquired,
            quantity: self.quantity,
            cost_basis: self.cost_basis.duplicate(),
        }
    }
}

impl Lot {
    /// Texts are trimmed and within their lengths; quantity and cost basis are above zero.
    #[verifier::type_invariant]
    pub open spec fn well_formed(self) -> bool {
        &&& trimmed_within(self@.account, MIN_ACCOUNT_LEN as nat, MAX_ACCOUNT_LEN as nat)
        &&& trimmed_within(self@.symbol, MIN_SYMBOL_LEN as nat, MAX_SYMBOL_LEN as nat)
        &&& self@.quantity.0 > 0
        &&& self@.cost_basis.amount.0 > 0
    }

    /// A lot; account and symbol are trimmed, and the first field that is out of bounds
    /// is refused.
    pub fn new(
        account: &str,
        symbol: &str,
        date_acquired: Date,
        quantity: Decimal,
        cost_basis: Currency,
    ) -> (r: Result<Lot, Invalid>)
        ensures
            lot_result_view(r) == new_lot_spec(
                account@,
                symbol@,
                date_acquired@,
                quantity@,
                cost_basis@,
            ),
    {
        proof {
            reveal_strlit("account");
            reveal_strlit("symbol");
            reveal_strlit("quantity");
            reveal_strlit("cost_basis");
            lemma_trimmed_idempotent(account@);
            lemma_trimmed_idempotent(symbol@);
        }
        let account = trim_and_validate_len("account", account, MIN_ACCOUNT_LEN, MAX_ACCOUNT_LEN)?;
        let symbol = trim_and_validate_len("symbol", symbol, MIN_SYMBOL_LEN, MAX_SYMBOL_LEN)?;
        validate_positive("quantity", &quantity)?;
        let amount = cost_basis.amount();
        validate_positive("cost_basis", &amount)?;
        Ok(Lot { account, symbol, date_acquired, quantity, cost_basis })
    }

    /// A lot from texts: the date as year/month/day, the quantity as a decimal, the cost
    /// per share as an amount of US dollars; then as `Lot::new`.
    pub fn from_str(
        account: &str,
        symbol: &str,
        date: &str,
        quantity: &str,
        cost_basis_amount: &str,
    ) -> (r: Result<Lot, Invalid>)
        ensures
            lot_result_view(r) == lot_from_str_spec(
                account@,
                symbol@,
                date@,
                quantity@,
                cost_basis_amount@,
            ),
    {
        proof {
            reveal_strlit("date");
            reveal_strlit("quantity");
            reveal_strlit("cost_basis");
        }
        let date = match Date::parse_from_str(date, DATE_FORMAT) {
            Some(d) => d,
            None => return Err(Invalid::parse_date_error("date")),
        };
        let quantity = match Decimal::parse(quantity) {
            Some(q) => q,
            None => return Err(Invalid::parse_decimal_error("quantity")),
        };
        if !is_plain_amount(cost_basis_amount) {
            return Err(Invalid::parse_money_error("cost_basis"));
        }
        let parts = match parse_usd_amount(cost_basis_amount) {
            Some(p) => p,
            None => return Err(Invalid::parse_money_error("cost_basis")),
        };
        let amount = match Decimal::try_from_i128_with_scale(parts.0, parts.1) {
            Some(a) => a,
            None => return Err(Invalid::parse_money_error("cost_basis")),
        };
        proof {
            reveal_strlit("USD");
            assert(trim_start(USD@) == USD@);
            assert(trim_end(USD@) == USD@);
            lemma_trimmed_idempotent(USD@);
        }
        let cost_basis = match Currency::new(amount, USD) {
            Ok(c) => c,
            Err(e) => return Err(e),
        };
        Lot::new(account, symbol, date, quantity, cost_basis)
    }

    /// The account that holds the lot.
    pub fn account(&self) -> (r: &String)
        ensures
            r@ == self@.account,
    {
        &self.account
    }

    /// The ticker symbol of the security.
    pub fn symbol(&self) -> (r: &String)
        ensures
            r@ == self@.symbol,
    {
        &self.symbol
    }

    /// The date of purchase.
    pub fn date_acquired(&self) -> (r: Date)
        ensures
            r@ == self@.date_acquired,
    {
        self.date_acquired
    }

    /// The number of shares.
    pub fn quantity(&self) -> (r: Decimal)
        ensures
            r@ == self@.quantity,
    {
        self.quantity
    }

    /// The cost of one share.
    pub fn cost_basis(&self) -> (r: &Currency)
        ensures
            r@ == self@.cost_basis,
    {
        &self.cost_basis
    }

    /// The cost of the whole lot: quantity times cost basis; fails where it overflows.
    pub fn get_total_cost(&self) -> (r: Result<Currency, CurrencyError<Decimal>>)
        ensures
            result_view(r) == lot_total_cost(self@),
    {
        self.cost_basis.multiply(&self.quantity)
    }
}

/// The cost of a whole lot.
pub open spec fn lot_total_cost(lot: LotModel) -> Result<CurrencyModel, CurrencyFailure<(int, nat)>> {
    currency_product(lot.cost_basis, lot.quantity)
}

/// Whether a text is a plain amount (see `plain_amount`).
pub fn is_plain_amount(s: &str) -> (r: bool)
    ensures
        r == plain_amount(s@),
{
    let mut cs: Vec<char> = Vec::new();
    for c in it: s.chars()
        invariant
            it.seq() == s@,
            cs@ == s@.take(it.index()),
    {
        cs.push(c);
    }
    assert(cs@ == s@);
    let start: usize = if cs.len() > 0 && cs[0] == '-' {
        1
    } else {
        0
    };
    let ghost b = unsigned_part(s@);
    assert(b == cs@.skip(start as int));
    if start >= cs.len() || cs[start] < '0' || cs[start] > '9' || cs[cs.len() - 1] == '.' {
        return false;
    }
    let mut dots: usize = 0;
    let mut digits: usize = 0;
    let mut i: usize = start;
    assert(b.take(0) == Seq::<char>::empty());
    while i < cs.len()
        invariant
            start <= i <= cs.len(),
            b == cs@.skip(start as int),
            b == unsigned_part(s@),
            dots <= 1,
            digits <= i - start,
            digits == digit_count(b.take(i - start)),
            forall|k: int|
                0 <= k < i - start ==> (is_digit_char(#[trigger] b[k]) || b[k] == ',' || b[k]
                    == '.'),
            dots == 0 ==> forall|k: int| 0 <= k < i - start ==> #[trigger] b[k] != '.',
            dots == 1 ==> exists|k: int|
                0 <= k < i - start && #[trigger] b[k] == '.' && (forall|m: int|
                    0 <= m < i - start && m != k ==> #[trigger] b[m] != '.') && (forall|m: int|
                    k < m < i - start ==> #[trigger] b[m] != ','),
        decreases cs.len() - i,
    {
        let c = cs[i];
        let ghost cur = i - start;
        assert(b[cur] == c);
        assert(b.take(cur + 1).drop_last() == b.take(cur));
        assert(b.take(cur + 1).last() == c);
        if c == '.' {
            if dots == 1 {
                proof {
                    let k = choose|k: int|
                        0 <= k < cur && #[trigger] b[k] == '.' && (forall|m: int|
                            0 <= m < cur && m != k ==> #[trigger] b[m] != '.') && (forall|m: int|
                            k < m < cur ==> #[trigger] b[m] != ',');
                    assert(b[k] == '.' && b[cur] == '.' && k != cur);
                    assert(!plain_digits(b));
                }
                return false;
            }
            dots = 1;
            assert(b[cur] == '.');
        } else if c == ',' {
            if dots == 1 {
                proof {
                    let k = choose|k: int|
                        0 <= k < cur && #[trigger] b[k] == '.' && (forall|m: int|
                            0 <= m < cur && m != k ==> #[trigger] b[m] != '.') && (forall|m: int|
                            k < m < cur ==> #[trigger] b[m] != ',');
                    assert(b[k] == '.' && b[cur] == ',' && k < cur);
                    assert(!plain_digits(b));
                }
                return false;
            }
        } else if c < '0' || c > '9' {
            assert(!plain_digits(b));
            return false;
        } else {
            digits = digits + 1;
        }
        i = i + 1;
    }
    assert(b.take(i - start) == b);
    proof {
        if dots == 1 {
            let k = choose|k: int|
                0 <= k < b.len() && #[trigger] b[k] == '.' && (forall|m: int|
                    0 <= m < b.len() && m != k ==> #[trigger] b[m] != '.') && (forall|m: int|
                    k < m < b.len() ==> #[trigger] b[m] != ',');
            assert forall|x: int, y: int|
                0 <= x < y < b.len() && #[trigger] b[x] == '.' implies #[trigger] b[y] != ',' by {
                assert(x == k);
            }
        }
    }
    digits <= 28
}

/// Relies on `rusty_money::Money::from_str` with `iso::USD`, which on a plain amount
/// does not panic (at most 28 digits keep its inner `Decimal::from_str` from failing), and on `Money::amount` with `Decimal::mantissa` and `Decimal::scale`.
#[verifier::external_body]
fn parse_usd_amount(s: &str) -> (r: Option<(i128, u32)>)
    requires
        plain_amount(s@),
    ensures
        opt_parts_view(r) == usd_amount_parse(s@),
        r matches Some(p) ==> parts_in_range(parts_view(p)),
{
    rusty_money::Money::from_str(s, rusty_money::iso::USD).ok().map(
        |m| (m.amount().mantissa(), m.amount().scale()),
    )
}

} // verus!
