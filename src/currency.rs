//! Amounts of money in one currency, with unit-checked and overflow-checked arithmetic.
use vstd::prelude::*;
use crate::decimal::{Decimal, decimal_sum, decimal_product};
use crate::text::{trimmed, lemma_trimmed_idempotent};
use crate::validate::{Invalid, Reason, is_invalid, trim_and_validate_len};

verus! {

/// The unit symbol of the US dollar.
pub const USD: &'static str = "USD";

/// The unit symbol of the Japanese yen.
pub const JPY: &'static str = "JPY";

/// Fewest characters of a unit symbol.
pub const MIN_SYMBOL_LEN: usize = 1;

/// Most characters of a unit symbol.
pub const MAX_SYMBOL_LEN: usize = 5;

/// What a currency value is: an amount as a (mantissa, scale) pair, and a unit symbol.
pub struct CurrencyModel {
    pub amount: (int, nat),
    pub symbol: Seq<char>,
}

/// Whether a text can be the unit symbol of a currency value: trimmed, 1 to 5 characters.
pub open spec fn valid_symbol(s: Seq<char>) -> bool {
    &&& trimmed(s) == s
    &&& MIN_SYMBOL_LEN <= s.len() <= MAX_SYMBOL_LEN
}

/// Why currency arithmetic failed, with its operands; `T` is the right operand's view.
pub enum CurrencyFailure<T> {
    /// The units differ: the left operand's and the right operand's.
    SymbolMismatch { left: Seq<char>, right: Seq<char> },
    /// The result does not fit.
    Overflow { left: CurrencyModel, right: T },
}

/// The sum of two currency values.
pub open spec fn currency_sum(a: CurrencyModel, b: CurrencyModel) -> Result<
    CurrencyModel,
    CurrencyFailure<CurrencyModel>,
> {
    if a.symbol != b.symbol {
        Err(CurrencyFailure::SymbolMismatch { left: a.symbol, right: b.symbol })
    } else {
        match decimal_sum(a.amount, b.amount) {
            Some(v) => Ok(CurrencyModel { amount: v, symbol: a.symbol }),
            None => Err(CurrencyFailure::Overflow { left: a, right: b }),
        }
    }
}

/// A currency value scaled by a decimal factor.
pub open spec fn currency_product(a: CurrencyModel, factor: (int, nat)) -> Result<
    CurrencyModel,
    CurrencyFailure<(int, nat)>,
> {
    match decimal_product(a.amount, factor) {
        Some(v) => Ok(CurrencyModel { amount: v, symbol: a.symbol }),
        None => Err(CurrencyFailure::Overflow { left: a, right: factor }),
    }
}

/// An amount of money tagged with its unit symbol (such as "USD").
#[derive(Debug, PartialEq, Eq)]
pub struct Currency {
    amount: Decimal,
    symbol: String,
}

impl Clone for Currency {
    fn clone(&self) -> (r: Currency)
        ensures
            r@ == self@,
    {
        self.duplicate()
    }
}

impl View for Currency {
    type V = CurrencyModel;

    closed spec fn view(&self) -> CurrencyModel {
        CurrencyModel { amount: self.amount@, symbol: self.symbol@ }
    }
}

/// A failed currency operation, with the operands; `T` is the type of the right operand.
#[derive(Clone, Debug, PartialEq, Eq)]
pub enum CurrencyError<T> {
    SymbolMismatch { left: String, right: String },
    Overflow { left: Currency, right: T, operation: String },
}

impl<T: View> CurrencyError<T> {
    /// Which failure this is, with the views of its operands.
    pub open spec fn failure(self) -> CurrencyFailure<T::V> {
        match self {
            CurrencyError::SymbolMismatch { left, right } => CurrencyFailure::SymbolMismatch {
                left: left@,
                right: right@,
            },
            CurrencyError::Overflow { left, right, .. } => CurrencyFailure::Overflow {
                left: left@,
                right: right@,
            },
        }
    }
}

/// The view of the outcome of a currency operation.
pub open spec fn result_view<T: View>(r: Result<Currency, CurrencyError<T>>) -> Result<
    CurrencyModel,
    CurrencyFailure<T::V>,
> {
    match r {
        Ok(c) => Ok(c@),
        Err(e) => Err(e.failure()),
    }
}

impl Currency {
    /// The unit symbol is trimmed and has 1 to 5 characters.
    #[verifier::type_invariant]
    pub open spec fn well_formed(self) -> bool {
        valid_symbol(self@.symbol)
    }

    /// A currency value; the unit symbol is trimmed, and refused (as the field "unit")
    /// where it then has fewer than 1 or more than 5 characters.
    pub fn new(amount: Decimal, symbol: &str) -> (r: Result<Currency, Invalid>)
        ensures
            trimmed(symbol@).len() < MIN_SYMBOL_LEN ==> (r matches Err(e) && is_invalid(
                e,
                "unit"@,
                Reason::MustHaveLongerLen,
            )),
            trimmed(symbol@).len() > MAX_SYMBOL_LEN ==> (r matches Err(e) && is_invalid(
                e,
                "unit"@,
                Reason::MustHaveShorterLen,
            )),
            valid_symbol(trimmed(symbol@)) ==> r is Ok,
            r matches Ok(c) ==> c@ == (CurrencyModel { amount: amount@, symbol: trimmed(symbol@) }),
    {
        proof {
            lemma_trimmed_idempotent(symbol@);
        }
        let symbol = trim_and_validate_len("unit", symbol, MIN_SYMBOL_LEN, MAX_SYMBOL_LEN)?;
        proof {
            lemma_trimmed_idempotent(symbol@);
        }
        Ok(Currency { amount, symbol })
    }

    /// The amount.
    pub fn amount(&self) -> (r: Decimal)
        ensures
            r@ == self@.amount,
    {
        self.amount
    }

    /// The unit symbol.
    pub fn symbol(&self) -> (r: &String)
        ensures
            r@ == self@.symbol,
    {
        &self.symbol
    }

    /// A copy of this value.
    pub fn duplicate(&self) -> (r: Currency)
        ensures
            r@ == self@,
    {
        proof {
            use_type_invariant(self);
        }
        Currency { amount: self.amount, symbol: self.symbol.clone() }
    }

    /// The zero amount in a unit that a currency value already has.
    pub fn zero_like(&self) -> (r: Currency)
        ensures
            r@ == (CurrencyModel { amount: (0int, 0nat), symbol: self@.symbol }),
    {
        proof {
            use_type_invariant(self);
        }
        Currency { amount: Decimal::zero(), symbol: self.symbol.clone() }
    }

    /// The sum of two values in the same unit; fails where the units differ or the sum
    /// overflows.
    pub fn add(&self, other: &Currency) -> (r: Result<Currency, CurrencyError<Currency>>)
        ensures
            result_view(r) == currency_sum(self@, other@),
            r matches Err(CurrencyError::SymbolMismatch { left, right }) ==> left@ == self@.symbol
                && right@ == other@.symbol,
            r matches Err(CurrencyError::Overflow { left, right, operation }) ==> left@ == self@
                && right@ == other@ && operation@ == "add"@,
    {
        proof {
            use_type_invariant(self);
        }
        if self.symbol != other.symbol {
            return Err(
                CurrencyError::SymbolMismatch {
                    left: self.symbol.clone(),
                    right: other.symbol.clone(),
                },
            );
        }
        match self.amount.checked_add(&other.amount) {
            Some(sum) => Ok(Currency { amount: sum, symbol: self.symbol.clone() }),
            None => {
                proof {
                    reveal_strlit("add");
                }
                Err(
                    CurrencyError::Overflow {
                        left: self.duplicate(),
                        right: other.duplicate(),
                        operation: "add".to_owned(),
                    },
                )
            },
        }
    }

    /// This value scaled by `other`; fails where the product overflows.
    pub fn multiply(&self, other: &Decimal) -> (r: Result<Currency, CurrencyError<Decimal>>)
        ensures
            result_view(r) == currency_product(self@, other@),
            r matches Err(CurrencyError::Overflow { left, right, operation }) ==> left@ == self@
                && right@ == other@ && operation@ == "multiply"@,
    {
        proof {
            use_type_invariant(self);
        }
        match self.amount.checked_mul(other) {
            Some(product) => Ok(Currency { amount: product, symbol: self.symbol.clone() }),
            None => {
                proof {
                    reveal_strlit("multiply");
                }
                Err(
                    CurrencyError::Overflow {
                        left: self.duplicate(),
                        right: *other,
                        operation: "multiply".to_owned(),
                    },
                )
            },
        }
    }
}

} // verus!
