use crate::currency::Currency;
use crate::date::Date;
use crate::error::EvalError;
use crate::market::{exchange_rate, Market, MarketView};
use crate::scalar::RandomVariable;
use vstd::prelude::*;

verus! {

/// A quantity that is resolved on a date, used to scale the payoffs of a
/// contract.
#[derive(Debug, Clone, Copy, PartialEq, Eq, Structural)]
pub enum Observable {
    /// A fixed value, the same on every date.
    Constant(RandomVariable),
    /// The rate of the first currency against the second, as the market
    /// quotes it on the date.
    ExchangeRate(Currency, Currency),
    /// A date used as a value. Reserved: it has no resolution rule.
    Time(Date),
}

/// What `observable` resolves to on `day`.
///
/// A constant resolves to itself and an exchange rate to what the market
/// quotes. A `Time` observable is unsupported, whatever the market holds.
pub open spec fn observed(market: MarketView, observable: Observable, day: int) -> Result<
    int,
    EvalError,
> {
    match observable {
        Observable::Constant(v) => Ok(v as int),
        Observable::ExchangeRate(from, to) => exchange_rate(market, from, to, day),
        Observable::Time(_) => Err(EvalError::UnsupportedCombinator),
    }
}

impl Observable {
    /// Resolves the observable on `date` against `market`.
    pub fn resolve(&self, date: Date, market: &Market) -> (r: Result<RandomVariable, EvalError>)
        ensures
            match r {
                Ok(v) => observed(market@, *self, date@) == Ok::<int, EvalError>(v as int),
                Err(e) => observed(market@, *self, date@) == Err::<int, EvalError>(e),
            },
    {
        match self {
            Observable::Constant(v) => Ok(*v),
            Observable::ExchangeRate(from, to) => market.rate(*from, *to, date),
            Observable::Time(_) => Err(EvalError::UnsupportedCombinator),
        }
    }
}

} // verus!
