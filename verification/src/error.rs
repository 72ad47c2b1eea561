use vstd::prelude::*;

verus! {

/// Why an evaluation produced no value process.
///
/// A failure is always reported as one of these, never as a value inside a
/// value process.
#[derive(Debug, Clone, Copy, PartialEq, Eq, Structural)]
pub enum EvalError {
    /// The contract holds a combinator or an observable that has no
    /// evaluation rule: `AnyTime`, a `Time` observable, or an exchange rate
    /// where the market has no rate source.
    UnsupportedCombinator,
    /// The market's rate source has no rate for a currency pair on a date
    /// that the contract needs.
    MissingMarketData,
    /// A value of the contract is too large in magnitude to be held.
    Overflow,
}

} // verus!
