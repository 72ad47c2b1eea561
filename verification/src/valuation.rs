use crate::combinator::Combinator;
use crate::contract::Contract;
use crate::currency::Currency;
use crate::date::Date;
use crate::error::EvalError;
use crate::market::{unit_value, Market, MarketView};
use crate::observable::observed;
use crate::process::{
    extended, latest, maxed, negated, scaled, scales_in_range, single, summed, sums_in_range,
    terminal, ValueProcess,
};
use crate::scalar::{in_range, RandomVariable};
use vstd::prelude::*;

verus! {

/// What an evaluation came to, as mathematics: the map from day numbers to
/// values that the value process holds, or the error.
pub open spec fn outcome(r: Result<ValueProcess, EvalError>) -> Result<Map<int, int>, EvalError> {
    match r {
        Ok(p) => Ok(p@),
        Err(e) => Err(e),
    }
}

/// The meaning of a combinator tree: its value process on the evaluation
/// day `day`, against `market`.
///
/// Each arm is the evaluation rule of one combinator. A sub-tree that fails
/// makes the whole evaluation fail with the same error; of two sub-trees
/// the left one is evaluated first. A sub-tree that a rule does not need is
/// not evaluated, so what is wrong with it is not reported. A value that
/// cannot be held is an overflow.
pub open spec fn eval_model(tree: Combinator, day: int, market: MarketView) -> Result<
    Map<int, int>,
    EvalError,
>
    decreases tree,
{
    match tree {
        Combinator::Zero => Ok(single(day, 0)),
        Combinator::One(currency) => match unit_value(market, currency, day) {
            Ok(v) => if in_range(v) {
                Ok(single(day, v))
            } else {
                Err(EvalError::Overflow)
            },
            Err(e) => Err(e),
        },
        Combinator::Give(sub) => match eval_model(*sub, day, market) {
            Ok(m) => Ok(negated(m)),
            Err(e) => Err(e),
        },
        Combinator::And(left, right) => match eval_model(*left, day, market) {
            Ok(a) => match eval_model(*right, day, market) {
                Ok(b) => if sums_in_range(a, b) {
                    Ok(summed(a, b))
                } else {
                    Err(EvalError::Overflow)
                },
                Err(e) => Err(e),
            },
            Err(e) => Err(e),
        },
        Combinator::Or(left, right) => match eval_model(*left, day, market) {
            Ok(a) => match eval_model(*right, day, market) {
                Ok(b) => Ok(maxed(a, b)),
                Err(e) => Err(e),
            },
            Err(e) => Err(e),
        },
        Combinator::Truncate(expiry, sub) => if day <= expiry@ {
            eval_model(*sub, day, market)
        } else {
            Ok(single(day, 0))
        },
        Combinator::Then(first, second) => match eval_model(*first, day, market) {
            Ok(a) => if latest(a) matches Some(expiry) && day > expiry {
                match eval_model(*second, day, market) {
                    Ok(b) => Ok(extended(a, b)),
                    Err(e) => Err(e),
                }
            } else {
                Ok(a)
            },
            Err(e) => Err(e),
        },
        Combinator::Scale(observable, sub) => match observed(market, observable, day) {
            Ok(factor) => match eval_model(*sub, day, market) {
                Ok(m) => if scales_in_range(m, factor) {
                    Ok(scaled(m, factor))
                } else {
                    Err(EvalError::Overflow)
                },
                Err(e) => Err(e),
            },
            Err(e) => Err(e),
        },
        Combinator::Get(sub) => match eval_model(*sub, day, market) {
            Ok(m) => Ok(terminal(m)),
            Err(e) => Err(e),
        },
        Combinator::AnyTime(_) => Err(EvalError::UnsupportedCombinator),
    }
}

/// The value process of `contract` on `date`, against `market`.
///
/// The result is what the evaluation rules give, and an error exactly where
/// they give one: an unsupported combinator for `AnyTime`, for a `Time`
/// observable and for an exchange rate asked of a market without a rate
/// source; missing market data for a rate that the source does not quote;
/// an overflow for a value that cannot be held.
pub fn eval(contract: &Contract, date: Date, market: &Market) -> (r: Result<ValueProcess, EvalError>)
    ensures
        outcome(r) == eval_model(contract@, date@, market@),
{
    eval_combinator(contract.combinator(), date, market)
}

/// The value process of the tree `combinator` on `evaluation_date`, against
/// `market`, by recursion over the tree.
pub fn eval_combinator(combinator: &Combinator, evaluation_date: Date, market: &Market) -> (r:
    Result<ValueProcess, EvalError>)
    ensures
        outcome(r) == eval_model(*combinator, evaluation_date@, market@),
    decreases *combinator,
{
    match combinator {
        Combinator::Zero => ValueProcess::single(evaluation_date, 0),
        Combinator::One(currency) => match market.unit_value(*currency, evaluation_date) {
            Ok(v) => ValueProcess::single(evaluation_date, v),
            Err(e) => Err(e),
        },
        Combinator::Give(sub) => match eval_combinator(sub, evaluation_date, market) {
            Ok(value) => Ok(value.negated()),
            Err(e) => Err(e),
        },
        Combinator::And(left, right) => {
            match eval_combinator(left, evaluation_date, market) {
                Ok(left_value) => match eval_combinator(right, evaluation_date, market) {
                    Ok(right_value) => left_value.sum_with(&right_value),
                    Err(e) => Err(e),
                },
                Err(e) => Err(e),
            }
        },
        Combinator::Or(left, right) => {
            match eval_combinator(left, evaluation_date, market) {
                Ok(left_value) => match eval_combinator(right, evaluation_date, market) {
                    Ok(right_value) => Ok(left_value.max_with(&right_value)),
                    Err(e) => Err(e),
                },
                Err(e) => Err(e),
            }
        },
        Combinator::Scale(observable, sub) => {
            match observable.resolve(evaluation_date, market) {
                Ok(factor) => match eval_combinator(sub, evaluation_date, market) {
                    Ok(value) => value.scaled(factor),
                    Err(e) => Err(e),
                },
                Err(e) => Err(e),
            }
        },
        Combinator::Truncate(expiry, sub) => {
            if evaluation_date.is_on_or_before(*expiry) {
                eval_combinator(sub, evaluation_date, market)
            } else {
                ValueProcess::single(evaluation_date, 0)
            }
        },
        Combinator::Then(first, second) => {
            match eval_combinator(first, evaluation_date, market) {
                Ok(first_value) => match first_value.latest_date() {
                    Some(expiry) => {
                        if evaluation_date.is_after(expiry) {
                            match eval_combinator(second, evaluation_date, market) {
                                Ok(second_value) => Ok(first_value.extended_by(&second_value)),
                                Err(e) => Err(e),
                            }
                        } else {
                            Ok(first_value)
                        }
                    },
                    None => Ok(first_value),
                },
                Err(e) => Err(e),
            }
        },
        Combinator::Get(sub) => match eval_combinator(sub, evaluation_date, market) {
            Ok(value) => Ok(value.terminal()),
            Err(e) => Err(e),
        },
        Combinator::AnyTime(_) => Err(EvalError::UnsupportedCombinator),
    }
}

/// The value process of the exchange rate between two currencies.
///
/// An extension point: there is no rule for it yet, so the answer is always
/// that it is unsupported, never a made-up process.
#[allow(unused_variables)]
pub fn exch(home_currency: Currency, foreign_currency: Currency) -> (r: Result<
    ValueProcess,
    EvalError,
>)
    ensures
        outcome(r) == Err::<Map<int, int>, EvalError>(EvalError::UnsupportedCombinator),
{
    Err(EvalError::UnsupportedCombinator)
}

/// The value process of `quantity`, due on `date`, discounted to the
/// present.
///
/// An extension point: there is no rule for it yet, so the answer is always
/// that it is unsupported, never a made-up process.
#[allow(unused_variables)]
pub fn disc(quantity: RandomVariable, date: Date) -> (r: Result<ValueProcess, EvalError>)
    ensures
        outcome(r) == Err::<Map<int, int>, EvalError>(EvalError::UnsupportedCombinator),
{
    Err(EvalError::UnsupportedCombinator)
}

} // verus!
