use crate::combinator::Combinator;
use crate::contract::zcb_tree;
use crate::currency::Currency;
use crate::date::Date;
use crate::error::EvalError;
use crate::market::{unit_value, MarketView};
use crate::observable::{observed, Observable};
use crate::process::{
    lemma_negated_twice, lemma_single_day_algebra, lemma_summed_commutes, negated, single, summed,
    sums_in_range,
};
use crate::scalar::{in_range, larger, RandomVariable};
use crate::valuation::eval_model;
use vstd::prelude::*;

verus! {

/// An evaluation that succeeds gives a process that defines the evaluation
/// day and no other, with a value that can be held.
pub proof fn law_defines_the_evaluation_day(tree: Combinator, day: int, market: MarketView)
    ensures
        eval_model(tree, day, market) matches Ok(p) ==> p == single(day, p[day]) && in_range(
            p[day],
        ),
    decreases tree,
{
    match tree {
        Combinator::Zero => {},
        Combinator::One(_) => {},
        Combinator::Give(sub) => {
            law_defines_the_evaluation_day(Combinator::of(sub), day, market);
            if let Ok(m) = eval_model(Combinator::of(sub), day, market) {
                lemma_single_day_algebra(day, m[day], 0, 0);
            }
        },
        Combinator::And(left, right) => {
            law_defines_the_evaluation_day(Combinator::of(left), day, market);
            law_defines_the_evaluation_day(Combinator::of(right), day, market);
            if let Ok(a) = eval_model(Combinator::of(left), day, market) {
                if let Ok(b) = eval_model(Combinator::of(right), day, market) {
                    lemma_single_day_algebra(day, a[day], b[day], 0);
                }
            }
        },
        Combinator::Or(left, right) => {
            law_defines_the_evaluation_day(Combinator::of(left), day, market);
            law_defines_the_evaluation_day(Combinator::of(right), day, market);
            if let Ok(a) = eval_model(Combinator::of(left), day, market) {
                if let Ok(b) = eval_model(Combinator::of(right), day, market) {
                    lemma_single_day_algebra(day, a[day], b[day], 0);
                }
            }
        },
        Combinator::Truncate(_, sub) => {
            law_defines_the_evaluation_day(Combinator::of(sub), day, market);
        },
        Combinator::Then(first, second) => {
            law_defines_the_evaluation_day(Combinator::of(first), day, market);
            if let Ok(a) = eval_model(Combinator::of(first), day, market) {
                lemma_single_day_algebra(day, a[day], 0, 0);
            }
        },
        Combinator::Scale(observable, sub) => {
            law_defines_the_evaluation_day(Combinator::of(sub), day, market);
            if let Ok(m) = eval_model(Combinator::of(sub), day, market) {
                if let Ok(factor) = observed(market, observable, day) {
                    lemma_single_day_algebra(day, m[day], 0, factor);
                }
            }
        },
        Combinator::Get(sub) => {
            law_defines_the_evaluation_day(Combinator::of(sub), day, market);
            if let Ok(m) = eval_model(Combinator::of(sub), day, market) {
                lemma_single_day_algebra(day, m[day], 0, 0);
            }
        },
        Combinator::AnyTime(_) => {},
    }
}

/// Truncation is inclusive: on its expiry a truncated contract is worth
/// what the contract is worth, errors included. On any later day it is
/// worth nothing, whatever the contract holds.
pub proof fn law_truncation_boundary(tree: Combinator, expiry: Date, day: int, market: MarketView)
    ensures
        eval_model(tree.truncate(expiry), expiry@, market) == eval_model(tree, expiry@, market),
        day <= expiry@ ==> eval_model(tree.truncate(expiry), day, market) == eval_model(
            tree,
            day,
            market,
        ),
        day > expiry@ ==> eval_model(tree.truncate(expiry), day, market) == Ok::<
            Map<int, int>,
            EvalError,
        >(single(day, 0)),
{
}

/// Giving a contract twice changes nothing: the value process of
/// `give(give(c))` is that of `c`, and so is its error where `c` fails.
pub proof fn law_give_is_an_involution(tree: Combinator, day: int, market: MarketView)
    ensures
        eval_model(tree.give().give(), day, market) == eval_model(tree, day, market),
{
    assert(eval_model(tree.give(), day, market) == (match eval_model(tree, day, market) {
        Ok(m) => Ok(negated(m)),
        Err(e) => Err(e),
    }));
    if let Ok(m) = eval_model(tree, day, market) {
        lemma_negated_twice(m);
    }
}

/// The order of the two sides of `And` does not matter: where both sides
/// evaluate, `and(c1, c2)` and `and(c2, c1)` come to the same thing, an
/// overflow included. Where a side fails both orders fail, each with the
/// error of the side that it evaluates first.
pub proof fn law_and_commutes(left: Combinator, right: Combinator, day: int, market: MarketView)
    ensures
        eval_model(left, day, market) is Ok && eval_model(right, day, market) is Ok ==> eval_model(
            left.and(right),
            day,
            market,
        ) == eval_model(right.and(left), day, market),
        eval_model(left.and(right), day, market) is Ok <==> eval_model(right.and(left), day, market)
            is Ok,
{
    if let Ok(a) = eval_model(left, day, market) {
        if let Ok(b) = eval_model(right, day, market) {
            lemma_summed_commutes(a, b);
        }
    }
}

/// Scaling distributes over `And`.
///
/// Where `scale(and(c1, c2), k)` evaluates, its value on a day that both
/// `c1` and `c2` define is `k` times the sum of their two values on that
/// day. Where `and(scale(c1, k), scale(c2, k))` evaluates as well, the two
/// are the same process.
pub proof fn law_scale_distributes_over_and(
    left: Combinator,
    right: Combinator,
    factor: RandomVariable,
    day: int,
    market: MarketView,
    shared: int,
)
    ensures
        eval_model(left, day, market) matches Ok(a) ==> (eval_model(right, day, market) matches Ok(
            b,
        ) ==> (eval_model(left.and(right).scale(Observable::Constant(factor)), day, market) matches Ok(
            p,
        ) ==> (a.contains_key(shared) && b.contains_key(shared) ==> p.contains_key(shared)
            && p[shared] == factor * (a[shared] + b[shared])))),
        eval_model(left.and(right).scale(Observable::Constant(factor)), day, market) matches Ok(p)
            ==> (eval_model(
            left.scale(Observable::Constant(factor)).and(right.scale(Observable::Constant(factor))),
            day,
            market,
        ) matches Ok(q) ==> p == q),
{
    let k = Observable::Constant(factor);
    lemma_and_unfolds(left, right, day, market);
    lemma_and_unfolds(left.scale(k), right.scale(k), day, market);
    law_defines_the_evaluation_day(left, day, market);
    law_defines_the_evaluation_day(right, day, market);
    if let Ok(a) = eval_model(left, day, market) {
        if let Ok(b) = eval_model(right, day, market) {
            let x = a[day];
            let y = b[day];
            lemma_single_day_algebra(day, x, y, factor as int);
            lemma_single_day_algebra(day, x + y, 0, factor as int);
            lemma_single_day_algebra(day, y, 0, factor as int);
            lemma_single_day_algebra(day, x * factor, y * factor, 0);
            assert((x + y) * factor == x * factor + y * factor) by (nonlinear_arith);
            assert((x + y) * factor == factor * (x + y)) by (nonlinear_arith);
            if a.contains_key(shared) && b.contains_key(shared) {
                assert(shared == day);
            }
        }
    }
}

/// What `And` comes to, in terms of what its two sides come to.
proof fn lemma_and_unfolds(left: Combinator, right: Combinator, day: int, market: MarketView)
    ensures
        eval_model(left.and(right), day, market) == (match eval_model(left, day, market) {
            Ok(a) => match eval_model(right, day, market) {
                Ok(b) => if sums_in_range(a, b) {
                    Ok(summed(a, b))
                } else {
                    Err(EvalError::Overflow)
                },
                Err(e) => Err(e),
            },
            Err(e) => Err(e),
        }),
{
}

/// `Or` selects the maximum: where both sides evaluate, `or(c1, c2)` is
/// worth the larger of their two values on the evaluation day.
pub proof fn law_or_selects_the_maximum(
    left: Combinator,
    right: Combinator,
    day: int,
    market: MarketView,
)
    ensures
        eval_model(left, day, market) matches Ok(a) ==> (eval_model(right, day, market) matches Ok(
            b,
        ) ==> eval_model(left.or(right), day, market) == Ok::<Map<int, int>, EvalError>(
            single(day, larger(a[day], b[day])),
        )),
{
    law_defines_the_evaluation_day(left, day, market);
    law_defines_the_evaluation_day(right, day, market);
    if let Ok(a) = eval_model(left, day, market) {
        if let Ok(b) = eval_model(right, day, market) {
            lemma_single_day_algebra(day, a[day], b[day], 0);
        }
    }
}

/// What a zero-coupon bond is worth: up to and on its maturity the notional
/// times the worth of one unit of its currency, after its maturity nothing.
pub proof fn law_bond_value(
    maturity: Date,
    notional: RandomVariable,
    currency: Currency,
    day: int,
    market: MarketView,
)
    ensures
        day > maturity@ ==> eval_model(zcb_tree(maturity, notional, currency), day, market) == Ok::<
            Map<int, int>,
            EvalError,
        >(single(day, 0)),
        day <= maturity@ ==> eval_model(zcb_tree(maturity, notional, currency), day, market) == (
        match unit_value(market, currency, day) {
            Ok(unit) => if in_range(unit) && in_range(unit * notional) {
                Ok(single(day, unit * notional))
            } else {
                Err(EvalError::Overflow)
            },
            Err(e) => Err(e),
        }),
        day <= maturity@ && currency == market.home && in_range(notional as int) ==> eval_model(
            zcb_tree(maturity, notional, currency),
            day,
            market,
        ) == Ok::<Map<int, int>, EvalError>(single(day, notional as int)),
{
    let one = Combinator::One(currency);
    let scaled_one = one.scale(Observable::Constant(notional));
    assert(eval_model(one, day, market) == (match unit_value(market, currency, day) {
        Ok(unit) => if in_range(unit) {
            Ok(single(day, unit))
        } else {
            Err(EvalError::Overflow)
        },
        Err(e) => Err(e),
    }));
    if let Ok(unit) = unit_value(market, currency, day) {
        lemma_single_day_algebra(day, unit, 0, notional as int);
    }
    assert(eval_model(scaled_one, day, market) == (match unit_value(market, currency, day) {
        Ok(unit) => if in_range(unit) && in_range(unit * notional) {
            Ok(single(day, unit * notional))
        } else {
            Err(EvalError::Overflow)
        },
        Err(e) => Err(e),
    }));
    assert(zcb_tree(maturity, notional, currency) == scaled_one.truncate(maturity));
}

/// Of two zero-coupon bonds in the home currency that are both alive on a
/// day, `Or` is worth the larger payoff on that day.
pub proof fn law_or_of_bonds(
    first_maturity: Date,
    first_notional: RandomVariable,
    second_maturity: Date,
    second_notional: RandomVariable,
    day: int,
    market: MarketView,
)
    requires
        day <= first_maturity@,
        day <= second_maturity@,
        in_range(first_notional as int),
        in_range(second_notional as int),
    ensures
        eval_model(
            zcb_tree(first_maturity, first_notional, market.home).or(
                zcb_tree(second_maturity, second_notional, market.home),
            ),
            day,
            market,
        ) == Ok::<Map<int, int>, EvalError>(
            single(day, larger(first_notional as int, second_notional as int)),
        ),
{
    law_bond_value(first_maturity, first_notional, market.home, day, market);
    law_bond_value(second_maturity, second_notional, market.home, day, market);
    law_or_selects_the_maximum(
        zcb_tree(first_maturity, first_notional, market.home),
        zcb_tree(second_maturity, second_notional, market.home),
        day,
        market,
    );
}

/// `Then` never leaves its first contract: a value process defines the
/// evaluation day and no other, so the evaluation day is never after its
/// latest day, and `then(c1, c2)` is worth what `c1` is worth.
pub proof fn law_then_keeps_the_first(
    first: Combinator,
    second: Combinator,
    day: int,
    market: MarketView,
)
    ensures
        eval_model(first.and_then(second), day, market) == eval_model(first, day, market),
{
    law_defines_the_evaluation_day(first, day, market);
    if let Ok(a) = eval_model(first, day, market) {
        lemma_single_day_algebra(day, a[day], 0, 0);
    }
}

/// The splice point of `Then` over two zero-coupon bonds, the first of
/// which matures before the second.
///
/// Up to and on the first maturity `then(b1, b2)` is worth what `b1` is
/// worth. After the first maturity it is worth nothing, which is what `b2`
/// is worth exactly where `b2` is worth nothing too, as it is after the
/// second maturity.
pub proof fn law_then_splice_point(
    first_maturity: Date,
    first_notional: RandomVariable,
    first_currency: Currency,
    second_maturity: Date,
    second_notional: RandomVariable,
    second_currency: Currency,
    day: int,
    market: MarketView,
)
    requires
        first_maturity@ < second_maturity@,
    ensures
        ({
            let first = zcb_tree(first_maturity, first_notional, first_currency);
            let second = zcb_tree(second_maturity, second_notional, second_currency);
            let spliced = eval_model(first.and_then(second), day, market);
            &&& day <= first_maturity@ ==> spliced == eval_model(first, day, market)
            &&& day > first_maturity@ ==> spliced == Ok::<Map<int, int>, EvalError>(single(day, 0))
            &&& day > first_maturity@ ==> (spliced == eval_model(second, day, market) <==> eval_model(
                second,
                day,
                market,
            ) == Ok::<Map<int, int>, EvalError>(single(day, 0)))
            &&& day > second_maturity@ ==> spliced == eval_model(second, day, market)
        }),
{
    let first = zcb_tree(first_maturity, first_notional, first_currency);
    let second = zcb_tree(second_maturity, second_notional, second_currency);
    law_then_keeps_the_first(first, second, day, market);
    law_bond_value(first_maturity, first_notional, first_currency, day, market);
    law_bond_value(second_maturity, second_notional, second_currency, day, market);
}

/// `Get` keeps the one value there is: a value process defines the
/// evaluation day and no other, so its terminal value is its only value,
/// and `get(c)` is worth what `c` is worth.
pub proof fn law_get_keeps_the_value(tree: Combinator, day: int, market: MarketView)
    ensures
        eval_model(tree.get(), day, market) == eval_model(tree, day, market),
{
    law_defines_the_evaluation_day(tree, day, market);
    if let Ok(m) = eval_model(tree, day, market) {
        lemma_single_day_algebra(day, m[day], 0, 0);
    }
}

/// `Get` over a zero-coupon bond in the home currency collapses to the
/// notional: evaluated on the maturity it is the notional on the maturity.
/// Evaluated on an earlier day it is the notional on that day, not on the
/// maturity.
pub proof fn law_get_collapses_to_the_terminal_value(
    maturity: Date,
    notional: RandomVariable,
    day: int,
    market: MarketView,
)
    requires
        in_range(notional as int),
    ensures
        ({
            let deferred = eval_model(zcb_tree(maturity, notional, market.home).get(), day, market);
            &&& day <= maturity@ ==> deferred == Ok::<Map<int, int>, EvalError>(
                single(day, notional as int),
            )
            &&& day == maturity@ ==> deferred == Ok::<Map<int, int>, EvalError>(
                single(maturity@, notional as int),
            )
            &&& day < maturity@ ==> deferred != Ok::<Map<int, int>, EvalError>(
                single(maturity@, notional as int),
            )
        }),
{
    law_get_keeps_the_value(zcb_tree(maturity, notional, market.home), day, market);
    law_bond_value(maturity, notional, market.home, day, market);
    if day < maturity@ {
        assert(single(day, notional as int).contains_key(day));
        assert(!single(maturity@, notional as int).contains_key(day));
    }
}

/// `AnyTime` has no evaluation rule: evaluating it is unsupported, whatever
/// it holds.
pub proof fn law_anytime_is_unsupported(tree: Combinator, day: int, market: MarketView)
    ensures
        eval_model(tree.anytime(), day, market) == Err::<Map<int, int>, EvalError>(
            EvalError::UnsupportedCombinator,
        ),
{
}

} // verus!
