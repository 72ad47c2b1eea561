use composing_contract_rs::contract::{zcb, Contract};
use composing_contract_rs::currency::Currency;
use composing_contract_rs::date::Date;
use composing_contract_rs::error::EvalError;
use composing_contract_rs::interest_rate::InterestRateModel;
use composing_contract_rs::market::Market;
use composing_contract_rs::observable::Observable;
use composing_contract_rs::process::ValueProcess;
use composing_contract_rs::valuation::{disc, eval, eval_combinator, exch};

fn single(date: Date, value: i64) -> ValueProcess {
    ValueProcess::single(date, value).unwrap()
}

fn usd() -> Market {
    Market::new(Currency::Usd)
}

fn units(value: i64) -> Contract {
    Contract::one(Currency::Usd).scale(Observable::Constant(value))
}

#[test]
fn zero_is_worth_nothing_on_the_evaluation_date() {
    let d = Date::from_days(1000);
    let value = eval(&Contract::new(), d, &usd()).unwrap();
    assert_eq!(value, single(d, 0));
    assert_eq!(value.len(), 1);
}

#[test]
fn one_in_the_home_currency_is_worth_one() {
    let d = Date::from_days(1000);
    assert_eq!(eval(&Contract::one(Currency::Usd), d, &usd()), Ok(single(d, 1)));
    let gbp = Market::new(Currency::Gbp);
    assert_eq!(eval(&Contract::one(Currency::Gbp), d, &gbp), Ok(single(d, 1)));
}

#[test]
fn one_in_a_foreign_currency_is_worth_the_quoted_rate() {
    let d = Date::from_days(1000);
    let market = Market::with_rates(Currency::Usd)
        .quote(Currency::Gbp, Currency::Usd, d, 3)
        .quote(Currency::Eur, Currency::Usd, d, 2)
        .quote(Currency::Usd, Currency::Gbp, d, 9);
    assert_eq!(eval(&Contract::one(Currency::Gbp), d, &market), Ok(single(d, 3)));
    assert_eq!(eval(&Contract::one(Currency::Eur), d, &market), Ok(single(d, 2)));
    assert_eq!(eval(&Contract::one(Currency::Usd), d, &market), Ok(single(d, 1)));
}

#[test]
fn one_in_a_foreign_currency_without_a_rate_source_is_unsupported() {
    let d = Date::from_days(1000);
    assert_eq!(
        eval(&Contract::one(Currency::Gbp), d, &usd()),
        Err(EvalError::UnsupportedCombinator)
    );
}

#[test]
fn one_in_a_foreign_currency_without_a_quote_is_missing_market_data() {
    let d = Date::from_days(1000);
    let other_day = Date::from_days(1001);
    let empty = Market::with_rates(Currency::Usd);
    assert_eq!(
        eval(&Contract::one(Currency::Gbp), d, &empty),
        Err(EvalError::MissingMarketData)
    );
    let market = Market::with_rates(Currency::Usd)
        .quote(Currency::Gbp, Currency::Usd, other_day, 3)
        .quote(Currency::Usd, Currency::Gbp, d, 3)
        .quote(Currency::Eur, Currency::Usd, d, 3);
    assert_eq!(
        eval(&Contract::one(Currency::Gbp), d, &market),
        Err(EvalError::MissingMarketData)
    );
    assert_eq!(
        eval(&Contract::one(Currency::Gbp), other_day, &market),
        Ok(single(other_day, 3))
    );
}

#[test]
fn give_negates_the_value() {
    let d = Date::from_days(7);
    assert_eq!(eval(&units(42).give(), d, &usd()), Ok(single(d, -42)));
    assert_eq!(eval(&Contract::new().give(), d, &usd()), Ok(single(d, 0)));
}

#[test]
fn give_twice_is_the_contract_itself() {
    let d = Date::from_days(7);
    let market = usd();
    let bond = zcb(Date::from_days(9), 42, Currency::Usd);
    assert_eq!(
        eval(&bond.clone().give().give(), d, &market),
        eval(&bond, d, &market)
    );
    assert_eq!(eval(&bond.clone().give().give(), d, &market), Ok(single(d, 42)));
    let broken = Contract::one(Currency::Eur);
    assert_eq!(
        eval(&broken.clone().give().give(), d, &market),
        eval(&broken, d, &market)
    );
    assert_eq!(
        eval(&broken.give().give(), d, &market),
        Err(EvalError::UnsupportedCombinator)
    );
}

#[test]
fn and_sums_the_two_values() {
    let d = Date::from_days(7);
    let market = usd();
    assert_eq!(eval(&units(30).and(units(12)), d, &market), Ok(single(d, 42)));
    assert_eq!(eval(&units(30).and(units(12).give()), d, &market), Ok(single(d, 18)));
}

#[test]
fn and_is_worth_the_live_contract_when_the_other_has_expired() {
    let early = Date::from_days(10);
    let late = Date::from_days(20);
    let market = usd();
    let both = zcb(early, 30, Currency::Usd).and(zcb(late, 12, Currency::Usd));
    assert_eq!(eval(&both, Date::from_days(10), &market), Ok(single(Date::from_days(10), 42)));
    assert_eq!(eval(&both, Date::from_days(11), &market), Ok(single(Date::from_days(11), 12)));
    assert_eq!(eval(&both, Date::from_days(21), &market), Ok(single(Date::from_days(21), 0)));
}

#[test]
fn and_does_not_depend_on_the_order_of_its_sides() {
    let d = Date::from_days(7);
    let market = usd();
    let forth = units(30).and(units(12));
    let back = units(12).and(units(30));
    assert_eq!(eval(&forth, d, &market), eval(&back, d, &market));
    let big = i64::MAX;
    assert_eq!(
        eval(&units(big).and(units(1)), d, &market),
        eval(&units(1).and(units(big)), d, &market)
    );
}

#[test]
fn scale_distributes_over_and() {
    let d = Date::from_days(7);
    let market = usd();
    let scaled_sum = units(30).and(units(12)).scale(Observable::Constant(5));
    assert_eq!(eval(&scaled_sum, d, &market), Ok(single(d, 5 * (30 + 12))));
    let sum_of_scaled = units(30)
        .scale(Observable::Constant(5))
        .and(units(12).scale(Observable::Constant(5)));
    assert_eq!(eval(&sum_of_scaled, d, &market), Ok(single(d, 210)));
}

#[test]
fn or_selects_the_larger_value() {
    let d = Date::from_days(7);
    let market = usd();
    let first = zcb(Date::from_days(10), 30, Currency::Usd);
    let second = zcb(Date::from_days(20), 12, Currency::Usd);
    assert_eq!(eval(&first.clone().or(second.clone()), d, &market), Ok(single(d, 30)));
    assert_eq!(eval(&second.clone().or(first.clone()), d, &market), Ok(single(d, 30)));
    let after_first = Date::from_days(11);
    assert_eq!(
        eval(&first.or(second), after_first, &market),
        Ok(single(after_first, 12))
    );
    assert_eq!(eval(&units(-3).or(units(-8)), d, &market), Ok(single(d, -3)));
    assert_eq!(eval(&units(-3).or(Contract::new()), d, &market), Ok(single(d, 0)));
}

#[test]
fn scale_multiplies_by_a_constant() {
    let d = Date::from_days(7);
    let market = usd();
    assert_eq!(eval(&units(6).scale(Observable::Constant(7)), d, &market), Ok(single(d, 42)));
    assert_eq!(eval(&units(6).scale(Observable::Constant(-7)), d, &market), Ok(single(d, -42)));
    assert_eq!(eval(&units(6).scale(Observable::Constant(0)), d, &market), Ok(single(d, 0)));
}

#[test]
fn scale_multiplies_by_a_quoted_exchange_rate() {
    let d = Date::from_days(7);
    let market = Market::with_rates(Currency::Usd).quote(Currency::Eur, Currency::Gbp, d, 4);
    let scaled = units(6).scale(Observable::ExchangeRate(Currency::Eur, Currency::Gbp));
    assert_eq!(eval(&scaled, d, &market), Ok(single(d, 24)));
}

#[test]
fn scale_by_an_exchange_rate_fails_without_a_rate() {
    let d = Date::from_days(7);
    let scaled = units(6).scale(Observable::ExchangeRate(Currency::Eur, Currency::Gbp));
    assert_eq!(eval(&scaled, d, &usd()), Err(EvalError::UnsupportedCombinator));
    let same = units(6).scale(Observable::ExchangeRate(Currency::Usd, Currency::Usd));
    assert_eq!(eval(&same, d, &usd()), Err(EvalError::UnsupportedCombinator));
    let no_quote = Market::with_rates(Currency::Usd).quote(Currency::Gbp, Currency::Eur, d, 4);
    assert_eq!(eval(&scaled, d, &no_quote), Err(EvalError::MissingMarketData));
}

#[test]
fn scale_by_a_time_observable_is_unsupported() {
    let d = Date::from_days(7);
    let scaled = units(6).scale(Observable::Time(d));
    assert_eq!(eval(&scaled, d, &usd()), Err(EvalError::UnsupportedCombinator));
    let with_rates = Market::with_rates(Currency::Usd).quote(Currency::Gbp, Currency::Usd, d, 4);
    assert_eq!(eval(&scaled, d, &with_rates), Err(EvalError::UnsupportedCombinator));
}

#[test]
fn scale_resolves_its_observable_before_its_contract() {
    let d = Date::from_days(7);
    let market = Market::with_rates(Currency::Usd);
    let scaled = Contract::new()
        .anytime()
        .scale(Observable::ExchangeRate(Currency::Eur, Currency::Gbp));
    assert_eq!(eval(&scaled, d, &market), Err(EvalError::MissingMarketData));
}

#[test]
fn truncate_is_inclusive_of_its_expiry() {
    let expiry = Date::from_ymd_opt(2030, 1, 1).unwrap();
    let day_before = Date::from_days(expiry.days() - 1);
    let day_after = Date::from_days(expiry.days() + 1);
    let market = usd();
    let contract = units(42);
    let truncated = units(42).truncate(expiry);
    assert_eq!(eval(&truncated, expiry, &market), eval(&contract, expiry, &market));
    assert_eq!(eval(&truncated, expiry, &market), Ok(single(expiry, 42)));
    assert_eq!(eval(&truncated, day_before, &market), Ok(single(day_before, 42)));
    assert_eq!(eval(&truncated, day_after, &market), Ok(single(day_after, 0)));
}

#[test]
fn truncate_does_not_evaluate_an_expired_contract() {
    let expiry = Date::from_days(10);
    let after = Date::from_days(11);
    let market = usd();
    let truncated = Contract::new().anytime().truncate(expiry);
    assert_eq!(eval(&truncated, after, &market), Ok(single(after, 0)));
    assert_eq!(eval(&truncated, expiry, &market), Err(EvalError::UnsupportedCombinator));
}

#[test]
fn then_is_worth_the_first_contract() {
    let t1 = Date::from_days(10);
    let t2 = Date::from_days(20);
    let market = usd();
    let b1 = zcb(t1, 30, Currency::Usd);
    let b2 = zcb(t2, 12, Currency::Usd);
    let spliced = b1.clone().then(b2.clone());
    for day in [5, 10] {
        let d = Date::from_days(day);
        assert_eq!(eval(&spliced, d, &market), eval(&b1, d, &market));
        assert_eq!(eval(&spliced, d, &market), Ok(single(d, 30)));
    }
    for day in [21, 30] {
        let d = Date::from_days(day);
        assert_eq!(eval(&spliced, d, &market), eval(&b2, d, &market));
        assert_eq!(eval(&spliced, d, &market), Ok(single(d, 0)));
    }
    let between = Date::from_days(15);
    assert_eq!(eval(&spliced, between, &market), Ok(single(between, 0)));
    assert_eq!(eval(&b2, between, &market), Ok(single(between, 12)));
}

#[test]
fn then_does_not_evaluate_its_second_contract() {
    let d = Date::from_days(10);
    let spliced = units(3).then(Contract::new().anytime());
    assert_eq!(eval(&spliced, d, &usd()), Ok(single(d, 3)));
    let failing = Contract::new().anytime().then(units(3));
    assert_eq!(eval(&failing, d, &usd()), Err(EvalError::UnsupportedCombinator));
}

#[test]
fn get_collapses_to_the_terminal_value() {
    let maturity = Date::from_days(10);
    let market = usd();
    let deferred = zcb(maturity, 100, Currency::Usd).get();
    assert_eq!(eval(&deferred, maturity, &market), Ok(single(maturity, 100)));
    let earlier = Date::from_days(4);
    assert_eq!(eval(&deferred, earlier, &market), Ok(single(earlier, 100)));
    let later = Date::from_days(11);
    assert_eq!(eval(&deferred, later, &market), Ok(single(later, 0)));
    assert_eq!(
        eval(&Contract::new().anytime().get(), maturity, &market),
        Err(EvalError::UnsupportedCombinator)
    );
}

#[test]
fn anytime_is_unsupported() {
    let d = Date::from_days(10);
    let market = Market::with_rates(Currency::Usd);
    assert_eq!(
        eval(&Contract::new().anytime(), d, &market),
        Err(EvalError::UnsupportedCombinator)
    );
    assert_eq!(eval(&units(5).anytime(), d, &market), Err(EvalError::UnsupportedCombinator));
    assert_eq!(
        eval(&Contract::one(Currency::Gbp).anytime(), d, &market),
        Err(EvalError::UnsupportedCombinator)
    );
    assert_eq!(
        eval(&units(5).anytime().give(), d, &market),
        Err(EvalError::UnsupportedCombinator)
    );
    assert_eq!(
        eval(&units(5).and(units(5).anytime()), d, &market),
        Err(EvalError::UnsupportedCombinator)
    );
}

#[test]
fn the_left_side_fails_first() {
    let d = Date::from_days(10);
    let market = Market::with_rates(Currency::Usd);
    let unsupported = || Contract::new().anytime();
    let missing = || Contract::one(Currency::Gbp);
    assert_eq!(
        eval(&unsupported().and(missing()), d, &market),
        Err(EvalError::UnsupportedCombinator)
    );
    assert_eq!(
        eval(&missing().and(unsupported()), d, &market),
        Err(EvalError::MissingMarketData)
    );
    assert_eq!(
        eval(&unsupported().or(missing()), d, &market),
        Err(EvalError::UnsupportedCombinator)
    );
    assert_eq!(
        eval(&missing().or(unsupported()), d, &market),
        Err(EvalError::MissingMarketData)
    );
}

#[test]
fn a_value_too_large_to_hold_is_an_overflow() {
    let d = Date::from_days(10);
    let market = usd();
    let big = i64::MAX;
    assert_eq!(eval(&units(big), d, &market), Ok(single(d, big)));
    assert_eq!(eval(&units(big).give(), d, &market), Ok(single(d, -big)));
    assert_eq!(eval(&units(big).and(units(1)), d, &market), Err(EvalError::Overflow));
    assert_eq!(
        eval(&units(big).give().and(units(1).give()), d, &market),
        Err(EvalError::Overflow)
    );
    assert_eq!(
        eval(&units(big).scale(Observable::Constant(2)), d, &market),
        Err(EvalError::Overflow)
    );
    assert_eq!(eval(&units(i64::MIN), d, &market), Err(EvalError::Overflow));
    assert_eq!(
        eval(&units(i64::MIN).scale(Observable::Constant(0)), d, &market),
        Err(EvalError::Overflow)
    );
    assert_eq!(
        eval(&units(3_037_000_500).scale(Observable::Constant(3_037_000_500)), d, &market),
        Err(EvalError::Overflow)
    );
    assert_eq!(
        eval(&units(3_037_000_499).scale(Observable::Constant(3_037_000_499)), d, &market),
        Ok(single(d, 9_223_372_030_926_249_001))
    );
    let rates = Market::with_rates(Currency::Usd).quote(Currency::Gbp, Currency::Usd, d, i64::MIN);
    assert_eq!(eval(&Contract::one(Currency::Gbp), d, &rates), Err(EvalError::Overflow));
}

#[test]
fn a_tree_evaluates_as_its_contract_does() {
    let d = Date::from_days(10);
    let market = usd();
    let contract = units(6).and(units(7)).give();
    assert_eq!(
        eval_combinator(contract.combinator(), d, &market),
        eval(&contract, d, &market)
    );
    assert_eq!(eval_combinator(contract.combinator(), d, &market), Ok(single(d, -13)));
}

#[test]
fn concrete_scenario_of_a_zero_coupon_bond() {
    let maturity = Date::from_ymd_opt(2030, 1, 1).unwrap();
    let next_year = Date::from_ymd_opt(2031, 1, 1).unwrap();
    let market = usd();
    let bond = zcb(maturity, 100, Currency::Usd);
    let at_maturity = eval(&bond, maturity, &market).unwrap();
    assert_eq!(at_maturity.entries(), vec![(maturity, 100)]);
    let after = eval(&bond, next_year, &market).unwrap();
    assert_eq!(after.entries(), vec![(next_year, 0)]);
}

#[test]
fn exchange_and_discounting_are_unsupported() {
    assert_eq!(
        exch(Currency::Usd, Currency::Gbp),
        Err(EvalError::UnsupportedCombinator)
    );
    assert_eq!(
        exch(Currency::Usd, Currency::Usd),
        Err(EvalError::UnsupportedCombinator)
    );
    assert_eq!(
        disc(100, Date::from_days(10)),
        Err(EvalError::UnsupportedCombinator)
    );
}

#[test]
fn a_fixed_interest_rate_is_the_same_on_every_date() {
    let model = InterestRateModel::Fixed(5);
    assert_eq!(model.interest_rate(Date::from_days(1)), 5);
    assert_eq!(model.interest_rate(Date::from_ymd_opt(2030, 1, 1).unwrap()), 5);
    assert_eq!(InterestRateModel::Fixed(-2).interest_rate(Date::from_days(0)), -2);
}
