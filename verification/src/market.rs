use crate::currency::Currency;
use crate::date::Date;
use crate::error::EvalError;
use crate::scalar::RandomVariable;
use vstd::prelude::*;

verus! {

/// One quoted exchange rate: on `date`, one unit of `from` is worth `rate`
/// units of `to`.
#[derive(Debug, Clone, Copy)]
struct Quote {
    from: Currency,
    to: Currency,
    date: Date,
    rate: RandomVariable,
}

/// What a market says, as mathematics: the home currency in which values
/// are expressed, and the rate source.
///
/// `rates` is `None` where the market has no rate source at all. Where it
/// has one, the source maps a currency pair and a day number to the rate
/// quoted for them; a triple that it does not hold has no rate.
pub struct MarketView {
    pub home: Currency,
    pub rates: Option<Map<(Currency, Currency, int), int>>,
}

/// The rate of `from` against `to` on `day`.
///
/// Without a rate source the lookup is unsupported; with one, a pair and
/// day that it does not quote is missing market data. No rate is ever made
/// up.
pub open spec fn exchange_rate(market: MarketView, from: Currency, to: Currency, day: int) -> Result<
    int,
    EvalError,
> {
    match market.rates {
        None => Err(EvalError::UnsupportedCombinator),
        Some(table) => if table.contains_key((from, to, day)) {
            Ok(table[(from, to, day)])
        } else {
            Err(EvalError::MissingMarketData)
        },
    }
}

/// What one unit of `currency` is worth in the home currency on `day`: one
/// where `currency` is the home currency, else the rate of `currency`
/// against the home currency.
pub open spec fn unit_value(market: MarketView, currency: Currency, day: int) -> Result<
    int,
    EvalError,
> {
    if currency == market.home {
        Ok(1)
    } else {
        exchange_rate(market, currency, market.home, day)
    }
}

/// The rate source that the first `n` of `quotes` make up: a later quote
/// for the same pair and day replaces an earlier one.
spec fn quoted(quotes: Seq<Quote>, n: nat) -> Map<(Currency, Currency, int), int>
    decreases n,
{
    if n == 0 {
        Map::empty()
    } else {
        let q = quotes[n - 1];
        quoted(quotes, (n - 1) as nat).insert((q.from, q.to, q.date@), q.rate as int)
    }
}

/// The market data that an evaluation draws on: the home currency, and the
/// exchange rates that have been quoted, if a rate source is set up.
#[derive(Debug)]
pub struct Market {
    home: Currency,
    quotes: Option<Vec<Quote>>,
}

impl View for Market {
    type V = MarketView;

    closed spec fn view(&self) -> MarketView {
        MarketView {
            home: self.home,
            rates: match self.quotes {
                None => None,
                Some(v) => Some(quoted(v@, v@.len())),
            },
        }
    }
}

impl Market {
    /// A market with the given home currency and no rate source.
    pub fn new(home: Currency) -> (r: Market)
        ensures
            r@ == (MarketView { home, rates: None }),
    {
        Market { home, quotes: None }
    }

    /// A market with the given home currency and a rate source that quotes
    /// nothing yet.
    pub fn with_rates(home: Currency) -> (r: Market)
        ensures
            r@ == (MarketView { home, rates: Some(Map::empty()) }),
    {
        Market { home, quotes: Some(Vec::new()) }
    }

    /// This market with one more quote: on `date`, one unit of `from` is
    /// worth `rate` units of `to`. The quote replaces an earlier one for the
    /// same pair and date, and sets up the rate source where there was none.
    pub fn quote(self, from: Currency, to: Currency, date: Date, rate: RandomVariable) -> (r: Market)
        ensures
            r@.home == self@.home,
            r@.rates == Some(
                (match self@.rates {
                    Some(table) => table,
                    None => Map::empty(),
                }).insert((from, to, date@), rate as int),
            ),
    {
        let home = self.home;
        let mut quotes = match self.quotes {
            Some(v) => v,
            None => Vec::new(),
        };
        let ghost before = quotes@;
        quotes.push(Quote { from, to, date, rate });
        proof {
            lemma_quoted_prefix(before, quotes@, before.len());
        }
        Market { home, quotes: Some(quotes) }
    }

    /// The home currency.
    pub fn home(&self) -> (r: Currency)
        ensures
            r == self@.home,
    {
        self.home
    }

    /// Whether the market has a rate source.
    pub fn has_rates(&self) -> (r: bool)
        ensures
            r == self@.rates is Some,
    {
        self.quotes.is_some()
    }

    /// The rate of `from` against `to` on `date`.
    pub fn rate(&self, from: Currency, to: Currency, date: Date) -> (r: Result<
        RandomVariable,
        EvalError,
    >)
        ensures
            match r {
                Ok(v) => exchange_rate(self@, from, to, date@) == Ok::<int, EvalError>(v as int),
                Err(e) => exchange_rate(self@, from, to, date@) == Err::<int, EvalError>(e),
            },
    {
        match &self.quotes {
            None => Err(EvalError::UnsupportedCombinator),
            Some(quotes) => {
                let ghost key = (from, to, date@);
                let ghost table = quoted(quotes@, quotes@.len());
                let mut n: usize = quotes.len();
                while n > 0
                    invariant
                        n <= quotes@.len(),
                        key == (from, to, date@),
                        table == quoted(quotes@, quotes@.len()),
                        self@.rates == Some(table),
                        table.contains_key(key) <==> quoted(quotes@, n as nat).contains_key(key),
                        table.contains_key(key) ==> table[key] == quoted(quotes@, n as nat)[key],
                    decreases n,
                {
                    let q = &quotes[n - 1];
                    assert(quoted(quotes@, n as nat) == quoted(quotes@, (n - 1) as nat).insert(
                        (q.from, q.to, q.date@),
                        q.rate as int,
                    ));
                    if q.from == from && q.to == to && q.date.days == date.days {
                        return Ok(q.rate);
                    }
                    n = n - 1;
                }
                Err(EvalError::MissingMarketData)
            },
        }
    }

    /// What one unit of `currency` is worth in the home currency on `date`.
    pub fn unit_value(&self, currency: Currency, date: Date) -> (r: Result<
        RandomVariable,
        EvalError,
    >)
        ensures
            match r {
                Ok(v) => unit_value(self@, currency, date@) == Ok::<int, EvalError>(v as int),
                Err(e) => unit_value(self@, currency, date@) == Err::<int, EvalError>(e),
            },
    {
        if currency == self.home {
            Ok(1)
        } else {
            self.rate(currency, self.home, date)
        }
    }
}

/// The rate source made up by the first `n` quotes does not depend on the
/// quotes that follow them.
proof fn lemma_quoted_prefix(a: Seq<Quote>, b: Seq<Quote>, n: nat)
    requires
        n <= a.len(),
        n <= b.len(),
        forall|i: int| 0 <= i < n ==> a[i] == b[i],
    ensures
        quoted(a, n) == quoted(b, n),
    decreases n,
{
    if n > 0 {
        lemma_quoted_prefix(a, b, (n - 1) as nat);
    }
}

} // verus!
