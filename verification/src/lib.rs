//! Financial contracts as an algebra of combinators, and their valuation.
//!
//! A [`Contract`] is built by composing a small set of primitives
//! ([`Combinator`]): nothing, one unit of a currency, and ways of giving,
//! combining, choosing between, truncating, sequencing, scaling and
//! deferring contracts. [`eval`] maps a contract and an evaluation date to
//! its [`ValueProcess`], the value of the contract date by date, against a
//! [`Market`] that names the home currency and quotes exchange rates.
//!
//! Dates are day numbers ([`Date`]) and values are exact integers
//! ([`RandomVariable`]). An evaluation never panics and never makes a
//! number up: what it cannot price is an [`EvalError`].
//!
//! Every function is verified against a contract. The meaning of a tree is
//! the spec function [`valuation::eval_model`]; the executable evaluator is
//! proved to compute it, and the algebraic laws of the combinators are
//! proved of it in [`laws`].

pub mod combinator;
pub mod contract;
pub mod currency;
pub mod date;
pub mod error;
pub mod interest_rate;
pub mod laws;
pub mod market;
pub mod observable;
pub mod process;
pub mod scalar;
pub mod valuation;

pub use crate::combinator::Combinator;
pub use crate::contract::{european_option, zcb, Contract};
pub use crate::currency::Currency;
pub use crate::date::Date;
pub use crate::error::EvalError;
pub use crate::interest_rate::InterestRateModel;
pub use crate::market::{Market, MarketView};
pub use crate::observable::Observable;
pub use crate::process::ValueProcess;
pub use crate::scalar::RandomVariable;
pub use crate::valuation::{disc, eval, eval_combinator, exch};
