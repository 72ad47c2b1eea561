use crate::combinator::Combinator;
use crate::currency::Currency;
use crate::date::Date;
use crate::observable::Observable;
use crate::scalar::RandomVariable;
use std::sync::Arc;
use vstd::prelude::*;

verus! {

/// A contract: a handle on the root of a combinator tree.
///
/// Contracts are built by chaining the methods below. Each takes the
/// contracts it combines by value and hangs their trees, as they are, under
/// one new node: nothing is copied. The view of a contract is its tree.
#[derive(Debug)]
pub struct Contract(Arc<Combinator>);

/// A second handle on a shared tree, by `Arc::clone`.
///
/// Trusted: the handle that `Arc::clone` returns points at the same tree as
/// the one it was made from. The tree itself is not copied.
#[verifier::external_body]
fn share(tree: &Arc<Combinator>) -> (r: Arc<Combinator>)
    ensures
        r == *tree,
{
    Arc::clone(tree)
}

impl Clone for Contract {
    /// A second handle on the same tree: the tree is shared, not copied.
    fn clone(&self) -> (r: Contract)
        ensures
            r@ == self@,
    {
        Contract(share(&self.0))
    }
}

impl View for Contract {
    type V = Combinator;

    closed spec fn view(&self) -> Combinator {
        *self.0
    }
}

impl Default for Contract {
    fn default() -> (r: Contract)
        ensures
            r@ == Combinator::Zero,
    {
        Contract::new()
    }
}

impl Contract {
    /// The contract with no rights and no obligations.
    pub fn new() -> (r: Contract)
        ensures
            r@ == Combinator::Zero,
    {
        Contract(Arc::new(Combinator::Zero))
    }

    /// The contract that pays one unit of `currency` now.
    pub fn one(currency: Currency) -> (r: Contract)
        ensures
            r@ == Combinator::One(currency),
    {
        Contract(Arc::new(Combinator::One(currency)))
    }

    /// This contract with all rights and obligations reversed.
    pub fn give(self) -> (r: Contract)
        ensures
            r@ == self@.give(),
    {
        Contract(Arc::new(Combinator::Give(self.0)))
    }

    /// This contract and `other`, held together.
    pub fn and(self, other: Contract) -> (r: Contract)
        ensures
            r@ == self@.and(other@),
    {
        Contract(Arc::new(Combinator::And(self.0, other.0)))
    }

    /// The holder's choice between this contract and `other`.
    pub fn or(self, other: Contract) -> (r: Contract)
        ensures
            r@ == self@.or(other@),
    {
        Contract(Arc::new(Combinator::Or(self.0, other.0)))
    }

    /// This contract, void after `date`.
    pub fn truncate(self, date: Date) -> (r: Contract)
        ensures
            r@ == self@.truncate(date),
    {
        Contract(Arc::new(Combinator::Truncate(date, self.0)))
    }

    /// This contract while it is live, `other` once it has expired.
    pub fn then(self, other: Contract) -> (r: Contract)
        ensures
            r@ == self@.and_then(other@),
    {
        Contract(Arc::new(Combinator::Then(self.0, other.0)))
    }

    /// This contract with every payoff multiplied by `observable`.
    pub fn scale(self, observable: Observable) -> (r: Contract)
        ensures
            r@ == self@.scale(observable),
    {
        Contract(Arc::new(Combinator::Scale(observable, self.0)))
    }

    /// This contract's rights, deferred to the end of its horizon.
    pub fn get(self) -> (r: Contract)
        ensures
            r@ == self@.get(),
    {
        Contract(Arc::new(Combinator::Get(self.0)))
    }

    /// This contract, to be taken up at any time up to its horizon.
    pub fn anytime(self) -> (r: Contract)
        ensures
            r@ == self@.anytime(),
    {
        Contract(Arc::new(Combinator::AnyTime(self.0)))
    }

    /// The tree that this contract stands for.
    pub fn combinator(&self) -> (r: &Combinator)
        ensures
            *r == self@,
    {
        &*self.0
    }
}

/// The tree of a zero-coupon bond: one unit of `currency`, scaled by
/// `notional`, void after `maturity`.
pub open spec fn zcb_tree(maturity: Date, notional: RandomVariable, currency: Currency) -> Combinator {
    Combinator::One(currency).scale(Observable::Constant(notional)).truncate(maturity)
}

/// The tree of a European option on `underlying`: the holder's choice
/// between nothing and `underlying`, void after `date`, deferred to the end
/// of its horizon.
pub open spec fn european_option_tree(date: Date, underlying: Combinator) -> Combinator {
    Combinator::Zero.or(underlying).truncate(date).get()
}

/// A zero-coupon bond: one unit of `currency`, scaled by `scale`, void
/// after `maturity_date`.
pub fn zcb(maturity_date: Date, scale: RandomVariable, currency: Currency) -> (r: Contract)
    ensures
        r@ == zcb_tree(maturity_date, scale, currency),
{
    Contract::one(currency).scale(Observable::Constant(scale)).truncate(maturity_date)
}

/// A European option: the right to choose, on `date` and not after, between
/// `contract` and nothing.
pub fn european_option(date: Date, contract: Contract) -> (r: Contract)
    ensures
        r@ == european_option_tree(date, contract@),
{
    Contract::new().or(contract).truncate(date).get()
}

} // verus!
