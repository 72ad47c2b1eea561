use crate::currency::Currency;
use crate::date::Date;
use crate::observable::Observable;
use std::sync::Arc;
use vstd::prelude::*;

verus! {

/// The contract algebra: a tree whose nodes are the primitive ways of
/// building a contract.
///
/// A tree is never changed once built. A node shares its sub-trees with
/// whoever else holds them instead of copying them.
#[derive(Debug)]
pub enum Combinator {
    /// No rights and no obligations.
    Zero,
    /// Receive one unit of the currency now.
    One(Currency),
    /// The sub-contract with all rights and obligations reversed.
    Give(Arc<Combinator>),
    /// Both sub-contracts, held together.
    And(Arc<Combinator>, Arc<Combinator>),
    /// Whichever of the two sub-contracts the holder chooses.
    Or(Arc<Combinator>, Arc<Combinator>),
    /// The sub-contract, void after the date.
    Truncate(Date, Arc<Combinator>),
    /// The first sub-contract while it is live, the second once the first
    /// has expired.
    Then(Arc<Combinator>, Arc<Combinator>),
    /// The sub-contract with every payoff multiplied by the observable.
    Scale(Observable, Arc<Combinator>),
    /// The sub-contract's rights, deferred to the end of its horizon.
    Get(Arc<Combinator>),
    /// The sub-contract, to be taken up at any time up to its horizon.
    AnyTime(Arc<Combinator>),
}

impl Combinator {
    /// The tree that a shared sub-tree holds.
    #[verifier::inline]
    pub open spec fn of(shared: Arc<Combinator>) -> Combinator {
        *shared
    }

    /// `Give` over this tree.
    pub open spec fn give(self) -> Combinator {
        Combinator::Give(Arc::new(self))
    }

    /// `And` over this tree and `other`.
    pub open spec fn and(self, other: Combinator) -> Combinator {
        Combinator::And(Arc::new(self), Arc::new(other))
    }

    /// `Or` over this tree and `other`.
    pub open spec fn or(self, other: Combinator) -> Combinator {
        Combinator::Or(Arc::new(self), Arc::new(other))
    }

    /// `Truncate` over this tree, with expiry `date`.
    pub open spec fn truncate(self, date: Date) -> Combinator {
        Combinator::Truncate(date, Arc::new(self))
    }

    /// `Then` over this tree and `other`.
    pub open spec fn and_then(self, other: Combinator) -> Combinator {
        Combinator::Then(Arc::new(self), Arc::new(other))
    }

    /// `Scale` over this tree, by `observable`.
    pub open spec fn scale(self, observable: Observable) -> Combinator {
        Combinator::Scale(observable, Arc::new(self))
    }

    /// `Get` over this tree.
    pub open spec fn get(self) -> Combinator {
        Combinator::Get(Arc::new(self))
    }

    /// `AnyTime` over this tree.
    pub open spec fn anytime(self) -> Combinator {
        Combinator::AnyTime(Arc::new(self))
    }
}

} // verus!
