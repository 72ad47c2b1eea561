use crate::date::Date;
use crate::scalar::RandomVariable;
use vstd::prelude::*;

verus! {

/// A model of the interest rate: the rate that holds on each date.
#[derive(Debug, Clone, Copy, PartialEq, Eq, Structural)]
pub enum InterestRateModel {
    /// One rate, the same on every date.
    Fixed(RandomVariable),
}

impl InterestRateModel {
    /// The rate that the model gives on day `day`.
    pub open spec fn rate_on(self, day: int) -> int {
        match self {
            InterestRateModel::Fixed(rate) => rate as int,
        }
    }

    /// The rate that the model gives on `date`.
    #[allow(unused_variables)]
    pub fn interest_rate(&self, date: Date) -> (r: RandomVariable)
        ensures
            r == self.rate_on(date@),
    {
        match self {
            InterestRateModel::Fixed(rate) => *rate,
        }
    }
}

} // verus!
