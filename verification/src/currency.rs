use vstd::prelude::*;

verus! {

/// The currencies a contract can pay in.
///
/// A currency is a label: it tags the unit paid by a `One` leaf and the two
/// sides of an exchange-rate observable, and carries no behaviour of its own.
#[derive(Debug, Clone, Copy, PartialEq, Eq, Structural)]
pub enum Currency {
    Usd,
    Gbp,
    Eur,
}

} // verus!
