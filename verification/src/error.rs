//! The reasons for which a call is refused.

use vstd::prelude::*;
use crate::coin::{Coin, CoinView};
use crate::msg::PropositionState;

verus! {

/// Why a call was refused. A refused call changes nothing.
#[derive(Debug, PartialEq, Eq)]
#[allow(inconsistent_fields)]
pub enum ContractError {
    /// No proposition is stored under the id.
    NotFound {},
    /// The caller does not hold the role that the operation asks for.
    Unauthorized {},
    /// The attached funds are short of `expected`; `actual` is what they hold
    /// in that denomination, if anything.
    PaymentError { expected: Coin, actual: Option<Coin> },
    /// The proposition is in state `current`, and the operation needs
    /// `expected`.
    WrongPropositionStatus { expected: PropositionState, current: PropositionState },
    /// The proposition's expiry has passed.
    Expired {},
}

/// The mathematical value of a [`ContractError`].
#[allow(inconsistent_fields)]
pub enum ContractErrorView {
    NotFound,
    Unauthorized,
    PaymentError { expected: CoinView, actual: Option<CoinView> },
    WrongPropositionStatus { expected: PropositionState, current: PropositionState },
    Expired,
}

impl View for ContractError {
    type V = ContractErrorView;

    open spec fn view(&self) -> ContractErrorView {
        match *self {
            ContractError::NotFound {  } => ContractErrorView::NotFound,
            ContractError::Unauthorized {  } => ContractErrorView::Unauthorized,
            ContractError::PaymentError { expected, actual } => ContractErrorView::PaymentError {
                expected: expected@,
                actual: match actual {
                    Some(c) => Some(c@),
                    None => None,
                },
            },
            ContractError::WrongPropositionStatus {
                expected,
                current,
            } => ContractErrorView::WrongPropositionStatus { expected, current },
            ContractError::Expired {  } => ContractErrorView::Expired,
        }
    }
}

} // verus!
