//! Messages understood by the escrow, and the two enumerations that every
//! proposition carries.

use vstd::prelude::*;
use crate::coin::{Coin, CoinView};
use crate::state::{item_views, Proposition, PropositionView};

verus! {

/// Sent once, when the escrow is set up. It carries nothing.
#[derive(Clone, Copy, Debug, PartialEq, Eq, Structural)]
pub struct InstantiateMsg {}

/// Sent when the escrow's code is replaced. It carries nothing.
#[derive(Clone, Copy, Debug, PartialEq, Eq, Structural)]
pub struct MigrateMsg {}

/// A call that changes a proposition.
#[derive(Debug, PartialEq, Eq)]
pub enum ExecuteMsg {
    CreateProposition {
        proposition_type: PropositionType,
        deposit: Coin,
        assets: Coin,
        premium: Coin,
        period: u64,
        expiry: u64,
        contractor: Option<String>,
    },
    RejectProposition { proposition_id: u64 },
    AcceptProposition { proposition_id: u64 },
    CloseProposition { proposition_id: u64 },
}

/// The mathematical value of an [`ExecuteMsg`].
pub enum ExecuteMsgView {
    CreateProposition {
        proposition_type: PropositionType,
        deposit: CoinView,
        assets: CoinView,
        premium: CoinView,
        period: u64,
        expiry: u64,
        contractor: Option<Seq<char>>,
    },
    RejectProposition { proposition_id: u64 },
    AcceptProposition { proposition_id: u64 },
    CloseProposition { proposition_id: u64 },
}

/// The value of an optional account.
pub open spec fn account_view(account: Option<String>) -> Option<Seq<char>> {
    match account {
        Some(a) => Some(a@),
        None => None,
    }
}

impl View for ExecuteMsg {
    type V = ExecuteMsgView;

    open spec fn view(&self) -> ExecuteMsgView {
        match *self {
            ExecuteMsg::CreateProposition {
                proposition_type,
                deposit,
                assets,
                premium,
                period,
                expiry,
                contractor,
            } => ExecuteMsgView::CreateProposition {
                proposition_type,
                deposit: deposit@,
                assets: assets@,
                premium: premium@,
                period,
                expiry,
                contractor: account_view(contractor),
            },
            ExecuteMsg::RejectProposition { proposition_id } => ExecuteMsgView::RejectProposition {
                proposition_id,
            },
            ExecuteMsg::AcceptProposition { proposition_id } => ExecuteMsgView::AcceptProposition {
                proposition_id,
            },
            ExecuteMsg::CloseProposition { proposition_id } => ExecuteMsgView::CloseProposition {
                proposition_id,
            },
        }
    }
}

/// A call from the host itself, outside any transaction.
#[derive(Clone, Copy, Debug, PartialEq, Eq, Structural)]
pub enum SudoMsg {
    BeginBlocker {},
}

/// A read-only question about the propositions.
#[derive(Clone, Copy, Debug, PartialEq, Eq, Structural)]
pub enum QueryMsg {
    /// A page of propositions, newest first, below `start_before`.
    GetPropositions { start_before: Option<u64>, limit: Option<u32> },
    /// One proposition.
    GetProposition { proposition_id: u64 },
    /// The number of propositions created so far.
    GetPropositionCount {},
}

/// Orientation of a proposition: it fixes which side escrows which funds.
#[derive(Clone, Copy, Debug, PartialEq, Eq, Structural)]
pub enum PropositionType {
    /// The creator escrows deposit and premium, and seeks the assets.
    Ask,
    /// The creator escrows the assets.
    Bid,
}

impl PropositionType {
    /// The text of this orientation.
    pub open spec fn name(self) -> Seq<char> {
        match self {
            PropositionType::Ask => "Ask"@,
            PropositionType::Bid => "Bid"@,
        }
    }

    /// The name of the variant, as it appears in response attributes.
    pub fn to_string(&self) -> (s: String)
        ensures
            s@ == self.name(),
    {
        match self {
            PropositionType::Ask => "Ask".to_string(),
            PropositionType::Bid => "Bid".to_string(),
        }
    }
}

/// Lifecycle state of a proposition.
#[derive(Clone, Copy, Debug, PartialEq, Eq, Structural)]
pub enum PropositionState {
    Active,
    Accepted,
    Closed,
    Rejected,
}

/// The answer to a [`QueryMsg`].
#[derive(Debug, PartialEq, Eq)]
pub enum QueryResponse {
    /// A page of propositions with their ids, greatest id first.
    Propositions(Vec<(u64, Proposition)>),
    Proposition(Proposition),
    PropositionCount(u64),
}

/// The mathematical value of a [`QueryResponse`].
pub enum QueryResponseView {
    Propositions(Seq<(u64, PropositionView)>),
    Proposition(PropositionView),
    PropositionCount(u64),
}

impl View for QueryResponse {
    type V = QueryResponseView;

    open spec fn view(&self) -> QueryResponseView {
        match *self {
            QueryResponse::Propositions(items) => QueryResponseView::Propositions(
                item_views(items@),
            ),
            QueryResponse::Proposition(p) => QueryResponseView::Proposition(p@),
            QueryResponse::PropositionCount(n) => QueryResponseView::PropositionCount(n),
        }
    }
}

} // verus!
