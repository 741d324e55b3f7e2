//! The operations of the escrow: creating a proposition, accepting,
//! rejecting and closing it, and the read-only questions.
//!
//! Each operation checks its guards in a fixed order, and only when all of
//! them pass does it write the record and name the transfers to make. For
//! each there is a function that says what the operation comes to
//! (`accept_outcome`, ...) and a relation between the store before, the store
//! after and the result (`accepts`, ...), which is the operation's contract.

use vstd::prelude::*;
use crate::balance::{charge, charged, normalize};
use crate::coin::{coin_views, fits, is_normal_form_of, lemma_total_one, total, Coin, CoinView};
use crate::error::{ContractError, ContractErrorView};
use crate::host::{
    decimal, decimal_string, BankMsg, BankMsgView, Env, MessageInfo, MessageInfoView, Response,
    ResponseView,
};
use crate::msg::{
    account_view, ExecuteMsg, ExecuteMsgView, InstantiateMsg, MigrateMsg, PropositionState,
    PropositionType, QueryMsg, QueryResponse, QueryResponseView, SudoMsg,
};
use crate::state::{
    bound_of, page, page_size, Proposition, PropositionStore, PropositionsView,
    PropositionView,
};

verus! {

/// The outcome of an operation, as a value.
pub type Outcome = Result<ResponseView, ContractErrorView>;

/// The value of the outcome of an operation.
pub open spec fn outcome_view(r: Result<Response, ContractError>) -> Outcome {
    match r {
        Ok(response) => Ok(response@),
        Err(e) => Err(e@),
    }
}

/// Whether `msg` pays to `to` the normal form of `coins`.
pub open spec fn is_transfer(msg: BankMsgView, to: Seq<char>, coins: Seq<CoinView>) -> bool {
    msg.to_address == to && is_normal_form_of(msg.amount, coins)
}

/// The store `s` with `p` written under `id`.
pub open spec fn with_record(s: PropositionsView, id: u64, p: PropositionView) -> PropositionsView {
    PropositionsView { count: s.count, propositions: s.propositions.insert(id, p) }
}

/// The instruction to pay `coins`, in normal form, out of the escrow's
/// custody to `to_address`.
pub fn send_coins_from_contract_to_message(to_address: &String, coins: Vec<Coin>) -> (r: Result<
    BankMsg,
    ContractError,
>)
    requires
        fits(coin_views(coins@)),
    ensures
        r is Ok,
        is_transfer(r->Ok_0@, to_address@, coin_views(coins@)),
{
    let amount = normalize(coins);
    Ok(BankMsg::Send { to_address: to_address.clone(), amount })
}

/// The instruction to pay the one coin `coin` to `to_address`.
fn send_one(to_address: &String, coin: &Coin) -> (msg: BankMsg)
    ensures
        is_transfer(msg@, to_address@, seq![coin@]),
{
    let mut coins: Vec<Coin> = Vec::new();
    coins.push(coin.clone());
    proof {
        assert(coin_views(coins@) =~= seq![coin@]);
        assert forall|d: Seq<char>| #[trigger] total(seq![coin@], d) <= u128::MAX by {
            lemma_total_one(coin@, d);
        }
    }
    match send_coins_from_contract_to_message(to_address, coins) {
        Ok(msg) => msg,
        Err(_) => vstd::pervasive::unreached(),
    }
}

/// The contractor of a proposition that has one.
fn contractor_of(proposition: &Proposition) -> (contractor: String)
    requires
        proposition.contractor is Some,
    ensures
        contractor@ == proposition@.contractor->0,
{
    match &proposition.contractor {
        Some(c) => c.clone(),
        None => vstd::pervasive::unreached(),
    }
}

/// Hands out the next proposition id: one more than the last, starting at
/// one.
pub fn next_id(store: &mut PropositionStore) -> (r: Result<u64, ContractError>)
    requires
        old(store)@.count < u64::MAX,
    ensures
        r == Ok::<u64, ContractError>((old(store)@.count + 1) as u64),
        final(store)@.count == old(store)@.count + 1,
        final(store)@.propositions == old(store)@.propositions,
        !final(store)@.propositions.contains_key(final(store)@.count),
        final(store)@.wf(),
{
    Ok(store.allocate_id())
}

// ----- create -----

/// The proposition that a creation call describes, as first stored.
pub open spec fn created(
    owner: Seq<char>,
    proposition_type: PropositionType,
    deposit: CoinView,
    assets: CoinView,
    premium: CoinView,
    period: u64,
    expiry: u64,
    contractor: Option<Seq<char>>,
) -> PropositionView {
    PropositionView {
        owner,
        proposition_type,
        state: PropositionState::Active,
        deposit,
        assets,
        premium,
        period,
        expiry,
        contractor,
    }
}

/// Whether creating `p` with `info` turns `before` into `after` with result
/// `r`. Where the attached funds cover the escrow, `p` is stored under the
/// next id, which the response names; else the call fails with the shortfall
/// and nothing changes.
pub open spec fn creates(
    before: PropositionsView,
    info: MessageInfoView,
    p: PropositionView,
    after: PropositionsView,
    r: Outcome,
) -> bool {
    match charged(info.funds, p.escrow()) {
        Ok(_) => {
            &&& after.count == before.count + 1
            &&& !before.propositions.contains_key(after.count)
            &&& after.propositions == before.propositions.insert(after.count, p)
            &&& r == Ok::<ResponseView, ContractErrorView>(
                ResponseView {
                    messages: Seq::empty(),
                    attributes: seq![
                        ("method"@, "create_proposition"@),
                        ("proposition_id"@, decimal(after.count as nat)),
                    ],
                },
            )
        },
        Err(e) => after == before && r == Err::<ResponseView, ContractErrorView>(e),
    }
}

/// Creates a proposition owned by the caller, who must attach its escrow:
/// deposit and premium for an `Ask`, the assets for a `Bid`. A `contractor`
/// named here is the only account that may accept.
pub fn create_proposition(
    store: &mut PropositionStore,
    env: Env,
    info: MessageInfo,
    proposition_type: PropositionType,
    deposit: Coin,
    assets: Coin,
    premium: Coin,
    period: u64,
    expiry: u64,
    contractor: Option<String>,
) -> (r: Result<Response, ContractError>)
    requires
        old(store)@.count < u64::MAX,
    ensures
        final(store)@.wf(),
        creates(
            old(store)@,
            info@,
            created(
                info@.sender,
                proposition_type,
                deposit@,
                assets@,
                premium@,
                period,
                expiry,
                account_view(contractor),
            ),
            final(store)@,
            outcome_view(r),
        ),
{
    let ghost before = store@;
    let size = store.count();
    let mut dues: Vec<Coin> = Vec::new();
    match proposition_type {
        PropositionType::Ask => {
            dues.push(deposit.clone());
            dues.push(premium.clone());
        },
        PropositionType::Bid => {
            dues.push(assets.clone());
        },
    }
    let proposition = Proposition {
        owner: info.sender,
        proposition_type,
        state: PropositionState::Active,
        deposit,
        assets,
        premium,
        period,
        expiry,
        contractor,
    };
    assert(coin_views(dues@) =~= proposition@.escrow());
    match charge(info.funds, &dues) {
        Ok(_) => {},
        Err(e) => {
            return Err(e);
        },
    }
    let id = store.allocate_id();
    store.save(id, proposition);
    let response = Response::new().add_attribute(
        "method",
        "create_proposition".to_string(),
    ).add_attribute("proposition_id", decimal_string(id));
    assert(response@.attributes =~= seq![
        ("method"@, "create_proposition"@),
        ("proposition_id"@, decimal(id as nat)),
    ]);
    Ok(response)
}

// ----- accept -----

/// Whether the expiry that acceptance at `env.time` would set can be written.
pub open spec fn accept_in_range(s: PropositionsView, env: Env, id: u64) -> bool {
    s.propositions.contains_key(id) ==> env.time + s.propositions[id].period <= u64::MAX
}

/// A proposition once `caller` has accepted it at block time `now`.
pub open spec fn accepted(p: PropositionView, now: u64, caller: Seq<char>) -> PropositionView {
    PropositionView {
        contractor: Some(caller),
        expiry: (now + p.period) as u64,
        state: PropositionState::Accepted,
        ..p
    }
}

/// What accepting the proposition under `id` comes to: the record to write,
/// or the first guard that fails. The guards, in order: the proposition
/// exists; the caller is not its owner; it is active; its expiry has not
/// passed; where a contractor was named at creation, the caller is that
/// account; the attached funds cover what acceptance takes.
pub open spec fn accept_outcome(
    s: PropositionsView,
    env: Env,
    info: MessageInfoView,
    id: u64,
) -> Result<PropositionView, ContractErrorView> {
    if !s.propositions.contains_key(id) {
        Err(ContractErrorView::NotFound)
    } else {
        let p = s.propositions[id];
        if p.owner == info.sender {
            Err(ContractErrorView::Unauthorized)
        } else if p.state != PropositionState::Active {
            Err(
                ContractErrorView::WrongPropositionStatus {
                    expected: PropositionState::Active,
                    current: p.state,
                },
            )
        } else if p.expired_at(env.time) {
            Err(ContractErrorView::Expired)
        } else if p.contractor is Some && p.contractor->0 != info.sender {
            Err(ContractErrorView::Unauthorized)
        } else {
            match charged(info.funds, p.acceptance_dues()) {
                Ok(_) => Ok(accepted(p, env.time, info.sender)),
                Err(e) => Err(e),
            }
        }
    }
}

/// The attributes of the response to accepting the proposition under `id`.
pub open spec fn accept_attributes(id: u64, p: PropositionView) -> Seq<(Seq<char>, Seq<char>)> {
    seq![
        ("method"@, "accept_proposition"@),
        ("id"@, decimal(id as nat)),
        ("proposition_type"@, p.proposition_type.name()),
        ("owner"@, p.owner),
        ("contractor"@, p.contractor->0),
    ]
}

/// Whether `r` is the response to accepting the proposition under `id`,
/// which has become `p`: the assets go to the lender, the premium to the
/// borrower, and the deposit stays in custody.
pub open spec fn is_accept_response(r: ResponseView, id: u64, p: PropositionView) -> bool {
    &&& r.messages.len() == 2
    &&& is_transfer(r.messages[0], p.lender(), seq![p.assets])
    &&& is_transfer(r.messages[1], p.borrower(), seq![p.premium])
    &&& r.attributes == accept_attributes(id, p)
}

/// Whether accepting the proposition under `id` turns `before` into `after`
/// with result `r`.
pub open spec fn accepts(
    before: PropositionsView,
    env: Env,
    info: MessageInfoView,
    id: u64,
    after: PropositionsView,
    r: Outcome,
) -> bool {
    match accept_outcome(before, env, info, id) {
        Ok(p) => after == with_record(before, id, p) && r is Ok && is_accept_response(
            r->Ok_0,
            id,
            p,
        ),
        Err(e) => after == before && r == Err::<ResponseView, ContractErrorView>(e),
    }
}

/// Accepts the proposition under `proposition_id` for the caller, who becomes
/// its contractor. The expiry moves to `period` seconds after the block time.
pub fn accept_proposition(
    store: &mut PropositionStore,
    env: Env,
    info: MessageInfo,
    proposition_id: u64,
) -> (r: Result<Response, ContractError>)
    requires
        accept_in_range(old(store)@, env, proposition_id),
    ensures
        final(store)@.wf(),
        accepts(old(store)@, env, info@, proposition_id, final(store)@, outcome_view(r)),
{
    let mut proposition = match store.load(proposition_id) {
        Ok(p) => p,
        Err(e) => {
            return Err(e);
        },
    };
    if proposition.owner == info.sender {
        return Err(ContractError::Unauthorized {  });
    }
    if proposition.state != PropositionState::Active {
        return Err(
            ContractError::WrongPropositionStatus {
                expected: PropositionState::Active,
                current: proposition.state,
            },
        );
    }
    if proposition.is_expired(&env) {
        return Err(ContractError::Expired {  });
    }
    match &proposition.contractor {
        Some(named) => {
            if *named != info.sender {
                return Err(ContractError::Unauthorized {  });
            }
        },
        None => {},
    }
    let mut dues: Vec<Coin> = Vec::new();
    match proposition.proposition_type {
        PropositionType::Ask => {
            dues.push(proposition.assets.clone());
        },
        PropositionType::Bid => {
            dues.push(proposition.deposit.clone());
            dues.push(proposition.premium.clone());
        },
    }
    assert(coin_views(dues@) =~= proposition@.acceptance_dues());
    match charge(info.funds, &dues) {
        Ok(_) => {},
        Err(e) => {
            return Err(e);
        },
    }
    proposition.contractor = Some(info.sender);
    proposition.expiry = env.time + proposition.period;
    proposition.state = PropositionState::Accepted;

    let to_lender = send_one(&proposition.get_lender(), &proposition.assets);
    let to_borrower = send_one(&proposition.get_borrower(), &proposition.premium);
    let response = Response::new().add_message(to_lender).add_message(to_borrower).add_attribute(
        "method",
        "accept_proposition".to_string(),
    ).add_attribute("id", decimal_string(proposition_id)).add_attribute(
        "proposition_type",
        proposition.proposition_type.to_string(),
    ).add_attribute("owner", proposition.owner.clone()).add_attribute(
        "contractor",
        contractor_of(&proposition),
    );
    assert(response@.attributes =~= accept_attributes(proposition_id, proposition@));
    store.save(proposition_id, proposition);
    Ok(response)
}

// ----- reject -----

/// Whether the escrow that rejection would return can be paid as one
/// instruction.
pub open spec fn reject_in_range(s: PropositionsView, id: u64) -> bool {
    s.propositions.contains_key(id) ==> fits(s.propositions[id].escrow())
}

/// A proposition once it is rejected.
pub open spec fn rejected(p: PropositionView) -> PropositionView {
    PropositionView { state: PropositionState::Rejected, ..p }
}

/// What rejecting the proposition under `id` comes to: the record to write,
/// or the first guard that fails. The guards, in order: the proposition
/// exists; the caller is its owner; it is active.
pub open spec fn reject_outcome(s: PropositionsView, info: MessageInfoView, id: u64) -> Result<
    PropositionView,
    ContractErrorView,
> {
    if !s.propositions.contains_key(id) {
        Err(ContractErrorView::NotFound)
    } else {
        let p = s.propositions[id];
        if p.owner != info.sender {
            Err(ContractErrorView::Unauthorized)
        } else if p.state != PropositionState::Active {
            Err(
                ContractErrorView::WrongPropositionStatus {
                    expected: PropositionState::Active,
                    current: p.state,
                },
            )
        } else {
            Ok(rejected(p))
        }
    }
}

/// Whether `r` is the response to rejecting `p`: the whole escrow goes back
/// to the owner in one instruction.
pub open spec fn is_reject_response(r: ResponseView, p: PropositionView) -> bool {
    &&& r.messages.len() == 1
    &&& is_transfer(r.messages[0], p.owner, p.escrow())
    &&& r.attributes == seq![("method"@, "reject_proposition"@)]
}

/// Whether rejecting the proposition under `id` turns `before` into `after`
/// with result `r`.
pub open spec fn rejects(
    before: PropositionsView,
    info: MessageInfoView,
    id: u64,
    after: PropositionsView,
    r: Outcome,
) -> bool {
    match reject_outcome(before, info, id) {
        Ok(p) => after == with_record(before, id, p) && r is Ok && is_reject_response(r->Ok_0, p),
        Err(e) => after == before && r == Err::<ResponseView, ContractErrorView>(e),
    }
}

/// Withdraws the active proposition under `proposition_id` for its owner and
/// returns the escrow.
pub fn reject_proposition(
    store: &mut PropositionStore,
    env: Env,
    info: MessageInfo,
    proposition_id: u64,
) -> (r: Result<Response, ContractError>)
    requires
        reject_in_range(old(store)@, proposition_id),
    ensures
        final(store)@.wf(),
        rejects(old(store)@, info@, proposition_id, final(store)@, outcome_view(r)),
{
    let mut proposition = match store.load(proposition_id) {
        Ok(p) => p,
        Err(e) => {
            return Err(e);
        },
    };
    if proposition.owner != info.sender {
        return Err(ContractError::Unauthorized {  });
    }
    if proposition.state != PropositionState::Active {
        return Err(
            ContractError::WrongPropositionStatus {
                expected: PropositionState::Active,
                current: proposition.state,
            },
        );
    }
    proposition.state = PropositionState::Rejected;
    let mut return_coins: Vec<Coin> = Vec::new();
    match proposition.proposition_type {
        PropositionType::Ask => {
            return_coins.push(proposition.deposit.clone());
            return_coins.push(proposition.premium.clone());
        },
        PropositionType::Bid => {
            return_coins.push(proposition.assets.clone());
        },
    }
    assert(coin_views(return_coins@) =~= proposition@.escrow());
    let msg = match send_coins_from_contract_to_message(&proposition.owner, return_coins) {
        Ok(msg) => msg,
        Err(e) => {
            return Err(e);
        },
    };
    let response = Response::new().add_message(msg).add_attribute(
        "method",
        "reject_proposition".to_string(),
    );
    assert(response@.attributes =~= seq![("method"@, "reject_proposition"@)]);
    store.save(proposition_id, proposition);
    Ok(response)
}

// ----- close -----

/// A proposition once it is closed.
pub open spec fn closed(p: PropositionView) -> PropositionView {
    PropositionView { state: PropositionState::Closed, ..p }
}

/// What closing the proposition under `id` comes to: the record to write, or
/// the first guard that fails. The proposition must exist and be accepted.
/// Until the expiry has passed only the lender may close, and pays in the
/// assets; after it only the borrower may, and pays in nothing.
pub open spec fn close_outcome(
    s: PropositionsView,
    env: Env,
    info: MessageInfoView,
    id: u64,
) -> Result<PropositionView, ContractErrorView> {
    if !s.propositions.contains_key(id) {
        Err(ContractErrorView::NotFound)
    } else {
        let p = s.propositions[id];
        if p.state != PropositionState::Accepted {
            Err(
                ContractErrorView::WrongPropositionStatus {
                    expected: PropositionState::Accepted,
                    current: p.state,
                },
            )
        } else if !p.expired_at(env.time) {
            if p.lender() != info.sender {
                Err(ContractErrorView::Unauthorized)
            } else {
                match charged(info.funds, p.closing_dues(env.time)) {
                    Ok(_) => Ok(closed(p)),
                    Err(e) => Err(e),
                }
            }
        } else {
            if p.borrower() != info.sender {
                Err(ContractErrorView::Unauthorized)
            } else {
                Ok(closed(p))
            }
        }
    }
}

/// The attributes of the response to closing the proposition under `id`.
pub open spec fn close_attributes(id: u64, p: PropositionView) -> Seq<(Seq<char>, Seq<char>)> {
    seq![
        ("method"@, "close_proposition"@),
        ("id"@, decimal(id as nat)),
        ("proposition_type"@, p.proposition_type.name()),
        ("owner"@, p.owner),
        ("contractor"@, p.contractor->0),
    ]
}

/// Whether `r` is the response to closing, at block time `now`, the
/// proposition `p` under `id`. Until the expiry has passed the assets go
/// back to the borrower and the deposit to the lender; after it the deposit
/// goes to the borrower and nothing else moves.
pub open spec fn is_close_response(r: ResponseView, now: u64, id: u64, p: PropositionView) -> bool {
    &&& r.attributes == close_attributes(id, p)
    &&& if p.expired_at(now) {
        &&& r.messages.len() == 1
        &&& is_transfer(r.messages[0], p.borrower(), seq![p.deposit])
    } else {
        &&& r.messages.len() == 2
        &&& is_transfer(r.messages[0], p.borrower(), seq![p.assets])
        &&& is_transfer(r.messages[1], p.lender(), seq![p.deposit])
    }
}

/// Whether closing the proposition under `id` turns `before` into `after`
/// with result `r`.
pub open spec fn closes(
    before: PropositionsView,
    env: Env,
    info: MessageInfoView,
    id: u64,
    after: PropositionsView,
    r: Outcome,
) -> bool {
    match close_outcome(before, env, info, id) {
        Ok(p) => after == with_record(before, id, p) && r is Ok && is_close_response(
            r->Ok_0,
            env.time,
            id,
            p,
        ),
        Err(e) => after == before && r == Err::<ResponseView, ContractErrorView>(e),
    }
}

/// Closes the accepted proposition under `proposition_id` and releases the
/// deposit.
pub fn close_proposition(
    store: &mut PropositionStore,
    env: Env,
    info: MessageInfo,
    proposition_id: u64,
) -> (r: Result<Response, ContractError>)
    ensures
        final(store)@.wf(),
        closes(old(store)@, env, info@, proposition_id, final(store)@, outcome_view(r)),
{
    let mut proposition = match store.load(proposition_id) {
        Ok(p) => p,
        Err(e) => {
            return Err(e);
        },
    };
    if proposition.state != PropositionState::Accepted {
        return Err(
            ContractError::WrongPropositionStatus {
                expected: PropositionState::Accepted,
                current: proposition.state,
            },
        );
    }
    proposition.state = PropositionState::Closed;
    let lender = proposition.get_lender();
    let borrower = proposition.get_borrower();
    let mut response = Response::new();
    if proposition.is_not_expired(&env) {
        if lender != info.sender {
            return Err(ContractError::Unauthorized {  });
        }
        let mut dues: Vec<Coin> = Vec::new();
        dues.push(proposition.assets.clone());
        assert(coin_views(dues@) =~= proposition@.closing_dues(env.time));
        match charge(info.funds, &dues) {
            Ok(_) => {},
            Err(e) => {
                return Err(e);
            },
        }
        response = response.add_message(send_one(&borrower, &proposition.assets));
        response = response.add_message(send_one(&lender, &proposition.deposit));
    } else {
        if borrower != info.sender {
            return Err(ContractError::Unauthorized {  });
        }
        response = response.add_message(send_one(&borrower, &proposition.deposit));
    }
    let response = response.add_attribute("method", "close_proposition".to_string()).add_attribute(
        "id",
        decimal_string(proposition_id),
    ).add_attribute("proposition_type", proposition.proposition_type.to_string()).add_attribute(
        "owner",
        proposition.owner.clone(),
    ).add_attribute("contractor", contractor_of(&proposition));
    assert(response@.attributes =~= close_attributes(proposition_id, proposition@));
    store.save(proposition_id, proposition);
    Ok(response)
}

// ----- dispatch -----

/// Whether the numbers that `msg` would have the escrow write can be
/// written: a next id, the expiry that acceptance sets, the escrow that
/// rejection returns as one instruction.
pub open spec fn execute_in_range(s: PropositionsView, env: Env, msg: ExecuteMsgView) -> bool {
    match msg {
        ExecuteMsgView::CreateProposition { .. } => s.count < u64::MAX,
        ExecuteMsgView::AcceptProposition { proposition_id } => accept_in_range(
            s,
            env,
            proposition_id,
        ),
        ExecuteMsgView::RejectProposition { proposition_id } => reject_in_range(s, proposition_id),
        ExecuteMsgView::CloseProposition { .. } => true,
    }
}

/// Whether `msg` turns `before` into `after` with result `r`: what the
/// operation that `msg` names does.
pub open spec fn executes(
    before: PropositionsView,
    env: Env,
    info: MessageInfoView,
    msg: ExecuteMsgView,
    after: PropositionsView,
    r: Outcome,
) -> bool {
    match msg {
        ExecuteMsgView::CreateProposition {
            proposition_type,
            deposit,
            assets,
            premium,
            period,
            expiry,
            contractor,
        } => creates(
            before,
            info,
            created(
                info.sender,
                proposition_type,
                deposit,
                assets,
                premium,
                period,
                expiry,
                contractor,
            ),
            after,
            r,
        ),
        ExecuteMsgView::AcceptProposition { proposition_id } => accepts(
            before,
            env,
            info,
            proposition_id,
            after,
            r,
        ),
        ExecuteMsgView::RejectProposition { proposition_id } => rejects(
            before,
            info,
            proposition_id,
            after,
            r,
        ),
        ExecuteMsgView::CloseProposition { proposition_id } => closes(
            before,
            env,
            info,
            proposition_id,
            after,
            r,
        ),
    }
}

/// Carries out the operation that `msg` names.
pub fn execute(store: &mut PropositionStore, env: Env, info: MessageInfo, msg: ExecuteMsg) -> (r:
    Result<Response, ContractError>)
    requires
        execute_in_range(old(store)@, env, msg@),
    ensures
        final(store)@.wf(),
        executes(old(store)@, env, info@, msg@, final(store)@, outcome_view(r)),
{
    match msg {
        ExecuteMsg::CreateProposition {
            proposition_type,
            deposit,
            assets,
            premium,
            period,
            expiry,
            contractor,
        } => create_proposition(
            store,
            env,
            info,
            proposition_type,
            deposit,
            assets,
            premium,
            period,
            expiry,
            contractor,
        ),
        ExecuteMsg::AcceptProposition { proposition_id } => accept_proposition(
            store,
            env,
            info,
            proposition_id,
        ),
        ExecuteMsg::RejectProposition { proposition_id } => reject_proposition(
            store,
            env,
            info,
            proposition_id,
        ),
        ExecuteMsg::CloseProposition { proposition_id } => close_proposition(
            store,
            env,
            info,
            proposition_id,
        ),
    }
}

/// What the question `msg` comes to on the store `s`.
pub open spec fn query_outcome(s: PropositionsView, msg: QueryMsg) -> Result<
    QueryResponseView,
    ContractErrorView,
> {
    match msg {
        QueryMsg::GetPropositions { start_before, limit } => Ok(
            QueryResponseView::Propositions(
                page(s.propositions, bound_of(start_before), page_size(limit)),
            ),
        ),
        QueryMsg::GetPropositionCount {  } => Ok(QueryResponseView::PropositionCount(s.count)),
        QueryMsg::GetProposition { proposition_id } => if s.propositions.contains_key(
            proposition_id,
        ) {
            Ok(QueryResponseView::Proposition(s.propositions[proposition_id]))
        } else {
            Err(ContractErrorView::NotFound)
        },
    }
}

/// The value of the outcome of a question.
pub open spec fn answer_view(r: Result<QueryResponse, ContractError>) -> Result<
    QueryResponseView,
    ContractErrorView,
> {
    match r {
        Ok(answer) => Ok(answer@),
        Err(e) => Err(e@),
    }
}

/// Answers the question `msg`. The store is only read, so the same question
/// has the same answer until an operation changes the store.
pub fn query(store: &PropositionStore, env: Env, msg: QueryMsg) -> (r: Result<
    QueryResponse,
    ContractError,
>)
    ensures
        answer_view(r) == query_outcome(store@, msg),
{
    match msg {
        QueryMsg::GetPropositions { start_before, limit } => Ok(
            QueryResponse::Propositions(store.list(start_before, limit)),
        ),
        QueryMsg::GetPropositionCount {  } => Ok(QueryResponse::PropositionCount(store.count())),
        QueryMsg::GetProposition { proposition_id } => match store.load(proposition_id) {
            Ok(p) => Ok(QueryResponse::Proposition(p)),
            Err(e) => Err(e),
        },
    }
}

/// Sets the escrow up. The store is left as it is, so setting up twice does
/// no harm; the response names the caller as owner.
pub fn instantiate(store: &mut PropositionStore, env: Env, info: MessageInfo, msg: InstantiateMsg) -> (r:
    Result<Response, ContractError>)
    ensures
        final(store)@ == old(store)@,
        outcome_view(r) == Ok::<ResponseView, ContractErrorView>(
            ResponseView {
                messages: Seq::empty(),
                attributes: seq![("method"@, "instantiate"@), ("owner"@, info@.sender)],
            },
        ),
{
    let response = Response::new().add_attribute("method", "instantiate".to_string()).add_attribute(
        "owner",
        info.sender,
    );
    assert(response@.attributes =~= seq![("method"@, "instantiate"@), ("owner"@, info@.sender)]);
    Ok(response)
}

/// Takes note that the escrow's code was replaced. Nothing changes.
pub fn migrate(store: &mut PropositionStore, env: Env, msg: MigrateMsg) -> (r: Result<
    Response,
    ContractError,
>)
    ensures
        final(store)@ == old(store)@,
        outcome_view(r) == Ok::<ResponseView, ContractErrorView>(
            ResponseView { messages: Seq::empty(), attributes: Seq::empty() },
        ),
{
    Ok(Response::new())
}

/// Takes a call from the host itself. Nothing changes.
pub fn sudo(store: &mut PropositionStore, env: Env, msg: SudoMsg) -> (r: Result<
    Response,
    ContractError,
>)
    ensures
        final(store)@ == old(store)@,
        outcome_view(r) == Ok::<ResponseView, ContractErrorView>(
            ResponseView { messages: Seq::empty(), attributes: Seq::empty() },
        ),
{
    match msg {
        SudoMsg::BeginBlocker {  } => Ok(Response::new()),
    }
}

} // verus!
