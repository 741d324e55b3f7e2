//! The four operations, called directly: what each writes, what it pays out
//! and when it refuses.

use crypto_pawn::coin::Coin;
use crypto_pawn::contract::{
    accept_proposition, close_proposition, create_proposition, execute, instantiate, migrate,
    next_id, query, reject_proposition, send_coins_from_contract_to_message, sudo,
};
use crypto_pawn::error::ContractError;
use crypto_pawn::host::{Attribute, BankMsg, Env, MessageInfo, Response};
use crypto_pawn::msg::{
    ExecuteMsg, InstantiateMsg, MigrateMsg, PropositionState, PropositionType, QueryMsg,
    QueryResponse, SudoMsg,
};
use crypto_pawn::state::{Proposition, PropositionStore};

const OWNER: &str = "owner";
const TAKER: &str = "taker";
const OTHER: &str = "other";
const NOW: u64 = 1_000;

fn coin(amount: u128, denom: &str) -> Coin {
    Coin::new(amount, denom)
}

fn info(sender: &str, funds: Vec<Coin>) -> MessageInfo {
    MessageInfo { sender: sender.to_string(), funds }
}

fn at(time: u64) -> Env {
    Env { time }
}

fn attr(key: &str, value: &str) -> Attribute {
    Attribute { key: key.to_string(), value: value.to_string() }
}

fn send(to: &str, amount: Vec<Coin>) -> BankMsg {
    BankMsg::Send { to_address: to.to_string(), amount }
}

fn create(
    store: &mut PropositionStore,
    proposition_type: PropositionType,
    funds: Vec<Coin>,
    contractor: Option<String>,
) -> Result<Response, ContractError> {
    create_proposition(
        store,
        at(NOW),
        info(OWNER, funds),
        proposition_type,
        coin(100, "d1"),
        coin(100, "d2"),
        coin(100, "d3"),
        50,
        NOW + 100,
        contractor,
    )
}

fn ask_store() -> PropositionStore {
    let mut store = PropositionStore::new();
    create(&mut store, PropositionType::Ask, vec![coin(100, "d1"), coin(100, "d3")], None).unwrap();
    store
}

fn bid_store() -> PropositionStore {
    let mut store = PropositionStore::new();
    create(&mut store, PropositionType::Bid, vec![coin(100, "d2")], None).unwrap();
    store
}

fn accepted_ask_store() -> PropositionStore {
    let mut store = ask_store();
    accept_proposition(&mut store, at(NOW + 10), info(TAKER, vec![coin(100, "d2")]), 1).unwrap();
    store
}

fn accepted_bid_store() -> PropositionStore {
    let mut store = bid_store();
    accept_proposition(
        &mut store,
        at(NOW + 10),
        info(TAKER, vec![coin(100, "d1"), coin(100, "d3")]),
        1,
    )
    .unwrap();
    store
}

fn active_ask() -> Proposition {
    Proposition {
        owner: OWNER.to_string(),
        proposition_type: PropositionType::Ask,
        state: PropositionState::Active,
        deposit: coin(100, "d1"),
        assets: coin(100, "d2"),
        premium: coin(100, "d3"),
        period: 50,
        expiry: NOW + 100,
        contractor: None,
    }
}

#[test]
fn create_ask_stores_an_active_proposition_under_id_one() {
    let mut store = PropositionStore::new();
    let response =
        create(&mut store, PropositionType::Ask, vec![coin(100, "d1"), coin(100, "d3")], None)
            .unwrap();
    assert_eq!(
        response,
        Response {
            messages: vec![],
            attributes: vec![attr("method", "create_proposition"), attr("proposition_id", "1")],
        }
    );
    assert_eq!(store.count(), 1);
    assert_eq!(store.load(1).unwrap(), active_ask());
}

#[test]
fn create_bid_needs_the_assets_only() {
    let mut store = PropositionStore::new();
    let response = create(&mut store, PropositionType::Bid, vec![coin(100, "d2")], None).unwrap();
    assert_eq!(response.attributes[1], attr("proposition_id", "1"));
    let stored = store.load(1).unwrap();
    assert_eq!(stored.proposition_type, PropositionType::Bid);
    assert_eq!(stored.state, PropositionState::Active);
    assert_eq!(stored.owner, OWNER);
}

#[test]
fn create_hands_out_ids_in_sequence() {
    let mut store = ask_store();
    let second = create(&mut store, PropositionType::Bid, vec![coin(100, "d2")], None).unwrap();
    let third = create(&mut store, PropositionType::Bid, vec![coin(100, "d2")], None).unwrap();
    assert_eq!(second.attributes[1], attr("proposition_id", "2"));
    assert_eq!(third.attributes[1], attr("proposition_id", "3"));
    assert_eq!(store.count(), 3);
}

#[test]
fn create_ask_short_of_the_premium_fails_and_stores_nothing() {
    let mut store = PropositionStore::new();
    let result =
        create(&mut store, PropositionType::Ask, vec![coin(100, "d1"), coin(99, "d3")], None);
    assert_eq!(
        result,
        Err(ContractError::PaymentError {
            expected: coin(100, "d3"),
            actual: Some(coin(99, "d3")),
        })
    );
    assert_eq!(store.count(), 0);
    assert_eq!(store.load(1), Err(ContractError::NotFound {}));
}

#[test]
fn create_ask_without_the_deposit_denomination_fails() {
    let mut store = PropositionStore::new();
    let result = create(&mut store, PropositionType::Ask, vec![coin(100, "d3")], None);
    assert_eq!(
        result,
        Err(ContractError::PaymentError { expected: coin(100, "d1"), actual: None })
    );
}

#[test]
fn create_bid_with_the_ask_escrow_fails() {
    let mut store = PropositionStore::new();
    let result =
        create(&mut store, PropositionType::Bid, vec![coin(100, "d1"), coin(100, "d3")], None);
    assert_eq!(
        result,
        Err(ContractError::PaymentError { expected: coin(100, "d2"), actual: None })
    );
}

#[test]
fn create_keeps_funds_beyond_the_escrow() {
    let mut store = PropositionStore::new();
    let result = create(
        &mut store,
        PropositionType::Ask,
        vec![coin(500, "d1"), coin(7, "d9"), coin(100, "d3")],
        None,
    );
    assert!(result.is_ok());
}

#[test]
fn accept_ask_pays_assets_to_owner_and_premium_to_contractor() {
    let mut store = ask_store();
    let response =
        accept_proposition(&mut store, at(NOW + 10), info(TAKER, vec![coin(100, "d2")]), 1)
            .unwrap();
    assert_eq!(
        response,
        Response {
            messages: vec![
                send(OWNER, vec![coin(100, "d2")]),
                send(TAKER, vec![coin(100, "d3")]),
            ],
            attributes: vec![
                attr("method", "accept_proposition"),
                attr("id", "1"),
                attr("proposition_type", "Ask"),
                attr("owner", OWNER),
                attr("contractor", TAKER),
            ],
        }
    );
    let stored = store.load(1).unwrap();
    assert_eq!(
        stored,
        Proposition {
            state: PropositionState::Accepted,
            contractor: Some(TAKER.to_string()),
            expiry: NOW + 10 + 50,
            ..active_ask()
        }
    );
}

#[test]
fn accept_bid_pays_assets_to_contractor_and_premium_to_owner() {
    let mut store = bid_store();
    let response = accept_proposition(
        &mut store,
        at(NOW),
        info(TAKER, vec![coin(100, "d1"), coin(100, "d3")]),
        1,
    )
    .unwrap();
    assert_eq!(
        response.messages,
        vec![send(TAKER, vec![coin(100, "d2")]), send(OWNER, vec![coin(100, "d3")])]
    );
    assert_eq!(response.attributes[2], attr("proposition_type", "Bid"));
    assert_eq!(store.load(1).unwrap().state, PropositionState::Accepted);
}

#[test]
fn accept_by_the_owner_is_unauthorized() {
    let mut store = ask_store();
    let result = accept_proposition(&mut store, at(NOW), info(OWNER, vec![coin(100, "d2")]), 1);
    assert_eq!(result, Err(ContractError::Unauthorized {}));
    assert_eq!(store.load(1).unwrap(), active_ask());
}

#[test]
fn accept_of_a_missing_proposition_is_not_found() {
    let mut store = ask_store();
    let result = accept_proposition(&mut store, at(NOW), info(TAKER, vec![coin(100, "d2")]), 2);
    assert_eq!(result, Err(ContractError::NotFound {}));
}

#[test]
fn accept_at_the_expiry_succeeds_and_one_second_later_is_expired() {
    let mut store = ask_store();
    let late = accept_proposition(&mut store, at(NOW + 101), info(TAKER, vec![coin(100, "d2")]), 1);
    assert_eq!(late, Err(ContractError::Expired {}));
    assert_eq!(store.load(1).unwrap(), active_ask());
    let on_time =
        accept_proposition(&mut store, at(NOW + 100), info(TAKER, vec![coin(100, "d2")]), 1);
    assert!(on_time.is_ok());
    assert_eq!(store.load(1).unwrap().expiry, NOW + 100 + 50);
}

#[test]
fn accept_twice_fails_with_wrong_state() {
    let mut store = accepted_ask_store();
    let result = accept_proposition(&mut store, at(NOW), info(OTHER, vec![coin(100, "d2")]), 1);
    assert_eq!(
        result,
        Err(ContractError::WrongPropositionStatus {
            expected: PropositionState::Active,
            current: PropositionState::Accepted,
        })
    );
}

#[test]
fn accept_short_of_the_assets_fails_and_changes_nothing() {
    let mut store = ask_store();
    let result = accept_proposition(&mut store, at(NOW), info(TAKER, vec![coin(99, "d2")]), 1);
    assert_eq!(
        result,
        Err(ContractError::PaymentError {
            expected: coin(100, "d2"),
            actual: Some(coin(99, "d2")),
        })
    );
    assert_eq!(store.load(1).unwrap(), active_ask());
}

#[test]
fn accept_is_for_the_named_contractor_only() {
    let mut store = PropositionStore::new();
    create(
        &mut store,
        PropositionType::Ask,
        vec![coin(100, "d1"), coin(100, "d3")],
        Some(TAKER.to_string()),
    )
    .unwrap();
    let stranger = accept_proposition(&mut store, at(NOW), info(OTHER, vec![coin(100, "d2")]), 1);
    assert_eq!(stranger, Err(ContractError::Unauthorized {}));
    assert_eq!(store.load(1).unwrap().state, PropositionState::Active);
    let named = accept_proposition(&mut store, at(NOW), info(TAKER, vec![coin(100, "d2")]), 1);
    assert!(named.is_ok());
    assert_eq!(store.load(1).unwrap().contractor, Some(TAKER.to_string()));
}

#[test]
fn reject_ask_returns_deposit_and_premium_to_the_owner() {
    let mut store = ask_store();
    let response = reject_proposition(&mut store, at(NOW), info(OWNER, vec![]), 1).unwrap();
    assert_eq!(
        response,
        Response {
            messages: vec![send(OWNER, vec![coin(100, "d1"), coin(100, "d3")])],
            attributes: vec![attr("method", "reject_proposition")],
        }
    );
    assert_eq!(
        store.load(1).unwrap(),
        Proposition { state: PropositionState::Rejected, ..active_ask() }
    );
}

#[test]
fn reject_bid_returns_the_assets_to_the_owner() {
    let mut store = bid_store();
    let response = reject_proposition(&mut store, at(NOW), info(OWNER, vec![]), 1).unwrap();
    assert_eq!(response.messages, vec![send(OWNER, vec![coin(100, "d2")])]);
}

#[test]
fn reject_merges_deposit_and_premium_of_one_denomination() {
    let mut store = PropositionStore::new();
    create_proposition(
        &mut store,
        at(NOW),
        info(OWNER, vec![coin(150, "inj")]),
        PropositionType::Ask,
        coin(100, "inj"),
        coin(100, "atom"),
        coin(50, "inj"),
        50,
        NOW + 100,
        None,
    )
    .unwrap();
    let response = reject_proposition(&mut store, at(NOW), info(OWNER, vec![]), 1).unwrap();
    assert_eq!(response.messages, vec![send(OWNER, vec![coin(150, "inj")])]);
}

#[test]
fn reject_by_another_account_is_unauthorized() {
    let mut store = ask_store();
    let result = reject_proposition(&mut store, at(NOW), info(TAKER, vec![]), 1);
    assert_eq!(result, Err(ContractError::Unauthorized {}));
    assert_eq!(store.load(1).unwrap(), active_ask());
}

#[test]
fn reject_of_a_missing_proposition_is_not_found() {
    let mut store = PropositionStore::new();
    let result = reject_proposition(&mut store, at(NOW), info(OWNER, vec![]), 1);
    assert_eq!(result, Err(ContractError::NotFound {}));
}

#[test]
fn reject_of_an_accepted_proposition_fails_with_wrong_state() {
    let mut store = accepted_ask_store();
    let before = store.load(1).unwrap();
    let result = reject_proposition(&mut store, at(NOW), info(OWNER, vec![]), 1);
    assert_eq!(
        result,
        Err(ContractError::WrongPropositionStatus {
            expected: PropositionState::Active,
            current: PropositionState::Accepted,
        })
    );
    assert_eq!(store.load(1).unwrap(), before);
}

#[test]
fn reject_of_a_rejected_proposition_fails_with_wrong_state() {
    let mut store = ask_store();
    reject_proposition(&mut store, at(NOW), info(OWNER, vec![]), 1).unwrap();
    let result = reject_proposition(&mut store, at(NOW), info(OWNER, vec![]), 1);
    assert_eq!(
        result,
        Err(ContractError::WrongPropositionStatus {
            expected: PropositionState::Active,
            current: PropositionState::Rejected,
        })
    );
}

#[test]
fn close_ask_by_the_owner_before_expiry_swaps_assets_and_deposit() {
    let mut store = accepted_ask_store();
    let response =
        close_proposition(&mut store, at(NOW + 20), info(OWNER, vec![coin(100, "d2")]), 1).unwrap();
    assert_eq!(
        response,
        Response {
            messages: vec![
                send(TAKER, vec![coin(100, "d2")]),
                send(OWNER, vec![coin(100, "d1")]),
            ],
            attributes: vec![
                attr("method", "close_proposition"),
                attr("id", "1"),
                attr("proposition_type", "Ask"),
                attr("owner", OWNER),
                attr("contractor", TAKER),
            ],
        }
    );
    assert_eq!(store.load(1).unwrap().state, PropositionState::Closed);
    assert_eq!(store.load(1).unwrap().contractor, Some(TAKER.to_string()));
}

#[test]
fn close_ask_after_expiry_is_for_the_contractor_and_pays_the_deposit_only() {
    let mut store = accepted_ask_store();
    let expiry = store.load(1).unwrap().expiry;
    let by_owner =
        close_proposition(&mut store, at(expiry + 1), info(OWNER, vec![coin(100, "d2")]), 1);
    assert_eq!(by_owner, Err(ContractError::Unauthorized {}));
    assert_eq!(store.load(1).unwrap().state, PropositionState::Accepted);
    let by_contractor =
        close_proposition(&mut store, at(expiry + 1), info(TAKER, vec![]), 1).unwrap();
    assert_eq!(by_contractor.messages, vec![send(TAKER, vec![coin(100, "d1")])]);
    assert_eq!(store.load(1).unwrap().state, PropositionState::Closed);
}

#[test]
fn close_at_the_expiry_itself_is_still_the_lenders() {
    let mut store = accepted_ask_store();
    let expiry = store.load(1).unwrap().expiry;
    assert_eq!(expiry, NOW + 10 + 50);
    let by_contractor = close_proposition(&mut store, at(expiry), info(TAKER, vec![]), 1);
    assert_eq!(by_contractor, Err(ContractError::Unauthorized {}));
    let by_owner =
        close_proposition(&mut store, at(expiry), info(OWNER, vec![coin(100, "d2")]), 1).unwrap();
    assert_eq!(by_owner.messages.len(), 2);
}

#[test]
fn close_bid_before_expiry_is_for_the_contractor() {
    let mut store = accepted_bid_store();
    let by_owner = close_proposition(&mut store, at(NOW + 20), info(OWNER, vec![coin(100, "d2")]), 1);
    assert_eq!(by_owner, Err(ContractError::Unauthorized {}));
    let response =
        close_proposition(&mut store, at(NOW + 20), info(TAKER, vec![coin(100, "d2")]), 1).unwrap();
    assert_eq!(
        response.messages,
        vec![send(OWNER, vec![coin(100, "d2")]), send(TAKER, vec![coin(100, "d1")])]
    );
}

#[test]
fn close_bid_after_expiry_is_for_the_owner() {
    let mut store = accepted_bid_store();
    let expiry = store.load(1).unwrap().expiry;
    let by_contractor = close_proposition(&mut store, at(expiry + 1), info(TAKER, vec![]), 1);
    assert_eq!(by_contractor, Err(ContractError::Unauthorized {}));
    let response = close_proposition(&mut store, at(expiry + 1), info(OWNER, vec![]), 1).unwrap();
    assert_eq!(response.messages, vec![send(OWNER, vec![coin(100, "d1")])]);
}

#[test]
fn close_before_expiry_without_the_assets_fails() {
    let mut store = accepted_ask_store();
    let before = store.load(1).unwrap();
    let result = close_proposition(&mut store, at(NOW + 20), info(OWNER, vec![coin(5, "d1")]), 1);
    assert_eq!(
        result,
        Err(ContractError::PaymentError { expected: coin(100, "d2"), actual: None })
    );
    assert_eq!(store.load(1).unwrap(), before);
}

#[test]
fn close_of_an_active_proposition_fails_with_wrong_state() {
    let mut store = ask_store();
    let result = close_proposition(&mut store, at(NOW), info(OWNER, vec![coin(100, "d2")]), 1);
    assert_eq!(
        result,
        Err(ContractError::WrongPropositionStatus {
            expected: PropositionState::Accepted,
            current: PropositionState::Active,
        })
    );
}

#[test]
fn close_of_a_closed_proposition_fails_with_wrong_state() {
    let mut store = accepted_ask_store();
    close_proposition(&mut store, at(NOW + 20), info(OWNER, vec![coin(100, "d2")]), 1).unwrap();
    let before = store.load(1).unwrap();
    let result = close_proposition(&mut store, at(NOW + 20), info(OWNER, vec![coin(100, "d2")]), 1);
    assert_eq!(
        result,
        Err(ContractError::WrongPropositionStatus {
            expected: PropositionState::Accepted,
            current: PropositionState::Closed,
        })
    );
    assert_eq!(store.load(1).unwrap(), before);
}

#[test]
fn close_of_a_missing_proposition_is_not_found() {
    let mut store = PropositionStore::new();
    let result = close_proposition(&mut store, at(NOW), info(OWNER, vec![]), 9);
    assert_eq!(result, Err(ContractError::NotFound {}));
}

#[test]
fn zero_amounts_are_left_out_of_the_transfers() {
    let mut store = PropositionStore::new();
    create_proposition(
        &mut store,
        at(NOW),
        info(OWNER, vec![coin(100, "d1"), coin(0, "d3")]),
        PropositionType::Ask,
        coin(100, "d1"),
        coin(100, "d2"),
        coin(0, "d3"),
        50,
        NOW + 100,
        None,
    )
    .unwrap();
    let response =
        accept_proposition(&mut store, at(NOW), info(TAKER, vec![coin(100, "d2")]), 1).unwrap();
    assert_eq!(response.messages, vec![send(OWNER, vec![coin(100, "d2")]), send(TAKER, vec![])]);
}

#[test]
fn execute_dispatches_each_message() {
    let mut store = PropositionStore::new();
    let created = execute(
        &mut store,
        at(NOW),
        info(OWNER, vec![coin(100, "d1"), coin(100, "d3")]),
        ExecuteMsg::CreateProposition {
            proposition_type: PropositionType::Ask,
            deposit: coin(100, "d1"),
            assets: coin(100, "d2"),
            premium: coin(100, "d3"),
            period: 50,
            expiry: NOW + 100,
            contractor: None,
        },
    )
    .unwrap();
    assert_eq!(created.attributes[0], attr("method", "create_proposition"));
    let accepted = execute(
        &mut store,
        at(NOW),
        info(TAKER, vec![coin(100, "d2")]),
        ExecuteMsg::AcceptProposition { proposition_id: 1 },
    )
    .unwrap();
    assert_eq!(accepted.attributes[0], attr("method", "accept_proposition"));
    let rejected =
        execute(&mut store, at(NOW), info(OWNER, vec![]), ExecuteMsg::RejectProposition {
            proposition_id: 1,
        });
    assert_eq!(
        rejected,
        Err(ContractError::WrongPropositionStatus {
            expected: PropositionState::Active,
            current: PropositionState::Accepted,
        })
    );
    let closed = execute(
        &mut store,
        at(NOW),
        info(OWNER, vec![coin(100, "d2")]),
        ExecuteMsg::CloseProposition { proposition_id: 1 },
    )
    .unwrap();
    assert_eq!(closed.attributes[0], attr("method", "close_proposition"));
    assert_eq!(store.load(1).unwrap().state, PropositionState::Closed);
}

#[test]
fn query_answers_count_record_and_page() {
    let mut store = ask_store();
    create(&mut store, PropositionType::Bid, vec![coin(100, "d2")], None).unwrap();
    assert_eq!(
        query(&store, at(NOW), QueryMsg::GetPropositionCount {}),
        Ok(QueryResponse::PropositionCount(2))
    );
    assert_eq!(
        query(&store, at(NOW), QueryMsg::GetProposition { proposition_id: 1 }),
        Ok(QueryResponse::Proposition(active_ask()))
    );
    assert_eq!(
        query(&store, at(NOW), QueryMsg::GetProposition { proposition_id: 3 }),
        Err(ContractError::NotFound {})
    );
    let page = query(&store, at(NOW), QueryMsg::GetPropositions { start_before: None, limit: None })
        .unwrap();
    match page {
        QueryResponse::Propositions(items) => {
            assert_eq!(items.len(), 2);
            assert_eq!(items[0].0, 2);
            assert_eq!(items[1], (1, active_ask()));
        }
        other => panic!("not a page: {:?}", other),
    }
}

#[test]
fn query_twice_gives_the_same_answer() {
    let store = accepted_ask_store();
    let first = query(&store, at(NOW), QueryMsg::GetProposition { proposition_id: 1 });
    let second = query(&store, at(NOW + 500), QueryMsg::GetProposition { proposition_id: 1 });
    assert_eq!(first, second);
}

#[test]
fn instantiate_names_the_caller_and_leaves_the_store() {
    let mut store = ask_store();
    let response = instantiate(&mut store, at(NOW), info(OTHER, vec![]), InstantiateMsg {}).unwrap();
    assert_eq!(
        response,
        Response {
            messages: vec![],
            attributes: vec![attr("method", "instantiate"), attr("owner", OTHER)],
        }
    );
    assert_eq!(store.count(), 1);
    assert_eq!(store.load(1).unwrap(), active_ask());
}

#[test]
fn migrate_and_sudo_do_nothing() {
    let mut store = ask_store();
    let empty = Response { messages: vec![], attributes: vec![] };
    assert_eq!(migrate(&mut store, at(NOW), MigrateMsg {}), Ok(Response::new()));
    assert_eq!(sudo(&mut store, at(NOW), SudoMsg::BeginBlocker {}), Ok(empty));
    assert_eq!(store.count(), 1);
    assert_eq!(store.load(1).unwrap(), active_ask());
}

#[test]
fn next_id_starts_at_one() {
    let mut store = PropositionStore::new();
    assert_eq!(next_id(&mut store), Ok(1));
    assert_eq!(next_id(&mut store), Ok(2));
    assert_eq!(store.count(), 2);
    assert_eq!(store.load(1), Err(ContractError::NotFound {}));
}

#[test]
fn send_coins_merges_sorts_and_drops_zeros() {
    let msg = send_coins_from_contract_to_message(
        &OWNER.to_string(),
        vec![coin(5, "usdt"), coin(0, "sol"), coin(3, "atom"), coin(2, "usdt")],
    )
    .unwrap();
    assert_eq!(msg, send(OWNER, vec![coin(3, "atom"), coin(7, "usdt")]));
}

fn paid_out(responses: &[&Response], denom: &str) -> u128 {
    let mut sum = 0;
    for response in responses {
        for BankMsg::Send { amount, .. } in &response.messages {
            for c in amount {
                if c.denom == denom {
                    sum += c.amount;
                }
            }
        }
    }
    sum
}

#[test]
fn rejected_path_pays_out_the_escrow() {
    let mut store = ask_store();
    let rejected = reject_proposition(&mut store, at(NOW), info(OWNER, vec![]), 1).unwrap();
    assert_eq!(paid_out(&[&rejected], "d1"), 100);
    assert_eq!(paid_out(&[&rejected], "d2"), 0);
    assert_eq!(paid_out(&[&rejected], "d3"), 100);
}

#[test]
fn closed_paths_pay_out_what_was_paid_in() {
    // settled before expiry: in = d1 100, d3 100 (creation), d2 100 (acceptance), d2 100 (closing)
    let mut store = ask_store();
    let accepted =
        accept_proposition(&mut store, at(NOW), info(TAKER, vec![coin(100, "d2")]), 1).unwrap();
    let closed =
        close_proposition(&mut store, at(NOW + 1), info(OWNER, vec![coin(100, "d2")]), 1).unwrap();
    assert_eq!(paid_out(&[&accepted, &closed], "d1"), 100);
    assert_eq!(paid_out(&[&accepted, &closed], "d2"), 200);
    assert_eq!(paid_out(&[&accepted, &closed], "d3"), 100);

    // closed after expiry: in = d1 100, d3 100 (creation), d2 100 (acceptance)
    let mut store = bid_store();
    let accepted = accept_proposition(
        &mut store,
        at(NOW),
        info(TAKER, vec![coin(100, "d1"), coin(100, "d3")]),
        1,
    )
    .unwrap();
    let closed = close_proposition(&mut store, at(NOW + 51), info(OWNER, vec![]), 1).unwrap();
    assert_eq!(paid_out(&[&accepted, &closed], "d1"), 100);
    assert_eq!(paid_out(&[&accepted, &closed], "d2"), 100);
    assert_eq!(paid_out(&[&accepted, &closed], "d3"), 100);
}
