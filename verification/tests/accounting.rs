//! Funds accounting on plain lists of coins.

use crypto_pawn::balance::{charge, normalize, subtract};
use crypto_pawn::coin::Coin;
use crypto_pawn::error::ContractError;
use crypto_pawn::helpers::{CwTemplateContract, WasmMsg};
use crypto_pawn::host::decimal_string;
use crypto_pawn::msg::{ExecuteMsg, PropositionType};

fn coin(amount: u128, denom: &str) -> Coin {
    Coin::new(amount, denom)
}

#[test]
fn coin_new_keeps_amount_and_denomination() {
    let c = Coin::new(100, "atom");
    assert_eq!(c.amount, 100);
    assert_eq!(c.denom, "atom");
    assert_eq!(c.clone(), c);
}

#[test]
fn subtract_reduces_the_entry() {
    let rest = subtract(vec![coin(5, "a"), coin(3, "b")], &coin(2, "a")).unwrap();
    assert_eq!(rest, vec![coin(3, "a"), coin(3, "b")]);
}

#[test]
fn subtract_removes_an_entry_that_drops_to_zero() {
    let rest = subtract(vec![coin(5, "a"), coin(3, "b")], &coin(3, "b")).unwrap();
    assert_eq!(rest, vec![coin(5, "a")]);
}

#[test]
fn subtract_fails_on_a_smaller_amount() {
    let result = subtract(vec![coin(5, "a"), coin(3, "b")], &coin(4, "b"));
    assert_eq!(
        result,
        Err(ContractError::PaymentError { expected: coin(4, "b"), actual: Some(coin(3, "b")) })
    );
}

#[test]
fn subtract_fails_on_a_missing_denomination() {
    let result = subtract(vec![coin(5, "a")], &coin(0, "b"));
    assert_eq!(result, Err(ContractError::PaymentError { expected: coin(0, "b"), actual: None }));
    let result = subtract(vec![], &coin(1, "a"));
    assert_eq!(result, Err(ContractError::PaymentError { expected: coin(1, "a"), actual: None }));
}

#[test]
fn subtract_looks_at_the_first_entry_of_a_denomination_only() {
    let funds = vec![coin(1, "a"), coin(10, "a")];
    let result = subtract(funds, &coin(5, "a"));
    assert_eq!(
        result,
        Err(ContractError::PaymentError { expected: coin(5, "a"), actual: Some(coin(1, "a")) })
    );
    let rest = subtract(vec![coin(1, "a"), coin(10, "a")], &coin(1, "a")).unwrap();
    assert_eq!(rest, vec![coin(10, "a")]);
}

#[test]
fn subtract_of_zero_from_zero_removes_the_entry() {
    let rest = subtract(vec![coin(0, "a"), coin(1, "b")], &coin(0, "a")).unwrap();
    assert_eq!(rest, vec![coin(1, "b")]);
}

#[test]
fn subtract_works_at_the_largest_amount() {
    let rest = subtract(vec![coin(u128::MAX, "a")], &coin(u128::MAX - 1, "a")).unwrap();
    assert_eq!(rest, vec![coin(1, "a")]);
}

#[test]
fn charge_pays_the_dues_in_order() {
    let rest = charge(vec![coin(10, "a"), coin(3, "b")], &vec![coin(4, "a"), coin(6, "a")]).unwrap();
    assert_eq!(rest, vec![coin(3, "b")]);
    let rest = charge(vec![coin(10, "a")], &vec![]).unwrap();
    assert_eq!(rest, vec![coin(10, "a")]);
}

#[test]
fn charge_stops_at_the_first_shortfall() {
    let result = charge(vec![coin(10, "a"), coin(3, "b")], &vec![coin(4, "a"), coin(7, "a"), coin(9, "b")]);
    assert_eq!(
        result,
        Err(ContractError::PaymentError { expected: coin(7, "a"), actual: Some(coin(6, "a")) })
    );
}

#[test]
fn normalize_merges_sorts_and_drops_zeros() {
    let out = normalize(vec![coin(5, "b"), coin(0, "c"), coin(3, "a"), coin(2, "b")]);
    assert_eq!(out, vec![coin(3, "a"), coin(7, "b")]);
}

#[test]
fn normalize_of_nothing_is_nothing() {
    assert_eq!(normalize(vec![]), vec![]);
    assert_eq!(normalize(vec![coin(0, "a"), coin(0, "a")]), vec![]);
}

#[test]
fn normalize_keeps_a_normal_form() {
    let out = normalize(vec![coin(1, "a"), coin(2, "ab"), coin(3, "b")]);
    assert_eq!(out, vec![coin(1, "a"), coin(2, "ab"), coin(3, "b")]);
}

#[test]
fn normalize_orders_by_code_point() {
    let out = normalize(vec![coin(1, "b"), coin(1, "B"), coin(1, "a1"), coin(1, "a"), coin(1, "é")]);
    assert_eq!(out, vec![coin(1, "B"), coin(1, "a"), coin(1, "a1"), coin(1, "b"), coin(1, "é")]);
}

#[test]
fn normalize_adds_up_to_the_largest_amount() {
    let out = normalize(vec![coin(u128::MAX - 5, "a"), coin(2, "a"), coin(3, "a")]);
    assert_eq!(out, vec![coin(u128::MAX, "a")]);
}

#[test]
fn decimal_string_writes_numerals() {
    assert_eq!(decimal_string(0), "0");
    assert_eq!(decimal_string(7), "7");
    assert_eq!(decimal_string(10), "10");
    assert_eq!(decimal_string(12345), "12345");
    assert_eq!(decimal_string(u64::MAX), "18446744073709551615");
}

#[test]
fn proposition_type_is_written_by_name() {
    assert_eq!(PropositionType::Ask.to_string(), "Ask");
    assert_eq!(PropositionType::Bid.to_string(), "Bid");
}

#[test]
fn a_call_is_addressed_to_the_contract() {
    let contract = CwTemplateContract("escrow".to_string());
    assert_eq!(contract.addr(), "escrow");
    assert_eq!(
        contract.call(ExecuteMsg::AcceptProposition { proposition_id: 4 }),
        Ok(WasmMsg::Execute {
            contract_addr: "escrow".to_string(),
            msg: ExecuteMsg::AcceptProposition { proposition_id: 4 },
            funds: vec![],
        })
    );
    assert_eq!(
        contract.call_with_funds(
            ExecuteMsg::CloseProposition { proposition_id: 4 },
            vec![coin(5, "a"), coin(1, "b")]
        ),
        Ok(WasmMsg::Execute {
            contract_addr: "escrow".to_string(),
            msg: ExecuteMsg::CloseProposition { proposition_id: 4 },
            funds: vec![coin(5, "a"), coin(1, "b")],
        })
    );
}
