//! Funds accounting: checking that attached funds cover what an operation
//! requires, and bringing outbound amounts into normal form.
//!
//! The arithmetic itself is `cw_utils::NativeBalance`'s. The functions at the
//! top of this file state what it does and are the only ones here that Verus
//! takes on trust.

use vstd::prelude::*;
use cosmwasm_std::StdError;
use cosmwasm_std::Uint128;
use cw_utils::NativeBalance;
use crate::coin::{coin_views, fits, is_normal_form_of, Coin, CoinView};
use crate::error::{ContractError, ContractErrorView};

verus! {

/// `cw_utils::NativeBalance`: a list of coins behind helpers. Verus sees
/// nothing inside a value of it; `held` names what it holds.
#[verifier::external_type_specification]
#[verifier::external_body]
pub struct ExNativeBalance(cw_utils::NativeBalance);

/// `cosmwasm_std::StdError`, of which only the presence is used.
#[verifier::external_type_specification]
#[verifier::external_body]
pub struct ExStdError(cosmwasm_std::StdError);

/// The coins that a balance holds, in order.
pub uninterp spec fn held(balance: NativeBalance) -> Seq<CoinView>;

/// The first position at which `coins` holds `denom`, or the length of
/// `coins` where it holds none.
pub open spec fn position(coins: Seq<CoinView>, denom: Seq<char>) -> int
    decreases coins.len(),
{
    if coins.len() == 0 {
        0
    } else if coins[0].denom == denom {
        0
    } else {
        1 + position(coins.drop_first(), denom)
    }
}

/// Whether `coins` can pay `due`: the first entry in `due`'s denomination
/// exists and holds at least `due`'s amount.
pub open spec fn covers(coins: Seq<CoinView>, due: CoinView) -> bool {
    let i = position(coins, due.denom);
    i < coins.len() && coins[i].amount >= due.amount
}

/// What is left of `coins` once `due` is paid from the first entry in its
/// denomination; an entry that drops to zero leaves the list.
pub open spec fn deducted(coins: Seq<CoinView>, due: CoinView) -> Seq<CoinView> {
    let i = position(coins, due.denom);
    if coins[i].amount == due.amount {
        coins.remove(i)
    } else {
        coins.update(i, CoinView { denom: due.denom, amount: (coins[i].amount - due.amount) as nat })
    }
}

/// Builds a `cw_utils::NativeBalance` around `coins`. Trusted: the balance
/// holds the same coins in the same order.
#[verifier::external_body]
fn balance_of(coins: Vec<Coin>) -> (balance: NativeBalance)
    ensures
        held(balance) == coin_views(coins@),
{
    NativeBalance(
        coins.into_iter().map(
            |c| cosmwasm_std::Coin { denom: c.denom, amount: Uint128::new(c.amount) },
        ).collect(),
    )
}

/// `cw_utils::NativeBalance - cosmwasm_std::Coin`. Trusted: it succeeds
/// exactly when the first entry in the coin's denomination exists and is large
/// enough, and then reduces that entry, removing it when nothing is left.
#[verifier::external_body]
fn balance_sub(balance: NativeBalance, due: &Coin) -> (r: Result<NativeBalance, StdError>)
    ensures
        r is Ok <==> covers(held(balance), due@),
        r matches Ok(rest) ==> held(rest) == deducted(held(balance), due@),
{
    balance - cosmwasm_std::Coin { denom: due.denom.clone(), amount: Uint128::new(due.amount) }
}

/// `cw_utils::NativeBalance::normalize`. Trusted: it sorts by denomination,
/// merges entries of one denomination by adding them, and drops zero amounts.
/// The addition panics on overflow, which `requires` rules out.
#[verifier::external_body]
fn balance_normalize(balance: &mut NativeBalance)
    requires
        fits(held(*old(balance))),
    ensures
        is_normal_form_of(held(*final(balance)), held(*old(balance))),
{
    balance.normalize()
}

/// `cw_utils::NativeBalance::into_vec`. Trusted: it hands out the coins that
/// the balance holds, in order.
#[verifier::external_body]
fn balance_into_vec(balance: NativeBalance) -> (coins: Vec<Coin>)
    ensures
        coin_views(coins@) == held(balance),
{
    balance.into_vec().into_iter().map(
        |c| Coin { denom: c.denom, amount: c.amount.u128() },
    ).collect()
}

/// What `coins` holds in `denom`: its first entry in that denomination.
pub open spec fn holding(coins: Seq<CoinView>, denom: Seq<char>) -> Option<CoinView> {
    let i = position(coins, denom);
    if i < coins.len() {
        Some(coins[i])
    } else {
        None
    }
}

/// Paying `due` out of `funds`: what is left, or the shortfall.
pub open spec fn subtracted(funds: Seq<CoinView>, due: CoinView) -> Result<
    Seq<CoinView>,
    ContractErrorView,
> {
    if covers(funds, due) {
        Ok(deducted(funds, due))
    } else {
        Err(ContractErrorView::PaymentError { expected: due, actual: holding(funds, due.denom) })
    }
}

/// Paying `dues` out of `funds` one after the other: what is left, or the
/// first shortfall.
pub open spec fn charged(funds: Seq<CoinView>, dues: Seq<CoinView>) -> Result<
    Seq<CoinView>,
    ContractErrorView,
>
    decreases dues.len(),
{
    if dues.len() == 0 {
        Ok(funds)
    } else {
        match subtracted(funds, dues[0]) {
            Ok(rest) => charged(rest, dues.drop_first()),
            Err(e) => Err(e),
        }
    }
}

/// The value of the outcome of a payment.
pub open spec fn payment_view(r: Result<Vec<Coin>, ContractError>) -> Result<
    Seq<CoinView>,
    ContractErrorView,
> {
    match r {
        Ok(rest) => Ok(coin_views(rest@)),
        Err(e) => Err(e@),
    }
}

/// The first coin of `coins` in `denom`.
fn find_holding(coins: &Vec<Coin>, denom: &String) -> (found: Option<Coin>)
    ensures
        match found {
            Some(c) => holding(coin_views(coins@), denom@) == Some(c@),
            None => holding(coin_views(coins@), denom@) is None,
        },
{
    let mut i: usize = 0;
    assert(coin_views(coins@).skip(0) =~= coin_views(coins@));
    while i < coins.len()
        invariant
            i <= coins@.len(),
            position(coin_views(coins@), denom@) == i + position(
                coin_views(coins@).skip(i as int),
                denom@,
            ),
        decreases coins@.len() - i,
    {
        let ghost rest = coin_views(coins@).skip(i as int);
        assert(rest[0] == coins@[i as int]@);
        if coins[i].denom == *denom {
            return Some(coins[i].clone());
        }
        assert(rest.drop_first() =~= coin_views(coins@).skip(i + 1));
        i = i + 1;
    }
    None
}

/// Pays `due` out of `funds`. It fails where `funds` holds nothing in that
/// denomination, or less than `due` in its first entry of it.
pub fn subtract(funds: Vec<Coin>, due: &Coin) -> (r: Result<Vec<Coin>, ContractError>)
    ensures
        payment_view(r) == subtracted(coin_views(funds@), due@),
{
    let actual = find_holding(&funds, &due.denom);
    let balance = balance_of(funds);
    match balance_sub(balance, due) {
        Ok(rest) => Ok(balance_into_vec(rest)),
        Err(_) => Err(ContractError::PaymentError { expected: due.clone(), actual }),
    }
}

/// Pays each of `dues` out of `funds`, in order, and stops at the first that
/// `funds` cannot cover.
pub fn charge(funds: Vec<Coin>, dues: &Vec<Coin>) -> (r: Result<Vec<Coin>, ContractError>)
    ensures
        payment_view(r) == charged(coin_views(funds@), coin_views(dues@)),
{
    let mut rest = funds;
    let mut i: usize = 0;
    assert(coin_views(dues@).skip(0) =~= coin_views(dues@));
    while i < dues.len()
        invariant
            i <= dues@.len(),
            charged(coin_views(funds@), coin_views(dues@)) == charged(
                coin_views(rest@),
                coin_views(dues@).skip(i as int),
            ),
        decreases dues@.len() - i,
    {
        let ghost ahead = coin_views(dues@).skip(i as int);
        assert(ahead[0] == dues@[i as int]@);
        assert(ahead.drop_first() =~= coin_views(dues@).skip(i + 1));
        match subtract(rest, &dues[i]) {
            Ok(left) => {
                rest = left;
            },
            Err(e) => {
                return Err(e);
            },
        }
        i = i + 1;
    }
    Ok(rest)
}

/// Brings `coins` into normal form: one entry for each denomination held,
/// with the sum of what `coins` holds in it, ascending by denomination. The
/// sums must fit in an amount.
pub fn normalize(coins: Vec<Coin>) -> (out: Vec<Coin>)
    requires
        fits(coin_views(coins@)),
    ensures
        is_normal_form_of(coin_views(out@), coin_views(coins@)),
{
    let mut balance = balance_of(coins);
    balance_normalize(&mut balance);
    balance_into_vec(balance)
}

} // verus!
