//! Denominated amounts, and sums of them per denomination.

use vstd::prelude::*;

verus! {

/// A quantity of one denomination.
#[derive(Debug, PartialEq, Eq)]
pub struct Coin {
    pub denom: String,
    pub amount: u128,
}

/// The mathematical value of a [`Coin`].
pub struct CoinView {
    pub denom: Seq<char>,
    pub amount: nat,
}

impl View for Coin {
    type V = CoinView;

    open spec fn view(&self) -> CoinView {
        CoinView { denom: self.denom@, amount: self.amount as nat }
    }
}

impl Clone for Coin {
    fn clone(&self) -> (c: Self)
        ensures
            c == *self,
    {
        Coin { denom: self.denom.clone(), amount: self.amount }
    }
}

impl Coin {
    /// A coin of `amount` units of `denom`.
    pub fn new(amount: u128, denom: &str) -> (c: Self)
        ensures
            c@ == (CoinView { denom: denom@, amount: amount as nat }),
    {
        Coin { denom: denom.to_string(), amount }
    }
}

/// The values of a list of coins, in order.
pub open spec fn coin_views(coins: Seq<Coin>) -> Seq<CoinView> {
    coins.map_values(|c: Coin| c@)
}

/// The sum of the amounts that `coins` holds in `denom`.
pub open spec fn total(coins: Seq<CoinView>, denom: Seq<char>) -> nat
    decreases coins.len(),
{
    if coins.len() == 0 {
        0
    } else if coins.last().denom == denom {
        total(coins.drop_last(), denom) + coins.last().amount
    } else {
        total(coins.drop_last(), denom)
    }
}

/// Strict lexicographic order on denominations, character by character in
/// code point order.
pub open spec fn denom_lt(a: Seq<char>, b: Seq<char>) -> bool
    decreases a.len(),
{
    if b.len() == 0 {
        false
    } else if a.len() == 0 {
        true
    } else if a[0] == b[0] {
        denom_lt(a.drop_first(), b.drop_first())
    } else {
        (a[0] as int) < (b[0] as int)
    }
}

/// Whether `coins` is in normal form: denominations strictly ascending (so
/// none occurs twice) and no amount zero.
pub open spec fn is_normal(coins: Seq<CoinView>) -> bool {
    &&& forall|i: int, j: int|
        0 <= i < j < coins.len() ==> denom_lt(#[trigger] coins[i].denom, #[trigger] coins[j].denom)
    &&& forall|i: int| 0 <= i < coins.len() ==> (#[trigger] coins[i]).amount > 0
}

/// Whether `out` is the normal form of `coins`: in normal form, and holding
/// in every denomination what `coins` holds in it.
pub open spec fn is_normal_form_of(out: Seq<CoinView>, coins: Seq<CoinView>) -> bool {
    &&& is_normal(out)
    &&& forall|d: Seq<char>| #[trigger] total(out, d) == total(coins, d)
}

/// Whether what `coins` holds in each denomination fits in one amount.
pub open spec fn fits(coins: Seq<CoinView>) -> bool {
    forall|d: Seq<char>| #[trigger] total(coins, d) <= u128::MAX
}

/// A list of one coin holds that coin's amount in its denomination, and
/// nothing in any other.
pub proof fn lemma_total_one(a: CoinView, d: Seq<char>)
    ensures
        total(seq![a], d) == if a.denom == d {
            a.amount
        } else {
            0
        },
{
    reveal_with_fuel(total, 2);
    assert(seq![a].drop_last() =~= Seq::<CoinView>::empty());
}

/// A list of two coins holds in each denomination what the two hold in it
/// together.
pub proof fn lemma_total_two(a: CoinView, b: CoinView, d: Seq<char>)
    ensures
        total(seq![a, b], d) == total(seq![a], d) + total(seq![b], d),
{
    assert(seq![a, b].drop_last() =~= seq![a]);
    assert(seq![a, b].last() == b);
    lemma_total_one(b, d);
}

/// No denomination comes before itself.
pub proof fn lemma_denom_lt_irreflexive(a: Seq<char>)
    ensures
        !denom_lt(a, a),
    decreases a.len(),
{
    if a.len() > 0 {
        lemma_denom_lt_irreflexive(a.drop_first());
    }
}

/// The order on denominations is transitive.
pub proof fn lemma_denom_lt_transitive(a: Seq<char>, b: Seq<char>, c: Seq<char>)
    requires
        denom_lt(a, b),
        denom_lt(b, c),
    ensures
        denom_lt(a, c),
    decreases a.len(),
{
    if a.len() > 0 && a[0] == b[0] && b[0] == c[0] {
        lemma_denom_lt_transitive(a.drop_first(), b.drop_first(), c.drop_first());
    }
}

/// Of two different denominations one comes before the other.
pub proof fn lemma_denom_lt_total(a: Seq<char>, b: Seq<char>)
    requires
        a != b,
    ensures
        denom_lt(a, b) || denom_lt(b, a),
    decreases a.len(),
{
    if a.len() == 0 || b.len() == 0 {
        if a.len() == 0 && b.len() == 0 {
            assert(a =~= b);
        }
    } else if a[0] == b[0] {
        if a.drop_first() == b.drop_first() {
            assert(a =~= seq![a[0]] + a.drop_first());
            assert(b =~= seq![b[0]] + b.drop_first());
        }
        lemma_denom_lt_total(a.drop_first(), b.drop_first());
    }
}

/// A list holds nothing in a denomination that none of its coins has.
pub proof fn lemma_total_absent(coins: Seq<CoinView>, d: Seq<char>)
    requires
        forall|i: int| 0 <= i < coins.len() ==> (#[trigger] coins[i]).denom != d,
    ensures
        total(coins, d) == 0,
    decreases coins.len(),
{
    if coins.len() > 0 {
        assert(coins.last() == coins[coins.len() - 1]);
        lemma_total_absent(coins.drop_last(), d);
    }
}

/// A list holds in a denomination at least what any one of its coins of
/// that denomination holds.
pub proof fn lemma_total_at_least(coins: Seq<CoinView>, i: int)
    requires
        0 <= i < coins.len(),
    ensures
        total(coins, coins[i].denom) >= coins[i].amount,
    decreases coins.len(),
{
    if i < coins.len() - 1 {
        lemma_total_at_least(coins.drop_last(), i);
    }
}

/// In a normal form the last coin's denomination occurs nowhere before it.
proof fn lemma_normal_last(coins: Seq<CoinView>)
    requires
        is_normal(coins),
        coins.len() > 0,
    ensures
        is_normal(coins.drop_last()),
        total(coins.drop_last(), coins.last().denom) == 0,
        total(coins, coins.last().denom) == coins.last().amount,
        forall|d: Seq<char>|
            d != coins.last().denom ==> #[trigger] total(coins, d) == total(coins.drop_last(), d),
{
    let front = coins.drop_last();
    let d = coins.last().denom;
    assert forall|i: int| 0 <= i < front.len() implies (#[trigger] front[i]).denom != d by {
        assert(front[i] == coins[i]);
        assert(denom_lt(coins[i].denom, coins[coins.len() - 1].denom));
        lemma_denom_lt_irreflexive(d);
    }
    lemma_total_absent(front, d);
    assert forall|i: int, j: int| 0 <= i < j < front.len() implies denom_lt(
        #[trigger] front[i].denom,
        #[trigger] front[j].denom,
    ) by {
        assert(front[i] == coins[i] && front[j] == coins[j]);
    }
    assert forall|i: int| 0 <= i < front.len() implies (#[trigger] front[i]).amount > 0 by {
        assert(front[i] == coins[i]);
    }
}

/// Two normal forms that hold the same in every denomination are the same
/// list.
pub proof fn lemma_normal_same_totals(a: Seq<CoinView>, b: Seq<CoinView>)
    requires
        is_normal(a),
        is_normal(b),
        forall|d: Seq<char>| #[trigger] total(a, d) == total(b, d),
    ensures
        a == b,
    decreases a.len(),
{
    if a.len() == 0 {
        if b.len() > 0 {
            lemma_total_at_least(b, b.len() - 1);
            assert(total(a, b[b.len() - 1].denom) == total(b, b[b.len() - 1].denom));
        }
        assert(a =~= b);
    } else if b.len() == 0 {
        lemma_total_at_least(a, a.len() - 1);
        assert(total(a, a[a.len() - 1].denom) == total(b, a[a.len() - 1].denom));
    } else {
        let da = a.last().denom;
        let db = b.last().denom;
        lemma_normal_last(a);
        lemma_normal_last(b);
        if da != db {
            lemma_denom_lt_total(da, db);
            if denom_lt(da, db) {
                lemma_greater_absent(a, db);
                assert(total(a, db) == total(b, db));
            } else {
                lemma_greater_absent(b, da);
                assert(total(a, da) == total(b, da));
            }
        }
        assert(total(a, da) == total(b, da));
        assert(a.last() == b.last());
        assert forall|d: Seq<char>| #[trigger]
            total(a.drop_last(), d) == total(b.drop_last(), d) by {
            assert(total(a, d) == total(b, d));
        }
        lemma_normal_same_totals(a.drop_last(), b.drop_last());
        assert(a =~= a.drop_last().push(a.last()));
        assert(b =~= b.drop_last().push(b.last()));
    }
}

/// A normal form holds nothing in a denomination that comes after its last.
proof fn lemma_greater_absent(coins: Seq<CoinView>, d: Seq<char>)
    requires
        is_normal(coins),
        coins.len() > 0,
        denom_lt(coins.last().denom, d),
    ensures
        total(coins, d) == 0,
{
    assert forall|i: int| 0 <= i < coins.len() implies (#[trigger] coins[i]).denom != d by {
        if i < coins.len() - 1 {
            assert(denom_lt(coins[i].denom, coins[coins.len() - 1].denom));
            lemma_denom_lt_transitive(coins[i].denom, coins.last().denom, d);
        }
        lemma_denom_lt_irreflexive(d);
    }
    lemma_total_absent(coins, d);
}

/// A list of coins has one normal form only.
pub proof fn lemma_normal_form_unique(a: Seq<CoinView>, b: Seq<CoinView>, coins: Seq<CoinView>)
    requires
        is_normal_form_of(a, coins),
        is_normal_form_of(b, coins),
    ensures
        a == b,
{
    assert forall|d: Seq<char>| #[trigger] total(a, d) == total(b, d) by {
        assert(total(a, d) == total(coins, d));
        assert(total(b, d) == total(coins, d));
    }
    lemma_normal_same_totals(a, b);
}

/// The normal form of a single coin is that coin, or nothing where its
/// amount is zero.
pub proof fn lemma_normal_form_of_one(out: Seq<CoinView>, coin: CoinView)
    requires
        is_normal_form_of(out, seq![coin]),
    ensures
        out == if coin.amount > 0 {
            seq![coin]
        } else {
            Seq::<CoinView>::empty()
        },
{
    let expected = if coin.amount > 0 {
        seq![coin]
    } else {
        Seq::<CoinView>::empty()
    };
    assert forall|d: Seq<char>| #[trigger] total(expected, d) == total(seq![coin], d) by {
        lemma_total_one(coin, d);
    }
    assert(is_normal(expected));
    lemma_normal_form_unique(out, expected, seq![coin]);
}

} // verus!
