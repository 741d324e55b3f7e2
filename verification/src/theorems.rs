//! What holds of the escrow as a whole, proved from the contracts of its
//! operations: the lifecycle has three edges and no other, what is paid out
//! over a lifecycle is what was paid in, pages of a listing neither overlap
//! nor skip, and the expiry itself still counts as not expired.

use vstd::prelude::*;
use crate::balance::charged;
use crate::coin::{lemma_total_two, total, CoinView};
use crate::contract::{
    accept_outcome, accepts, close_outcome, closes, creates, executes, is_accept_response,
    is_close_response, query_outcome, rejects, Outcome,
};
use crate::error::ContractErrorView;
use crate::host::{BankMsgView, Env, MessageInfoView, ResponseView};
use crate::msg::{ExecuteMsgView, PropositionState, QueryMsg, QueryResponseView};
use crate::state::{
    greatest_below, has_below, is_greatest_below, page, PropositionsView, PropositionView,
};

verus! {

// ----- lifecycle -----

/// The edges of the lifecycle.
pub open spec fn is_edge(from: PropositionState, to: PropositionState) -> bool {
    ||| from == PropositionState::Active && to == PropositionState::Accepted
    ||| from == PropositionState::Active && to == PropositionState::Rejected
    ||| from == PropositionState::Accepted && to == PropositionState::Closed
}

/// Whether `q` has the terms of `p`: owner, orientation, the three amounts
/// and the period.
pub open spec fn same_terms(p: PropositionView, q: PropositionView) -> bool {
    &&& q.owner == p.owner
    &&& q.proposition_type == p.proposition_type
    &&& q.deposit == p.deposit
    &&& q.assets == p.assets
    &&& q.premium == p.premium
    &&& q.period == p.period
}

/// A call that fails changes nothing. A call that succeeds leaves every
/// record but one as it was; that one moves along an edge of the lifecycle
/// and keeps its terms, or is new and active. No record ever leaves the
/// store, and the counter never goes back.
pub proof fn theorem_states_follow_edges(
    before: PropositionsView,
    env: Env,
    info: MessageInfoView,
    msg: ExecuteMsgView,
    after: PropositionsView,
    r: Outcome,
    id: u64,
)
    requires
        executes(before, env, info, msg, after, r),
    ensures
        r is Err ==> after == before,
        after.count >= before.count,
        before.propositions.contains_key(id) ==> after.propositions.contains_key(id) && (
        after.propositions[id] == before.propositions[id] || (is_edge(
            before.propositions[id].state,
            after.propositions[id].state,
        ) && same_terms(before.propositions[id], after.propositions[id]))),
        !before.propositions.contains_key(id) && after.propositions.contains_key(id)
            ==> after.propositions[id].state == PropositionState::Active && id == after.count
            && after.count == before.count + 1,
{
}

/// A rejected or closed proposition stays as it is, whatever is called.
pub proof fn theorem_terminal_states_stay(
    before: PropositionsView,
    env: Env,
    info: MessageInfoView,
    msg: ExecuteMsgView,
    after: PropositionsView,
    r: Outcome,
    id: u64,
)
    requires
        executes(before, env, info, msg, after, r),
        before.propositions.contains_key(id),
        before.propositions[id].state == PropositionState::Rejected
            || before.propositions[id].state == PropositionState::Closed,
    ensures
        after.propositions.contains_key(id),
        after.propositions[id] == before.propositions[id],
{
}

/// A well-formed store stays well formed under every call.
pub proof fn theorem_store_stays_well_formed(
    before: PropositionsView,
    env: Env,
    info: MessageInfoView,
    msg: ExecuteMsgView,
    after: PropositionsView,
    r: Outcome,
)
    requires
        before.wf(),
        executes(before, env, info, msg, after, r),
    ensures
        after.wf(),
{
    assert forall|id: u64| #[trigger] after.propositions.contains_key(id) implies 1 <= id
        <= after.count && after.propositions[id].wf() by {
        theorem_states_follow_edges(before, env, info, msg, after, r, id);
        if before.propositions.contains_key(id) {
            assert(before.propositions[id].wf());
        }
    }
}

/// Accepting a proposition that is not active always fails and changes
/// nothing; unless the caller is the owner, who is refused as such, the
/// error names the state.
pub proof fn theorem_accept_needs_active(
    before: PropositionsView,
    env: Env,
    info: MessageInfoView,
    id: u64,
    after: PropositionsView,
    r: Outcome,
)
    requires
        accepts(before, env, info, id, after, r),
        before.propositions.contains_key(id),
        before.propositions[id].state != PropositionState::Active,
    ensures
        after == before,
        r is Err,
        before.propositions[id].owner != info.sender ==> r == Err::<
            ResponseView,
            ContractErrorView,
        >(
            ContractErrorView::WrongPropositionStatus {
                expected: PropositionState::Active,
                current: before.propositions[id].state,
            },
        ),
{
}

/// Rejecting a proposition that is not active always fails and changes
/// nothing; for the owner the error names the state, and anyone else is
/// refused as unauthorized.
pub proof fn theorem_reject_needs_active(
    before: PropositionsView,
    info: MessageInfoView,
    id: u64,
    after: PropositionsView,
    r: Outcome,
)
    requires
        rejects(before, info, id, after, r),
        before.propositions.contains_key(id),
        before.propositions[id].state != PropositionState::Active,
    ensures
        after == before,
        r is Err,
        before.propositions[id].owner == info.sender ==> r == Err::<
            ResponseView,
            ContractErrorView,
        >(
            ContractErrorView::WrongPropositionStatus {
                expected: PropositionState::Active,
                current: before.propositions[id].state,
            },
        ),
{
}

/// Closing a proposition that is not accepted fails, whoever calls, with the
/// error that names the state, and changes nothing.
pub proof fn theorem_close_needs_accepted(
    before: PropositionsView,
    env: Env,
    info: MessageInfoView,
    id: u64,
    after: PropositionsView,
    r: Outcome,
)
    requires
        closes(before, env, info, id, after, r),
        before.propositions.contains_key(id),
        before.propositions[id].state != PropositionState::Accepted,
    ensures
        after == before,
        r == Err::<ResponseView, ContractErrorView>(
            ContractErrorView::WrongPropositionStatus {
                expected: PropositionState::Accepted,
                current: before.propositions[id].state,
            },
        ),
{
}

/// The proposition that `msg` is about, where it is about one that exists
/// already.
pub open spec fn target(msg: ExecuteMsgView) -> Option<u64> {
    match msg {
        ExecuteMsgView::CreateProposition { .. } => None,
        ExecuteMsgView::AcceptProposition { proposition_id } => Some(proposition_id),
        ExecuteMsgView::RejectProposition { proposition_id } => Some(proposition_id),
        ExecuteMsgView::CloseProposition { proposition_id } => Some(proposition_id),
    }
}

/// Nothing is paid out but together with a transition: a call that names a
/// transfer moves the proposition it is about along an edge. So while a
/// proposition is active, its escrow stays whole.
pub proof fn theorem_payout_goes_with_transition(
    before: PropositionsView,
    env: Env,
    info: MessageInfoView,
    msg: ExecuteMsgView,
    after: PropositionsView,
    r: Outcome,
)
    requires
        executes(before, env, info, msg, after, r),
        r is Ok,
        r->Ok_0.messages.len() > 0,
    ensures
        target(msg) is Some,
        before.propositions.contains_key(target(msg)->0),
        is_edge(
            before.propositions[target(msg)->0].state,
            after.propositions[target(msg)->0].state,
        ),
{
}

/// The transfers of one call go to different accounts: no account is named
/// twice.
pub proof fn theorem_one_transfer_per_account(
    before: PropositionsView,
    env: Env,
    info: MessageInfoView,
    msg: ExecuteMsgView,
    after: PropositionsView,
    r: Outcome,
)
    requires
        before.wf(),
        executes(before, env, info, msg, after, r),
        r is Ok,
    ensures
        forall|i: int, j: int|
            0 <= i < j < r->Ok_0.messages.len() ==> (#[trigger] r->Ok_0.messages[i]).to_address != (
            #[trigger] r->Ok_0.messages[j]).to_address,
{
    match msg {
        ExecuteMsgView::CloseProposition { proposition_id } => {
            assert(before.propositions[proposition_id].wf());
        },
        _ => {},
    }
}

/// Propositions of the same terms have the same escrow and the same dues.
pub proof fn theorem_terms_fix_the_dues(p: PropositionView, q: PropositionView, now: u64)
    requires
        same_terms(p, q),
    ensures
        q.escrow() == p.escrow(),
        q.acceptance_dues() == p.acceptance_dues(),
        q.expired_at(now) == p.expired_at(now) ==> q.closing_dues(now) == p.closing_dues(now),
{
}

// ----- expiry -----

/// At the expiry itself a proposition has not expired; one second later it
/// has.
pub proof fn theorem_expiry_boundary(p: PropositionView)
    ensures
        !p.expired_at(p.expiry),
        p.expiry < u64::MAX ==> p.expired_at((p.expiry + 1) as u64),
{
}

/// Closing at the expiry itself is still the lender's to do, and takes the
/// assets; one second later it is the borrower's, and takes nothing.
pub proof fn theorem_close_at_the_boundary(
    s: PropositionsView,
    env: Env,
    info: MessageInfoView,
    id: u64,
)
    requires
        s.propositions.contains_key(id),
        s.propositions[id].state == PropositionState::Accepted,
    ensures
        env.time == s.propositions[id].expiry ==> s.propositions[id].closing_dues(env.time)
            == seq![s.propositions[id].assets] && (close_outcome(s, env, info, id) is Ok
            ==> info.sender == s.propositions[id].lender()),
        env.time == s.propositions[id].expiry + 1 ==> s.propositions[id].closing_dues(env.time)
            == Seq::<CoinView>::empty() && (close_outcome(s, env, info, id) is Ok <==> info.sender
            == s.propositions[id].borrower()),
{
}

// ----- conservation -----

/// What `msgs` pay out in `denom` altogether.
pub open spec fn paid_out(msgs: Seq<BankMsgView>, denom: Seq<char>) -> nat
    decreases msgs.len(),
{
    if msgs.len() == 0 {
        0
    } else {
        paid_out(msgs.drop_last(), denom) + total(msgs.last().amount, denom)
    }
}

/// One instruction pays out what it names.
proof fn lemma_paid_out_one(msgs: Seq<BankMsgView>, denom: Seq<char>)
    requires
        msgs.len() == 1,
    ensures
        paid_out(msgs, denom) == total(msgs[0].amount, denom),
{
    reveal_with_fuel(paid_out, 2);
}

/// Two instructions pay out what the one and the other name.
proof fn lemma_paid_out_two(msgs: Seq<BankMsgView>, denom: Seq<char>)
    requires
        msgs.len() == 2,
    ensures
        paid_out(msgs, denom) == total(msgs[0].amount, denom) + total(msgs[1].amount, denom),
{
    lemma_paid_out_one(msgs.drop_last(), denom);
}

/// Escrow and acceptance dues together are one deposit, one premium and
/// one lot of assets, whatever the orientation.
proof fn lemma_total_of_dues(p: PropositionView, denom: Seq<char>)
    ensures
        total(p.escrow(), denom) + total(p.acceptance_dues(), denom) == total(
            seq![p.deposit],
            denom,
        ) + total(seq![p.premium], denom) + total(seq![p.assets], denom),
{
    lemma_total_two(p.deposit, p.premium, denom);
}

/// Creation pays nothing out, and succeeds only where the attached funds
/// cover the escrow.
pub proof fn theorem_creation_pays_nothing(
    before: PropositionsView,
    info: MessageInfoView,
    p: PropositionView,
    after: PropositionsView,
    r: Outcome,
    denom: Seq<char>,
)
    requires
        creates(before, info, p, after, r),
        r is Ok,
    ensures
        charged(info.funds, p.escrow()) is Ok,
        paid_out(r->Ok_0.messages, denom) == 0,
{
}

/// On the path that ends in rejection, what is paid out is exactly the
/// escrow taken at creation, in every denomination.
pub proof fn theorem_rejection_returns_escrow(
    before: PropositionsView,
    info: MessageInfoView,
    id: u64,
    after: PropositionsView,
    r: Outcome,
    denom: Seq<char>,
)
    requires
        rejects(before, info, id, after, r),
        r is Ok,
    ensures
        paid_out(r->Ok_0.messages, denom) == total(before.propositions[id].escrow(), denom),
{
    lemma_paid_out_one(r->Ok_0.messages, denom);
}

/// Acceptance pays out the assets and the premium; the deposit stays in
/// custody.
pub proof fn theorem_acceptance_keeps_deposit(
    before: PropositionsView,
    env: Env,
    info: MessageInfoView,
    id: u64,
    after: PropositionsView,
    r: Outcome,
    denom: Seq<char>,
)
    requires
        accepts(before, env, info, id, after, r),
        r is Ok,
    ensures
        paid_out(r->Ok_0.messages, denom) == total(seq![before.propositions[id].assets], denom)
            + total(seq![before.propositions[id].premium], denom),
{
    lemma_paid_out_two(r->Ok_0.messages, denom);
}

/// On a path that ends in closing, what acceptance and closing pay out
/// together is, in every denomination, what was paid in: the escrow taken at
/// creation, what acceptance took, and what closing took.
pub proof fn theorem_closed_path_conserves(
    at_accept: PropositionsView,
    accept_env: Env,
    accept_info: MessageInfoView,
    accept_r: ResponseView,
    at_close: PropositionsView,
    close_env: Env,
    close_info: MessageInfoView,
    close_r: ResponseView,
    id: u64,
    denom: Seq<char>,
)
    requires
        accept_outcome(at_accept, accept_env, accept_info, id) is Ok,
        is_accept_response(
            accept_r,
            id,
            accept_outcome(at_accept, accept_env, accept_info, id)->Ok_0,
        ),
        at_close.propositions.contains_key(id),
        at_close.propositions[id] == accept_outcome(at_accept, accept_env, accept_info, id)->Ok_0,
        close_outcome(at_close, close_env, close_info, id) is Ok,
        is_close_response(
            close_r,
            close_env.time,
            id,
            close_outcome(at_close, close_env, close_info, id)->Ok_0,
        ),
    ensures
        paid_out(accept_r.messages, denom) + paid_out(close_r.messages, denom) == total(
            at_accept.propositions[id].escrow(),
            denom,
        ) + total(at_accept.propositions[id].acceptance_dues(), denom) + total(
            at_close.propositions[id].closing_dues(close_env.time),
            denom,
        ),
{
    let p = at_accept.propositions[id];
    let q = at_close.propositions[id];
    lemma_paid_out_two(accept_r.messages, denom);
    lemma_total_of_dues(p, denom);
    if q.expired_at(close_env.time) {
        lemma_paid_out_one(close_r.messages, denom);
    } else {
        lemma_paid_out_two(close_r.messages, denom);
    }
}

/// On a path that ends in closing, what is paid out in a denomination is
/// exactly the escrow taken at creation wherever acceptance and closing took
/// nothing in that denomination.
pub proof fn theorem_closed_path_returns_escrow(
    at_accept: PropositionsView,
    accept_env: Env,
    accept_info: MessageInfoView,
    accept_r: ResponseView,
    at_close: PropositionsView,
    close_env: Env,
    close_info: MessageInfoView,
    close_r: ResponseView,
    id: u64,
    denom: Seq<char>,
)
    requires
        accept_outcome(at_accept, accept_env, accept_info, id) is Ok,
        is_accept_response(
            accept_r,
            id,
            accept_outcome(at_accept, accept_env, accept_info, id)->Ok_0,
        ),
        at_close.propositions.contains_key(id),
        at_close.propositions[id] == accept_outcome(at_accept, accept_env, accept_info, id)->Ok_0,
        close_outcome(at_close, close_env, close_info, id) is Ok,
        is_close_response(
            close_r,
            close_env.time,
            id,
            close_outcome(at_close, close_env, close_info, id)->Ok_0,
        ),
        total(at_accept.propositions[id].acceptance_dues(), denom) == 0,
        total(at_close.propositions[id].closing_dues(close_env.time), denom) == 0,
    ensures
        paid_out(accept_r.messages, denom) + paid_out(close_r.messages, denom) == total(
            at_accept.propositions[id].escrow(),
            denom,
        ),
{
    theorem_closed_path_conserves(
        at_accept,
        accept_env,
        accept_info,
        accept_r,
        at_close,
        close_env,
        close_info,
        close_r,
        id,
        denom,
    );
}

/// The whole path from creation to rejection: what the two calls pay out is
/// exactly what creation took in escrow.
pub proof fn theorem_rejected_lifecycle_conserves(
    at_create: PropositionsView,
    create_info: MessageInfoView,
    p: PropositionView,
    created: PropositionsView,
    create_r: Outcome,
    at_reject: PropositionsView,
    reject_info: MessageInfoView,
    rejected: PropositionsView,
    reject_r: Outcome,
    denom: Seq<char>,
)
    requires
        creates(at_create, create_info, p, created, create_r),
        create_r is Ok,
        at_reject.propositions.contains_key(created.count),
        at_reject.propositions[created.count] == p,
        rejects(at_reject, reject_info, created.count, rejected, reject_r),
        reject_r is Ok,
    ensures
        charged(create_info.funds, p.escrow()) is Ok,
        paid_out(create_r->Ok_0.messages, denom) + paid_out(reject_r->Ok_0.messages, denom)
            == total(p.escrow(), denom),
{
    theorem_rejection_returns_escrow(
        at_reject,
        reject_info,
        created.count,
        rejected,
        reject_r,
        denom,
    );
}

/// The whole path from creation over acceptance to closing: what the three
/// calls pay out is exactly what they took in, in every denomination.
pub proof fn theorem_closed_lifecycle_conserves(
    at_create: PropositionsView,
    create_info: MessageInfoView,
    p: PropositionView,
    created: PropositionsView,
    create_r: Outcome,
    at_accept: PropositionsView,
    accept_env: Env,
    accept_info: MessageInfoView,
    accepted: PropositionsView,
    accept_r: Outcome,
    at_close: PropositionsView,
    close_env: Env,
    close_info: MessageInfoView,
    closed: PropositionsView,
    close_r: Outcome,
    denom: Seq<char>,
)
    requires
        creates(at_create, create_info, p, created, create_r),
        create_r is Ok,
        at_accept.propositions.contains_key(created.count),
        at_accept.propositions[created.count] == p,
        accepts(at_accept, accept_env, accept_info, created.count, accepted, accept_r),
        accept_r is Ok,
        at_close.propositions.contains_key(created.count),
        at_close.propositions[created.count] == accepted.propositions[created.count],
        closes(at_close, close_env, close_info, created.count, closed, close_r),
        close_r is Ok,
    ensures
        charged(create_info.funds, p.escrow()) is Ok,
        charged(accept_info.funds, p.acceptance_dues()) is Ok,
        charged(
            close_info.funds,
            at_close.propositions[created.count].closing_dues(close_env.time),
        ) is Ok,
        paid_out(create_r->Ok_0.messages, denom) + paid_out(accept_r->Ok_0.messages, denom)
            + paid_out(close_r->Ok_0.messages, denom) == total(p.escrow(), denom) + total(
            p.acceptance_dues(),
            denom,
        ) + total(at_close.propositions[created.count].closing_dues(close_env.time), denom),
{
    theorem_closed_path_conserves(
        at_accept,
        accept_env,
        accept_info,
        accept_r->Ok_0,
        at_close,
        close_env,
        close_info,
        close_r->Ok_0,
        created.count,
        denom,
    );
}

// ----- questions -----

/// Asking the same question of the same store gives the same answer.
pub proof fn theorem_reads_repeat(
    s: PropositionsView,
    msg: QueryMsg,
    first: Result<QueryResponseView, ContractErrorView>,
    second: Result<QueryResponseView, ContractErrorView>,
)
    requires
        first == query_outcome(s, msg),
        second == query_outcome(s, msg),
    ensures
        first == second,
{
}

/// Whether `id` is on the page `p`.
pub open spec fn listed(p: Seq<(u64, PropositionView)>, id: u64) -> bool {
    exists|i: int| 0 <= i < p.len() && (#[trigger] p[i]).0 == id
}

/// Where some id lies below a bound, one of them is the greatest.
pub proof fn lemma_greatest_below_exists(ids: Set<u64>, bound: int, witness: u64)
    requires
        ids.contains(witness),
        witness < bound,
    ensures
        is_greatest_below(ids, bound, greatest_below(ids, bound)),
    decreases bound - witness,
{
    if exists|other: u64| #[trigger] ids.contains(other) && other < bound && other > witness {
        let other = choose|other: u64| #[trigger]
            ids.contains(other) && other < bound && other > witness;
        lemma_greatest_below_exists(ids, bound, other);
    } else {
        assert(is_greatest_below(ids, bound, witness));
    }
}

/// A page holds at most `n` records, all of them stored below the bound and
/// as stored, in descending order of id; and a stored id below the bound
/// that is not on it lies below its last id, the page being full.
pub proof fn theorem_page_is_window(records: Map<u64, PropositionView>, bound: int, n: nat)
    ensures
        page(records, bound, n).len() <= n,
        forall|i: int|
            0 <= i < page(records, bound, n).len() ==> {
                let item = #[trigger] page(records, bound, n)[i];
                records.contains_key(item.0) && item.0 < bound && item.1 == records[item.0]
            },
        forall|i: int, j: int|
            0 <= i < j < page(records, bound, n).len() ==> (#[trigger] page(records, bound, n)[i]).0
                > (#[trigger] page(records, bound, n)[j]).0,
        forall|id: u64| #[trigger]
            records.contains_key(id) && id < bound ==> listed(page(records, bound, n), id) || (
            page(records, bound, n).len() == n && (n == 0 || id < page(
                records,
                bound,
                n,
            ).last().0)),
    decreases n,
{
    let p = page(records, bound, n);
    if n == 0 {
    } else if !has_below(records.dom(), bound) {
        assert forall|id: u64| #[trigger] records.contains_key(id) && id < bound implies false by {
            assert(records.dom().contains(id));
        }
    } else {
        let witness = choose|id: u64| #[trigger] records.dom().contains(id) && id < bound;
        lemma_greatest_below_exists(records.dom(), bound, witness);
        let top = greatest_below(records.dom(), bound);
        let rest = page(records, top as int, (n - 1) as nat);
        theorem_page_is_window(records, top as int, (n - 1) as nat);
        assert(p == seq![(top, records[top])] + rest);
        assert(p[0] == (top, records[top]));
        assert forall|i: int| 1 <= i < p.len() implies #[trigger] p[i] == rest[i - 1] by {}
        assert forall|i: int| 0 <= i < p.len() implies {
            let item = #[trigger] p[i];
            records.contains_key(item.0) && item.0 < bound && item.1 == records[item.0]
        } by {
            if i > 0 {
                assert(p[i] == rest[i - 1]);
            }
        }
        assert forall|i: int, j: int| 0 <= i < j < p.len() implies (#[trigger] p[i]).0 > (
        #[trigger] p[j]).0 by {
            assert(p[j] == rest[j - 1]);
            if i > 0 {
                assert(p[i] == rest[i - 1]);
            }
        }
        assert forall|id: u64| #[trigger] records.contains_key(id) && id < bound implies listed(
            p,
            id,
        ) || (p.len() == n && id < p.last().0) by {
            assert(records.dom().contains(id));
            if id == top {
                assert(p[0].0 == id);
            } else {
                assert(id < top);
                if listed(rest, id) {
                    let i = choose|i: int| 0 <= i < rest.len() && (#[trigger] rest[i]).0 == id;
                    assert(p[i + 1] == rest[i]);
                } else {
                    assert(rest.len() == n - 1);
                    if n - 1 > 0 {
                        assert(p.last() == rest.last());
                    }
                }
            }
        }
    }
}

/// The page that starts below the last id of a page continues it: the two
/// together are the one longer page.
pub proof fn theorem_next_page_continues(
    records: Map<u64, PropositionView>,
    bound: int,
    n: nat,
    m: nat,
)
    requires
        page(records, bound, n).len() > 0,
    ensures
        page(records, bound, n + m) == page(records, bound, n) + page(
            records,
            page(records, bound, n).last().0 as int,
            m,
        ),
    decreases n,
{
    let top = greatest_below(records.dom(), bound);
    let head = seq![(top, records[top])];
    let rest = page(records, top as int, (n - 1) as nat);
    assert(page(records, bound, n) == head + rest);
    assert(page(records, bound, n + m) == head + page(records, top as int, (n - 1 + m) as nat));
    if rest.len() == 0 {
        assert(page(records, bound, n).last() == head[0]);
        if n - 1 > 0 {
            assert(!has_below(records.dom(), top as int));
        }
        assert(page(records, top as int, (n - 1 + m) as nat) == page(records, top as int, m));
        assert(head + rest + page(records, top as int, m) =~= head + page(records, top as int, m));
    } else {
        theorem_next_page_continues(records, top as int, (n - 1) as nat, m);
        assert((head + rest).last() == rest.last());
        assert(head + (rest + page(records, rest.last().0 as int, m)) =~= (head + rest) + page(
            records,
            rest.last().0 as int,
            m,
        ));
    }
}

/// Asking for the next page with the last id seen as the bound never gives
/// an id again and never skips one.
pub proof fn theorem_pages_neither_overlap_nor_skip(
    records: Map<u64, PropositionView>,
    bound: int,
    n: nat,
    m: nat,
)
    requires
        page(records, bound, n).len() > 0,
    ensures
        ({
            let first = page(records, bound, n);
            let second = page(records, first.last().0 as int, m);
            &&& forall|i: int, j: int|
                0 <= i < first.len() && 0 <= j < second.len() ==> (#[trigger] first[i]).0 > (
                #[trigger] second[j]).0
            &&& forall|id: u64| #[trigger]
                records.contains_key(id) && id < bound ==> listed(first, id) || listed(second, id)
                    || (second.len() == m && id < (first + second).last().0)
        }),
{
    let first = page(records, bound, n);
    let second = page(records, first.last().0 as int, m);
    theorem_page_is_window(records, bound, n);
    theorem_page_is_window(records, first.last().0 as int, m);
    theorem_page_is_window(records, bound, n + m);
    theorem_next_page_continues(records, bound, n, m);
    assert forall|i: int, j: int| 0 <= i < first.len() && 0 <= j < second.len() implies (
    #[trigger] first[i]).0 > (#[trigger] second[j]).0 by {
        if i < first.len() - 1 {
            assert(first[i].0 > first[first.len() - 1].0);
        }
    }
    assert forall|id: u64| #[trigger] records.contains_key(id) && id < bound implies listed(
        first,
        id,
    ) || listed(second, id) || (second.len() == m && id < (first + second).last().0) by {
        let both = first + second;
        if listed(both, id) {
            let i = choose|i: int| 0 <= i < both.len() && (#[trigger] both[i]).0 == id;
            if i < first.len() {
                assert(first[i] == both[i]);
            } else {
                assert(second[i - first.len()] == both[i]);
            }
        }
    }
}

} // verus!
