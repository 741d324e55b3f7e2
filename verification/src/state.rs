//! The proposition record and the store that keeps the records by id.

use vstd::prelude::*;
use crate::coin::{Coin, CoinView};
use crate::error::ContractError;
use crate::host::Env;
use crate::msg::{account_view, PropositionState, PropositionType};

verus! {

/// The escrowed agreement.
#[derive(Debug, PartialEq, Eq)]
pub struct Proposition {
    /// The account that created the proposition.
    pub owner: String,
    pub proposition_type: PropositionType,
    pub state: PropositionState,
    pub deposit: Coin,
    pub assets: Coin,
    pub premium: Coin,
    /// Seconds granted from acceptance until expiry.
    pub period: u64,
    /// Block time, in seconds, after which the proposition has expired.
    pub expiry: u64,
    /// The counterparty: whoever accepted, or before that whoever alone may.
    pub contractor: Option<String>,
}

/// The mathematical value of a [`Proposition`].
pub struct PropositionView {
    pub owner: Seq<char>,
    pub proposition_type: PropositionType,
    pub state: PropositionState,
    pub deposit: CoinView,
    pub assets: CoinView,
    pub premium: CoinView,
    pub period: u64,
    pub expiry: u64,
    pub contractor: Option<Seq<char>>,
}

impl PropositionView {
    /// The account in the lender role: the owner of an `Ask`, the contractor
    /// of a `Bid`.
    pub open spec fn lender(self) -> Seq<char>
        recommends
            self.proposition_type == PropositionType::Bid ==> self.contractor is Some,
    {
        match self.proposition_type {
            PropositionType::Ask => self.owner,
            PropositionType::Bid => self.contractor->0,
        }
    }

    /// The account in the borrower role: the contractor of an `Ask`, the
    /// owner of a `Bid`.
    pub open spec fn borrower(self) -> Seq<char>
        recommends
            self.proposition_type == PropositionType::Ask ==> self.contractor is Some,
    {
        match self.proposition_type {
            PropositionType::Ask => self.contractor->0,
            PropositionType::Bid => self.owner,
        }
    }

    /// Whether the expiry has passed at block time `now`: strictly after it.
    pub open spec fn expired_at(self, now: u64) -> bool {
        now > self.expiry
    }

    /// What the creator places in escrow: deposit and premium for an `Ask`,
    /// the assets for a `Bid`.
    pub open spec fn escrow(self) -> Seq<CoinView> {
        match self.proposition_type {
            PropositionType::Ask => seq![self.deposit, self.premium],
            PropositionType::Bid => seq![self.assets],
        }
    }

    /// What the counterparty pays in to accept: the assets for an `Ask`,
    /// deposit and premium for a `Bid`.
    pub open spec fn acceptance_dues(self) -> Seq<CoinView> {
        match self.proposition_type {
            PropositionType::Ask => seq![self.assets],
            PropositionType::Bid => seq![self.deposit, self.premium],
        }
    }

    /// What the lender pays in to close before the expiry has passed: the
    /// assets. After it nothing is due.
    pub open spec fn closing_dues(self, now: u64) -> Seq<CoinView> {
        if self.expired_at(now) {
            Seq::empty()
        } else {
            seq![self.assets]
        }
    }

    /// What holds of every stored proposition: once accepted, and still when
    /// closed, it has a counterparty, who is not the owner.
    pub open spec fn wf(self) -> bool {
        self.state == PropositionState::Accepted || self.state == PropositionState::Closed
            ==> self.contractor is Some && self.contractor->0 != self.owner
    }
}

impl View for Proposition {
    type V = PropositionView;

    open spec fn view(&self) -> PropositionView {
        PropositionView {
            owner: self.owner@,
            proposition_type: self.proposition_type,
            state: self.state,
            deposit: self.deposit@,
            assets: self.assets@,
            premium: self.premium@,
            period: self.period,
            expiry: self.expiry,
            contractor: account_view(self.contractor),
        }
    }
}

impl Clone for Proposition {
    fn clone(&self) -> (p: Self)
        ensures
            p@ == self@,
    {
        Proposition {
            owner: self.owner.clone(),
            proposition_type: self.proposition_type,
            state: self.state,
            deposit: self.deposit.clone(),
            assets: self.assets.clone(),
            premium: self.premium.clone(),
            period: self.period,
            expiry: self.expiry,
            contractor: match &self.contractor {
                Some(c) => Some(c.clone()),
                None => None,
            },
        }
    }
}

impl Proposition {
    /// The account in the lender role.
    pub fn get_lender(&self) -> (lender: String)
        requires
            self.proposition_type == PropositionType::Bid ==> self.contractor is Some,
        ensures
            lender@ == self@.lender(),
    {
        match self.proposition_type {
            PropositionType::Ask => self.owner.clone(),
            PropositionType::Bid => match &self.contractor {
                Some(c) => c.clone(),
                None => vstd::pervasive::unreached(),
            },
        }
    }

    /// The account in the borrower role.
    pub fn get_borrower(&self) -> (borrower: String)
        requires
            self.proposition_type == PropositionType::Ask ==> self.contractor is Some,
        ensures
            borrower@ == self@.borrower(),
    {
        match self.proposition_type {
            PropositionType::Ask => match &self.contractor {
                Some(c) => c.clone(),
                None => vstd::pervasive::unreached(),
            },
            PropositionType::Bid => self.owner.clone(),
        }
    }

    /// Whether the proposition is well formed.
    pub fn is_well_formed(&self) -> (ok: bool)
        ensures
            ok == self@.wf(),
    {
        match self.state {
            PropositionState::Accepted | PropositionState::Closed => match &self.contractor {
                Some(c) => *c != self.owner,
                None => false,
            },
            _ => true,
        }
    }

    /// Whether the expiry has passed: the block time is strictly after it.
    pub fn is_expired(&self, env: &Env) -> (expired: bool)
        ensures
            expired == self@.expired_at(env.time),
    {
        env.time > self.expiry
    }

    /// Whether the expiry has not passed yet; at the expiry itself it has not.
    pub fn is_not_expired(&self, env: &Env) -> (live: bool)
        ensures
            live == !self@.expired_at(env.time),
    {
        !self.is_expired(env)
    }
}

/// The largest number of propositions that one page holds.
pub const MAX_LIMIT: u32 = 30;

/// The number of propositions on a page where the question names none.
pub const DEFAULT_LIMIT: u32 = 10;

/// One stored record, under its id.
struct Entry {
    id: u64,
    proposition: Proposition,
}

/// The propositions by id, and the counter that hands out the ids.
pub struct PropositionStore {
    count: u64,
    entries: Vec<Entry>,
}

/// The mathematical value of a [`PropositionStore`].
pub struct PropositionsView {
    /// The id handed out last; zero before the first.
    pub count: u64,
    pub propositions: Map<u64, PropositionView>,
}

impl PropositionsView {
    /// What holds of every store: each record sits under an id that the
    /// counter has handed out, and is well formed.
    pub open spec fn wf(self) -> bool {
        forall|id: u64| #[trigger]
            self.propositions.contains_key(id) ==> 1 <= id <= self.count
                && self.propositions[id].wf()
    }
}

/// An exclusive upper bound as a number: past every id where there is none.
pub open spec fn bound_of(start_before: Option<u64>) -> int {
    match start_before {
        Some(b) => b as int,
        None => u64::MAX + 1,
    }
}

/// The number of propositions that a page holds at most.
pub open spec fn page_size(limit: Option<u32>) -> nat {
    let asked = match limit {
        Some(l) => l,
        None => DEFAULT_LIMIT,
    };
    if asked <= MAX_LIMIT {
        asked as nat
    } else {
        MAX_LIMIT as nat
    }
}

/// Whether some id of `ids` lies below `bound`.
pub open spec fn has_below(ids: Set<u64>, bound: int) -> bool {
    exists|id: u64| #[trigger] ids.contains(id) && id < bound
}

/// Whether `id` is the greatest id of `ids` below `bound`.
pub open spec fn is_greatest_below(ids: Set<u64>, bound: int, id: u64) -> bool {
    &&& ids.contains(id)
    &&& id < bound
    &&& forall|other: u64| #[trigger] ids.contains(other) && other < bound ==> other <= id
}

/// The greatest id of `ids` below `bound`, where there is one.
pub open spec fn greatest_below(ids: Set<u64>, bound: int) -> u64 {
    choose|id: u64| is_greatest_below(ids, bound, id)
}

/// The page of at most `n` records below `bound`, greatest id first.
pub open spec fn page(records: Map<u64, PropositionView>, bound: int, n: nat) -> Seq<
    (u64, PropositionView),
>
    decreases n,
{
    if n == 0 || !has_below(records.dom(), bound) {
        Seq::empty()
    } else {
        let top = greatest_below(records.dom(), bound);
        seq![(top, records[top])] + page(records, top as int, (n - 1) as nat)
    }
}

/// The values of a list of records with their ids.
pub open spec fn item_views(items: Seq<(u64, Proposition)>) -> Seq<(u64, PropositionView)> {
    items.map_values(|item: (u64, Proposition)| (item.0, item.1@))
}

/// Whether each of `items` may stand in a store whose counter is at
/// `count`: under an id that the counter has handed out, and well formed.
pub open spec fn are_records(count: u64, items: Seq<(u64, PropositionView)>) -> bool {
    forall|i: int|
        0 <= i < items.len() ==> 1 <= (#[trigger] items[i]).0 <= count && items[i].1.wf()
}

/// The records by id that `items` describe; of two under one id, the later.
pub open spec fn records_by_id(items: Seq<(u64, PropositionView)>) -> Map<u64, PropositionView>
    decreases items.len(),
{
    if items.len() == 0 {
        Map::empty()
    } else {
        records_by_id(items.drop_last()).insert(items.last().0, items.last().1)
    }
}

/// Whether some entry sits under `id`.
spec fn holds(entries: Seq<Entry>, id: u64) -> bool {
    exists|i: int| 0 <= i < entries.len() && (#[trigger] entries[i]).id == id
}

/// A position whose entry sits under `id`, where there is one.
spec fn slot_of(entries: Seq<Entry>, id: u64) -> int {
    choose|i: int| 0 <= i < entries.len() && (#[trigger] entries[i]).id == id
}

/// The records by id that the entries hold.
spec fn records_of(entries: Seq<Entry>) -> Map<u64, PropositionView> {
    Map::new(
        |id: u64| holds(entries, id),
        |id: u64| entries[slot_of(entries, id)].proposition@,
    )
}

/// Whether the ids of the entries ascend strictly.
spec fn ascending(entries: Seq<Entry>) -> bool {
    forall|i: int, j: int|
        0 <= i < j < entries.len() ==> (#[trigger] entries[i]).id < (#[trigger] entries[j]).id
}

/// In ascending entries, the record under the id at position `i` is the one
/// at position `i`.
proof fn lemma_record_at(entries: Seq<Entry>, i: int)
    requires
        ascending(entries),
        0 <= i < entries.len(),
    ensures
        records_of(entries).contains_key(entries[i].id),
        records_of(entries)[entries[i].id] == entries[i].proposition@,
{
    let id = entries[i].id;
    assert(holds(entries, id));
    let j = slot_of(entries, id);
    assert(0 <= j < entries.len() && entries[j].id == id);
    if j < i {
        assert(entries[j].id < entries[i].id);
    } else if i < j {
        assert(entries[i].id < entries[j].id);
    }
}

/// Where position `i` parts the ids below `bound` from the others, the
/// greatest id below `bound` is the one just before `i`.
proof fn lemma_top(entries: Seq<Entry>, i: int, bound: int)
    requires
        ascending(entries),
        0 <= i <= entries.len(),
        forall|k: int| 0 <= k < entries.len() ==> ((#[trigger] entries[k]).id < bound <==> k < i),
    ensures
        i == 0 ==> !has_below(records_of(entries).dom(), bound),
        i > 0 ==> has_below(records_of(entries).dom(), bound) && greatest_below(
            records_of(entries).dom(),
            bound,
        ) == entries[i - 1].id,
{
    let ids = records_of(entries).dom();
    if i == 0 {
        if has_below(ids, bound) {
            let id = choose|id: u64| #[trigger] ids.contains(id) && id < bound;
            assert(holds(entries, id));
            let k = slot_of(entries, id);
            assert(entries[k].id < bound);
        }
    } else {
        let top = entries[i - 1].id;
        lemma_record_at(entries, i - 1);
        assert(ids.contains(top) && top < bound);
        assert forall|other: u64| #[trigger] ids.contains(other) && other < bound implies other
            <= top by {
            assert(holds(entries, other));
            let k = slot_of(entries, other);
            assert(entries[k].id == other);
            assert(k < i);
            if k < i - 1 {
                assert(entries[k].id < entries[i - 1].id);
            }
        }
        assert(is_greatest_below(ids, bound, top));
        let g = greatest_below(ids, bound);
        assert(is_greatest_below(ids, bound, g));
        assert(g <= top && top <= g);
    }
}

impl View for PropositionStore {
    type V = PropositionsView;

    closed spec fn view(&self) -> PropositionsView {
        PropositionsView { count: self.count, propositions: records_of(self.entries@) }
    }
}

impl PropositionStore {
    /// The entries ascend by id, sit under ids that the counter has handed
    /// out, and are well formed.
    #[verifier::type_invariant]
    spec fn inv(self) -> bool {
        &&& ascending(self.entries@)
        &&& forall|i: int|
            0 <= i < self.entries@.len() ==> 1 <= (#[trigger] self.entries@[i]).id <= self.count
                && self.entries@[i].proposition@.wf()
    }

    /// A store with no proposition, whose counter is at zero.
    pub fn new() -> (store: Self)
        ensures
            store@.count == 0,
            store@.propositions == Map::<u64, PropositionView>::empty(),
            store@.wf(),
    {
        let store = PropositionStore { count: 0, entries: Vec::new() };
        assert(store@.propositions =~= Map::<u64, PropositionView>::empty());
        store
    }

    /// The store whose counter is at `count` and which holds `items`, where
    /// each of them may stand in such a store; else nothing.
    pub fn restore(count: u64, items: &Vec<(u64, Proposition)>) -> (r: Option<Self>)
        ensures
            match r {
                Some(store) => {
                    &&& are_records(count, item_views(items@))
                    &&& store@.count == count
                    &&& store@.propositions == records_by_id(item_views(items@))
                    &&& store@.wf()
                },
                None => !are_records(count, item_views(items@)),
            },
    {
        let mut store = PropositionStore { count, entries: Vec::new() };
        assert(store@.propositions =~= Map::<u64, PropositionView>::empty());
        let mut i: usize = 0;
        assert(item_views(items@).take(0) =~= Seq::<(u64, PropositionView)>::empty());
        while i < items.len()
            invariant
                i <= items@.len(),
                store@.count == count,
                store@.propositions == records_by_id(item_views(items@).take(i as int)),
                are_records(count, item_views(items@).take(i as int)),
            decreases items@.len() - i,
        {
            let id = items[i].0;
            let ghost item = item_views(items@)[i as int];
            if id < 1 || id > count || !items[i].1.is_well_formed() {
                assert(!(1 <= item.0 <= count && item.1.wf()));
                return None;
            }
            store.save(id, items[i].1.clone());
            proof {
                let next = item_views(items@).take(i + 1);
                assert(next.drop_last() =~= item_views(items@).take(i as int));
                assert(next.last() == item);
                assert forall|k: int| 0 <= k < next.len() implies 1 <= (#[trigger] next[k]).0
                    <= count && next[k].1.wf() by {
                    if k < i {
                        assert(next[k] == item_views(items@).take(i as int)[k]);
                    }
                }
            }
            i = i + 1;
        }
        proof {
            assert(item_views(items@).take(i as int) =~= item_views(items@));
            use_type_invariant(&store);
            store.lemma_view_wf();
        }
        Some(store)
    }

    /// The id handed out last; zero before the first.
    pub fn count(&self) -> (count: u64)
        ensures
            count == self@.count,
            self@.wf(),
    {
        proof {
            use_type_invariant(&*self);
            self.lemma_view_wf();
        }
        self.count
    }

    /// The value of a store that meets its invariant is well formed.
    proof fn lemma_view_wf(self)
        requires
            self.inv(),
        ensures
            self@.wf(),
    {
        assert forall|id: u64| #[trigger] self@.propositions.contains_key(id) implies 1 <= id
            <= self@.count && self@.propositions[id].wf() by {
            assert(holds(self.entries@, id));
            let k = slot_of(self.entries@, id);
            lemma_record_at(self.entries@, k);
        }
    }

    /// The first position whose id is not below `bound`.
    fn lower_bound(&self, bound: u64) -> (i: usize)
        ensures
            i <= self.entries@.len(),
            forall|k: int|
                0 <= k < self.entries@.len() ==> ((#[trigger] self.entries@[k]).id < bound <==> k
                    < i),
    {
        proof {
            use_type_invariant(&*self);
        }
        let mut lo: usize = 0;
        let mut hi: usize = self.entries.len();
        while lo < hi
            invariant
                lo <= hi <= self.entries@.len(),
                ascending(self.entries@),
                forall|k: int| 0 <= k < lo ==> (#[trigger] self.entries@[k]).id < bound,
                forall|k: int|
                    hi <= k < self.entries@.len() ==> (#[trigger] self.entries@[k]).id >= bound,
            decreases hi - lo,
        {
            let mid = lo + (hi - lo) / 2;
            if self.entries[mid].id < bound {
                assert forall|k: int| 0 <= k < mid + 1 implies (#[trigger] self.entries@[k]).id
                    < bound by {
                    if k < mid {
                        assert(self.entries@[k].id < self.entries@[mid as int].id);
                    }
                }
                lo = mid + 1;
            } else {
                assert forall|k: int| mid <= k < self.entries@.len() implies (
                #[trigger] self.entries@[k]).id >= bound by {
                    if mid < k {
                        assert(self.entries@[mid as int].id < self.entries@[k].id);
                    }
                }
                hi = mid;
            }
        }
        lo
    }

    /// The proposition stored under `id`.
    pub fn load(&self, id: u64) -> (r: Result<Proposition, ContractError>)
        ensures
            self@.wf(),
            match r {
                Ok(p) => self@.propositions.contains_key(id) && p@ == self@.propositions[id],
                Err(e) => !self@.propositions.contains_key(id) && e == (ContractError::NotFound {  }),
            },
    {
        proof {
            use_type_invariant(&*self);
            self.lemma_view_wf();
        }
        let i = self.lower_bound(id);
        if i < self.entries.len() && self.entries[i].id == id {
            proof {
                lemma_record_at(self.entries@, i as int);
            }
            Ok(self.entries[i].proposition.clone())
        } else {
            proof {
                if holds(self.entries@, id) {
                    let k = slot_of(self.entries@, id);
                    assert(self.entries@[k].id == id);
                    assert(k >= i);
                    if k > i {
                        assert(self.entries@[i as int].id < self.entries@[k].id);
                    }
                }
            }
            Err(ContractError::NotFound {  })
        }
    }

    /// Hands out the next id: one more than the last.
    pub fn allocate_id(&mut self) -> (id: u64)
        requires
            old(self)@.count < u64::MAX,
        ensures
            id == old(self)@.count + 1,
            final(self)@.count == id,
            final(self)@.propositions == old(self)@.propositions,
            !final(self)@.propositions.contains_key(id),
            final(self)@.wf(),
    {
        proof {
            use_type_invariant(&*self);
            self.lemma_view_wf();
        }
        self.count = self.count + 1;
        proof {
            use_type_invariant(&*self);
            self.lemma_view_wf();
        }
        self.count
    }

    /// A page of propositions, greatest id first: those below `start_before`
    /// where one is given, `limit` of them at most, ten where none is given
    /// and never more than thirty.
    pub fn list(&self, start_before: Option<u64>, limit: Option<u32>) -> (items: Vec<
        (u64, Proposition),
    >)
        ensures
            item_views(items@) == page(
                self@.propositions,
                bound_of(start_before),
                page_size(limit),
            ),
    {
        proof {
            use_type_invariant(&*self);
        }
        let asked = match limit {
            Some(l) => l,
            None => DEFAULT_LIMIT,
        };
        let n: u32 = if asked <= MAX_LIMIT {
            asked
        } else {
            MAX_LIMIT
        };
        let top = match start_before {
            Some(b) => self.lower_bound(b),
            None => self.entries.len(),
        };
        let ghost records = self@.propositions;
        let ghost mut cursor = bound_of(start_before);
        let mut items: Vec<(u64, Proposition)> = Vec::new();
        let mut left: u32 = n;
        let mut i: usize = top;
        assert(item_views(items@) + page(records, cursor, left as nat) =~= page(
            records,
            cursor,
            left as nat,
        ));
        while i > 0 && left > 0
            invariant
                i <= self.entries@.len(),
                ascending(self.entries@),
                records == records_of(self.entries@),
                forall|k: int|
                    0 <= k < self.entries@.len() ==> ((#[trigger] self.entries@[k]).id < cursor
                        <==> k < i),
                page(records, bound_of(start_before), n as nat) == item_views(items@) + page(
                    records,
                    cursor,
                    left as nat,
                ),
            decreases i,
        {
            proof {
                lemma_top(self.entries@, i as int, cursor);
                lemma_record_at(self.entries@, i - 1);
            }
            i = i - 1;
            let ghost earlier = items@;
            let id = self.entries[i].id;
            items.push((id, self.entries[i].proposition.clone()));
            proof {
                let item = (id, self.entries@[i as int].proposition@);
                assert(item_views(items@) =~= item_views(earlier).push(item));
                assert(page(records, cursor, left as nat) == seq![item] + page(
                    records,
                    id as int,
                    (left - 1) as nat,
                ));
                assert(item_views(earlier) + (seq![item] + page(
                    records,
                    id as int,
                    (left - 1) as nat,
                )) =~= item_views(items@) + page(records, id as int, (left - 1) as nat));
                assert forall|k: int| 0 <= k < self.entries@.len() implies ((
                #[trigger] self.entries@[k]).id < id <==> k < i) by {
                    if k < i {
                        assert(self.entries@[k].id < self.entries@[i as int].id);
                    } else if k > i {
                        assert(self.entries@[i as int].id < self.entries@[k].id);
                    }
                }
                cursor = id as int;
            }
            left = left - 1;
        }
        proof {
            lemma_top(self.entries@, i as int, cursor);
            assert(page(records, cursor, left as nat) =~= Seq::<(u64, PropositionView)>::empty());
            assert(item_views(items@) + Seq::<(u64, PropositionView)>::empty() =~= item_views(
                items@,
            ));
        }
        items
    }

    /// Stores `proposition` under `id`, in place of what was there.
    pub fn save(&mut self, id: u64, proposition: Proposition)
        requires
            1 <= id <= old(self)@.count,
            proposition@.wf(),
        ensures
            final(self)@.count == old(self)@.count,
            final(self)@.propositions == old(self)@.propositions.insert(id, proposition@),
            final(self)@.wf(),
    {
        proof {
            use_type_invariant(&*self);
        }
        let i = self.lower_bound(id);
        let ghost before = self.entries@;
        let mut entries: Vec<Entry> = Vec::new();
        core::mem::swap(&mut entries, &mut self.entries);
        if i < entries.len() && entries[i].id == id {
            entries.set(i, Entry { id, proposition });
        } else {
            entries.insert(i, Entry { id, proposition });
        }
        proof {
            lemma_saved(before, entries@, i as int, id, proposition@);
        }
        self.entries = entries;
        proof {
            use_type_invariant(&*self);
            self.lemma_view_wf();
        }
    }
}

/// Writing a record at the position that `lower_bound` gives keeps the
/// entries ascending and changes the records at that id alone.
proof fn lemma_saved(
    before: Seq<Entry>,
    after: Seq<Entry>,
    i: int,
    id: u64,
    value: PropositionView,
)
    requires
        ascending(before),
        0 <= i <= before.len(),
        forall|k: int| 0 <= k < before.len() ==> ((#[trigger] before[k]).id < id <==> k < i),
        i < before.len() && before[i].id == id ==> after.len() == before.len() && after[i].id
            == id && after[i].proposition@ == value && forall|k: int|
            0 <= k < before.len() && k != i ==> after[k] == before[k],
        !(i < before.len() && before[i].id == id) ==> after.len() == before.len() + 1 && after[i].id
            == id && after[i].proposition@ == value && (forall|k: int|
            0 <= k < i ==> after[k] == before[k]) && (forall|k: int|
            i <= k < before.len() ==> after[k + 1] == before[k]),
    ensures
        ascending(after),
        records_of(after) =~= records_of(before).insert(id, value),
{
    let replaced = i < before.len() && before[i].id == id;
    // position in `after` of position `k` in `before`
    let fwd = |k: int| if replaced || k < i { k } else { k + 1 };
    // position in `before` of position `k != i` in `after`
    let back = |k: int| if replaced || k < i { k } else { k - 1 };
    assert forall|a: int, b: int| 0 <= a < b < after.len() implies (#[trigger] after[a]).id < (
    #[trigger] after[b]).id by {
        if a == i {
            let kb = back(b);
            assert(after[b] == before[kb]);
            if replaced {
                assert(before[i].id < before[kb].id);
            } else {
                assert(!(before[kb].id < id));
                if kb < before.len() && before[kb].id == id {
                    assert(kb >= i);
                    if kb > i {
                        assert(before[i].id < before[kb].id);
                    }
                }
            }
        } else if b == i {
            let ka = back(a);
            assert(after[a] == before[ka]);
            assert(before[ka].id < id);
        } else {
            let ka = back(a);
            let kb = back(b);
            assert(after[a] == before[ka]);
            assert(after[b] == before[kb]);
            assert(before[ka].id < before[kb].id);
        }
    }
    assert forall|key: u64| #[trigger]
        records_of(after).contains_key(key) == records_of(before).insert(id, value).contains_key(
            key,
        ) by {
        if holds(after, key) {
            let k = slot_of(after, key);
            if k != i {
                assert(after[k] == before[back(k)]);
                assert(holds(before, key));
            }
        }
        if holds(before, key) {
            let k = slot_of(before, key);
            if key != id {
                assert(after[fwd(k)] == before[k]);
                assert(holds(after, key));
            }
        }
        if key == id {
            assert(after[i].id == id);
            assert(holds(after, key));
        }
    }
    assert forall|key: u64| #[trigger] records_of(after).contains_key(key) implies records_of(
        after,
    )[key] == records_of(before).insert(id, value)[key] by {
        let k = slot_of(after, key);
        lemma_record_at(after, k);
        if key != id {
            assert(k != i);
            assert(after[k] == before[back(k)]);
            lemma_record_at(before, back(k));
        } else {
            lemma_record_at(after, i);
        }
    }
}

} // verus!
