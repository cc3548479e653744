use vstd::prelude::*;

use crate::types::{AssetInfo, BuyerStatus, SaleStatus, SaleTimes};

verus! {

/// Chain-wide configuration, written once at instantiation and immutable
/// thereafter.
pub struct Config {
    /// This chain's own identity.
    pub chain_id: u16,
    /// Endpoint of the bridge that verifies cross-chain messages.
    pub bridge: Vec<u8>,
    /// Endpoint of the token bridge that moves assets between chains.
    pub token_bridge: Vec<u8>,
    /// The chain the conductor lives on; never this chain itself.
    pub conductor_chain: u16,
    /// Contract identity of the conductor on its chain.
    pub conductor_address: Vec<u8>,
    /// The account that instantiated this contributor.
    pub owner: Vec<u8>,
}

/// One buyer's ledger entry for one (sale, slot).
pub struct BuyerRecord {
    pub buyer: Vec<u8>,
    /// Reconciled running contribution total.  It accumulates while the sale
    /// is active and shrinks only when escrow reconciliation reports a
    /// shortfall.
    pub amount: u128,
    /// The part of `amount` whose escrow transfer is not yet confirmed.
    pub unconfirmed: u128,
    /// Whether the latest batch of this buyer's contributions has been
    /// reconciled against the amount that actually arrived in escrow.
    pub escrow_confirmed: bool,
    pub status: BuyerStatus,
}

/// Per-sale state of one accepted asset slot.
pub struct SlotState {
    pub asset: AssetInfo,
    /// Decimal precision of the asset on this chain.
    pub decimals: u8,
    /// Raise cap: the slot's total contribution may never exceed it.
    pub cap: Option<u128>,
    /// Running sum of all buyers' contributions for this slot.
    pub total: u128,
    /// Allocation of the sold token, written at sealing; zero before.
    pub allocation: u128,
    /// Excess contribution reported at sealing; zero before.
    pub excess: u128,
    pub buyers: Vec<BuyerRecord>,
}

/// One sale: terms fixed at creation, lifecycle status, per-slot ledgers.
pub struct SaleEntry {
    /// The conductor-assigned identifier, globally unique.
    pub id: Vec<u8>,
    /// Identity of the token being sold, as the conductor states it.
    pub token: Vec<u8>,
    pub times: SaleTimes,
    pub status: SaleStatus,
    pub slots: Vec<SlotState>,
}

/// Whole state of the contributor core.
pub struct Contributor {
    pub config: Config,
    /// Fingerprints of cross-chain messages already consumed; append-only.
    pub consumed: Vec<Vec<u8>>,
    pub sales: Vec<SaleEntry>,
}

// ---------------------------------------------------------------------------
// Buyer lists
// ---------------------------------------------------------------------------

/// No buyer appears twice in a slot's ledger.
pub open spec fn buyers_unique(s: Seq<BuyerRecord>) -> bool {
    forall|i: int, j: int|
        0 <= i < j < s.len() ==> (#[trigger] s[i].buyer@) != (#[trigger] s[j].buyer@)
}

/// Whether buyer `b` has a record in the list.
pub open spec fn has_buyer(s: Seq<BuyerRecord>, b: Seq<u8>) -> bool {
    exists|i: int| 0 <= i < s.len() && (#[trigger] s[i].buyer@) == b
}

/// Index of buyer `b`'s record; meaningful only under `has_buyer`.
pub open spec fn buyer_ix(s: Seq<BuyerRecord>, b: Seq<u8>) -> int {
    choose|i: int| 0 <= i < s.len() && (#[trigger] s[i].buyer@) == b
}

/// Buyer `b`'s record; meaningful only under `has_buyer`.
pub open spec fn buyer_at(s: Seq<BuyerRecord>, b: Seq<u8>) -> BuyerRecord {
    s[buyer_ix(s, b)]
}

/// Sum of all recorded amounts in a buyer list.
pub open spec fn sum_amounts(s: Seq<BuyerRecord>) -> int
    decreases s.len(),
{
    if s.len() == 0 {
        0
    } else {
        sum_amounts(s.drop_last()) + s.last().amount
    }
}

/// The sum of a buyer list is nonnegative and dominates every single entry.
pub proof fn lemma_sum_amounts_bounds(s: Seq<BuyerRecord>)
    ensures
        sum_amounts(s) >= 0,
        forall|k: int| 0 <= k < s.len() ==> (#[trigger] s[k].amount) <= sum_amounts(s),
    decreases s.len(),
{
    if s.len() > 0 {
        lemma_sum_amounts_bounds(s.drop_last());
        assert forall|k: int| 0 <= k < s.len() implies (#[trigger] s[k].amount) <= sum_amounts(s) by {
            if k < s.len() - 1 {
                assert(s.drop_last()[k] == s[k]);
            }
        }
    }
}

/// Replacing one record changes the sum by the difference of the amounts.
pub proof fn lemma_sum_amounts_update(s: Seq<BuyerRecord>, k: int, b: BuyerRecord)
    requires
        0 <= k < s.len(),
    ensures
        sum_amounts(s.update(k, b)) == sum_amounts(s) - s[k].amount + b.amount,
    decreases s.len(),
{
    let t = s.update(k, b);
    if k == s.len() - 1 {
        assert(t.drop_last() =~= s.drop_last());
        assert(t.last() == b);
    } else {
        assert(t.drop_last() =~= s.drop_last().update(k, b));
        lemma_sum_amounts_update(s.drop_last(), k, b);
        assert(t.last() == s.last());
    }
}

/// Appending a record adds its amount to the sum.
pub proof fn lemma_sum_amounts_push(s: Seq<BuyerRecord>, b: BuyerRecord)
    ensures
        sum_amounts(s.push(b)) == sum_amounts(s) + b.amount,
{
    assert(s.push(b).drop_last() =~= s);
    assert(s.push(b).last() == b);
}

// ---------------------------------------------------------------------------
// Well-formedness
// ---------------------------------------------------------------------------

/// Financial invariant of one slot: the running total is exactly the sum of
/// the buyers' recorded amounts, buyers are unique, no buyer's unconfirmed
/// part exceeds their recorded amount, and a cap is never exceeded.
pub open spec fn slot_inv(sl: SlotState) -> bool {
    &&& sl.total as int == sum_amounts(sl.buyers@)
    &&& buyers_unique(sl.buyers@)
    &&& forall|i: int|
        0 <= i < sl.buyers@.len() ==> (#[trigger] sl.buyers@[i].unconfirmed)
            <= sl.buyers@[i].amount
    &&& match sl.cap {
        Some(c) => sl.total <= c,
        None => true,
    }
}

/// Invariant of one sale: every slot is well formed, and allocation data
/// appears only once the sale is sealed.
pub open spec fn sale_inv(e: SaleEntry) -> bool {
    &&& e.slots@.len() <= 256
    &&& forall|j: int| 0 <= j < e.slots@.len() ==> slot_inv(#[trigger] e.slots@[j])
    &&& e.status != SaleStatus::Sealed ==> forall|j: int|
        0 <= j < e.slots@.len() ==> (#[trigger] e.slots@[j].allocation) == 0
            && e.slots@[j].excess == 0
}

impl Contributor {
    /// Sale identifiers are unique across the registry.
    pub open spec fn sales_unique(self) -> bool {
        forall|i: int, j: int|
            0 <= i < j < self.sales@.len() ==> (#[trigger] self.sales@[i].id@)
                != (#[trigger] self.sales@[j].id@)
    }

    /// Well-formedness of the whole state.  Every entry point requires it
    /// and preserves it.
    pub open spec fn inv(self) -> bool {
        &&& self.config.conductor_chain != self.config.chain_id
        &&& self.sales_unique()
        &&& forall|i: int| 0 <= i < self.sales@.len() ==> sale_inv(#[trigger] self.sales@[i])
    }

    /// Whether a message fingerprint has already been consumed.
    pub open spec fn is_consumed(self, fp: Seq<u8>) -> bool {
        exists|i: int| 0 <= i < self.consumed@.len() && (#[trigger] self.consumed@[i]@) == fp
    }

    /// Whether a sale with this identifier exists.
    pub open spec fn has_sale(self, sid: Seq<u8>) -> bool {
        exists|i: int| 0 <= i < self.sales@.len() && (#[trigger] self.sales@[i].id@) == sid
    }

    /// Registry index of the sale; meaningful only under `has_sale`.
    pub open spec fn sale_ix(self, sid: Seq<u8>) -> int {
        choose|i: int| 0 <= i < self.sales@.len() && (#[trigger] self.sales@[i].id@) == sid
    }

    /// The sale's entry; meaningful only under `has_sale`.
    pub open spec fn sale_at(self, sid: Seq<u8>) -> SaleEntry {
        self.sales@[self.sale_ix(sid)]
    }
}

impl Contributor {
    /// Scan the registry for a sale identifier.
    pub fn find_sale(&self, sid: &[u8]) -> (r: Option<usize>)
        requires
            self.sales_unique(),
        ensures
            match r {
                Some(i) => {
                    &&& i < self.sales@.len()
                    &&& self.sales@[i as int].id@ == sid@
                    &&& self.has_sale(sid@)
                    &&& self.sale_ix(sid@) == i
                },
                None => !self.has_sale(sid@),
            },
    {
        let n = self.sales.len();
        let mut i: usize = 0;
        while i < n
            invariant
                n == self.sales@.len(),
                0 <= i <= n,
                self.sales_unique(),
                forall|k: int| 0 <= k < i ==> (#[trigger] self.sales@[k].id@) != sid@,
            decreases n - i,
        {
            let e = &self.sales[i];
            if crate::types::bytes_eq(e.id.as_slice(), sid) {
                proof {
                    assert(self.sales@[i as int].id@ == sid@);
                    assert(self.has_sale(sid@));
                    let k = self.sale_ix(sid@);
                    assert(0 <= k < self.sales@.len() && self.sales@[k].id@ == sid@);
                    if k < i as int {
                        assert(self.sales@[k].id@ != self.sales@[i as int].id@);
                    } else if k > i as int {
                        assert(self.sales@[i as int].id@ != self.sales@[k].id@);
                    }
                }
                return Some(i);
            }
            i += 1;
        }
        proof {
            if self.has_sale(sid@) {
                let k = choose|k: int|
                    0 <= k < self.sales@.len() && (#[trigger] self.sales@[k].id@) == sid@;
                assert(false);
            }
        }
        None
    }

    /// Scan the consumed-fingerprint set.
    pub fn consumed_contains(&self, fp: &[u8]) -> (r: bool)
        ensures
            r == self.is_consumed(fp@),
    {
        let n = self.consumed.len();
        let mut i: usize = 0;
        while i < n
            invariant
                n == self.consumed@.len(),
                0 <= i <= n,
                forall|k: int| 0 <= k < i ==> (#[trigger] self.consumed@[k]@) != fp@,
            decreases n - i,
        {
            if crate::types::bytes_eq(self.consumed[i].as_slice(), fp) {
                proof {
                    assert(self.consumed@[i as int]@ == fp@);
                }
                return true;
            }
            i += 1;
        }
        proof {
            if self.is_consumed(fp@) {
                let k = choose|k: int|
                    0 <= k < self.consumed@.len() && (#[trigger] self.consumed@[k]@) == fp@;
                assert(false);
            }
        }
        false
    }
}

/// The ledger's accounting law: in every well-formed state, each slot's
/// recorded total equals the sum of its buyers' reconciled contributions.
/// Every entry point requires and preserves `inv`, so this holds at all
/// times.
pub proof fn lemma_total_is_sum_of_contributions(c: Contributor, sid: Seq<u8>, j: int)
    requires
        c.inv(),
        c.has_sale(sid),
        0 <= j < c.sale_at(sid).slots@.len(),
    ensures
        c.sale_at(sid).slots@[j].total as int == sum_amounts(c.sale_at(sid).slots@[j].buyers@),
{
    let i = c.sale_ix(sid);
    assert(sale_inv(c.sales@[i]));
    assert(slot_inv(c.sale_at(sid).slots@[j]));
}

/// An empty sale entry, used to swap a real entry out of the registry while
/// it is being rewritten.
pub(crate) fn blank_sale() -> SaleEntry {
    SaleEntry {
        id: Vec::new(),
        token: Vec::new(),
        times: SaleTimes { start: 0, end: 0, unlock: 0 },
        status: SaleStatus::Active,
        slots: Vec::new(),
    }
}

/// An empty slot, used to swap a real slot out while it is being rewritten.
pub(crate) fn blank_slot() -> SlotState {
    SlotState {
        asset: AssetInfo::NativeToken { denom: Vec::new() },
        decimals: 0,
        cap: None,
        total: 0,
        allocation: 0,
        excess: 0,
        buyers: Vec::new(),
    }
}

/// An empty buyer record, used to swap a real record out while it is being
/// rewritten.
pub(crate) fn blank_buyer() -> BuyerRecord {
    BuyerRecord {
        buyer: Vec::new(),
        amount: 0,
        unconfirmed: 0,
        escrow_confirmed: false,
        status: BuyerStatus {
            allocation_claimed: false,
            refund_claimed: false,
            excess_refund_claimed: false,
        },
    }
}

/// Scan a slot's ledger for a buyer.
pub fn find_buyer(buyers: &Vec<BuyerRecord>, b: &[u8]) -> (r: Option<usize>)
    requires
        buyers_unique(buyers@),
    ensures
        match r {
            Some(k) => {
                &&& k < buyers@.len()
                &&& buyers@[k as int].buyer@ == b@
                &&& has_buyer(buyers@, b@)
                &&& buyer_ix(buyers@, b@) == k
            },
            None => !has_buyer(buyers@, b@),
        },
{
    let n = buyers.len();
    let mut i: usize = 0;
    while i < n
        invariant
            n == buyers@.len(),
            0 <= i <= n,
            buyers_unique(buyers@),
            forall|k: int| 0 <= k < i ==> (#[trigger] buyers@[k].buyer@) != b@,
        decreases n - i,
    {
        let rec = &buyers[i];
        if crate::types::bytes_eq(rec.buyer.as_slice(), b) {
            proof {
                assert(buyers@[i as int].buyer@ == b@);
                assert(has_buyer(buyers@, b@));
                let k = buyer_ix(buyers@, b@);
                assert(0 <= k < buyers@.len() && buyers@[k].buyer@ == b@);
                if k < i as int {
                    assert(buyers@[k].buyer@ != buyers@[i as int].buyer@);
                } else if k > i as int {
                    assert(buyers@[i as int].buyer@ != buyers@[k].buyer@);
                }
            }
            return Some(i);
        }
        i += 1;
    }
    proof {
        if has_buyer(buyers@, b@) {
            let k = choose|k: int| 0 <= k < buyers@.len() && (#[trigger] buyers@[k].buyer@) == b@;
            assert(false);
        }
    }
    None
}

// ---------------------------------------------------------------------------
// Frame lemmas: how the registry accessors behave under an update or a push
// ---------------------------------------------------------------------------

/// Two states with the same sale registry answer every registry query alike.
pub proof fn lemma_same_sales_same_accessors(a: Contributor, b: Contributor)
    requires
        a.sales@ == b.sales@,
        a.sales_unique(),
    ensures
        forall|s: Seq<u8>| a.has_sale(s) == b.has_sale(s),
        forall|s: Seq<u8>|
            #[trigger] a.has_sale(s) ==> a.sale_ix(s) == b.sale_ix(s) && a.sale_at(s) == b.sale_at(s),
{
    assert forall|s: Seq<u8>| a.has_sale(s) == b.has_sale(s) by {
        if a.has_sale(s) {
            let k = choose|k: int| 0 <= k < a.sales@.len() && (#[trigger] a.sales@[k].id@) == s;
            assert(b.sales@[k].id@ == s);
            assert(b.has_sale(s));
        }
        if b.has_sale(s) {
            let k = choose|k: int| 0 <= k < b.sales@.len() && (#[trigger] b.sales@[k].id@) == s;
            assert(a.sales@[k].id@ == s);
            assert(a.has_sale(s));
        }
    }
    assert forall|s: Seq<u8>| #[trigger] a.has_sale(s) implies a.sale_ix(s) == b.sale_ix(s)
        && a.sale_at(s) == b.sale_at(s) by {
        let ka = a.sale_ix(s);
        assert(0 <= ka < a.sales@.len() && a.sales@[ka].id@ == s);
        let kb = b.sale_ix(s);
        assert(0 <= kb < b.sales@.len() && b.sales@[kb].id@ == s);
        assert(a.sales@[kb].id@ == s);
        assert(ka == kb);
    }
}

/// Replacing the entry of one sale, keeping its identifier, leaves every
/// other sale's entry and the whole registry's key set unchanged.
pub proof fn lemma_sale_update_frame(pre: Contributor, post: Contributor, i: int, sid: Seq<u8>)
    requires
        pre.sales_unique(),
        0 <= i < pre.sales@.len(),
        pre.sales@[i].id@ == sid,
        post.sales@ == pre.sales@.update(i, post.sales@[i]),
        post.sales@[i].id@ == sid,
    ensures
        post.sales_unique(),
        pre.has_sale(sid),
        post.has_sale(sid),
        pre.sale_ix(sid) == i,
        post.sale_ix(sid) == i,
        pre.sale_at(sid) == pre.sales@[i],
        post.sale_at(sid) == post.sales@[i],
        forall|s: Seq<u8>| post.has_sale(s) == pre.has_sale(s),
        forall|s: Seq<u8>| pre.has_sale(s) && s != sid ==> post.sale_at(s) == pre.sale_at(s),
{
    assert(forall|k: int|
        0 <= k < post.sales@.len() ==> (#[trigger] post.sales@[k].id@) == pre.sales@[k].id@);
    assert forall|s: Seq<u8>| post.has_sale(s) == pre.has_sale(s) by {
        if pre.has_sale(s) {
            let k = choose|k: int|
                0 <= k < pre.sales@.len() && (#[trigger] pre.sales@[k].id@) == s;
            assert(post.sales@[k].id@ == s);
            assert(post.has_sale(s));
        }
        if post.has_sale(s) {
            let k = choose|k: int|
                0 <= k < post.sales@.len() && (#[trigger] post.sales@[k].id@) == s;
            assert(pre.sales@[k].id@ == s);
            assert(pre.has_sale(s));
        }
    }
    assert(pre.has_sale(sid));
    let k0 = pre.sale_ix(sid);
    assert(0 <= k0 < pre.sales@.len() && pre.sales@[k0].id@ == sid);
    assert(k0 == i);
    let k1 = post.sale_ix(sid);
    assert(0 <= k1 < post.sales@.len() && post.sales@[k1].id@ == sid);
    assert(pre.sales@[k1].id@ == sid);
    assert(k1 == i);
    assert forall|s: Seq<u8>| pre.has_sale(s) && s != sid implies post.sale_at(s)
        == pre.sale_at(s) by {
        let ka = pre.sale_ix(s);
        assert(0 <= ka < pre.sales@.len() && pre.sales@[ka].id@ == s);
        let kb = post.sale_ix(s);
        assert(0 <= kb < post.sales@.len() && post.sales@[kb].id@ == s);
        assert(pre.sales@[kb].id@ == s);
        assert(ka == kb);
        assert(ka != i);
        assert(post.sales@[ka] == pre.sales@[ka]);
    }
}

/// Appending a sale with a fresh identifier adds exactly that key to the
/// registry and disturbs no existing entry.
pub proof fn lemma_sale_push_frame(pre: Contributor, post: Contributor, e: SaleEntry)
    requires
        pre.sales_unique(),
        !pre.has_sale(e.id@),
        post.sales@ == pre.sales@.push(e),
    ensures
        post.sales_unique(),
        post.has_sale(e.id@),
        post.sale_ix(e.id@) == pre.sales@.len(),
        post.sale_at(e.id@) == e,
        forall|s: Seq<u8>| s != e.id@ ==> post.has_sale(s) == pre.has_sale(s),
        forall|s: Seq<u8>| #[trigger] pre.has_sale(s) ==> post.has_sale(s),
        forall|s: Seq<u8>| pre.has_sale(s) && s != e.id@ ==> post.sale_at(s) == pre.sale_at(s),
{
    let n = pre.sales@.len() as int;
    assert(post.sales@[n] == e);
    assert(forall|k: int| 0 <= k < n ==> (#[trigger] post.sales@[k]) == pre.sales@[k]);
    assert forall|i: int, j: int| 0 <= i < j < post.sales@.len() implies (
        #[trigger] post.sales@[i].id@) != (#[trigger] post.sales@[j].id@) by {
        if j == n {
            assert(pre.sales@[i].id@ == post.sales@[i].id@);
            if post.sales@[i].id@ == e.id@ {
                assert(pre.has_sale(e.id@));
            }
        }
    }
    assert(post.has_sale(e.id@));
    let k = post.sale_ix(e.id@);
    assert(0 <= k < post.sales@.len() && post.sales@[k].id@ == e.id@);
    if k < n {
        assert(pre.sales@[k].id@ == e.id@);
        assert(pre.has_sale(e.id@));
    }
    assert(k == n);
    assert forall|s: Seq<u8>| s != e.id@ implies post.has_sale(s) == pre.has_sale(s) by {
        if pre.has_sale(s) {
            let ka = choose|i: int|
                0 <= i < pre.sales@.len() && (#[trigger] pre.sales@[i].id@) == s;
            assert(post.sales@[ka].id@ == s);
            assert(post.has_sale(s));
        }
        if post.has_sale(s) {
            let kb = choose|i: int|
                0 <= i < post.sales@.len() && (#[trigger] post.sales@[i].id@) == s;
            assert(kb != n);
            assert(pre.sales@[kb].id@ == s);
            assert(pre.has_sale(s));
        }
    }
    assert forall|s: Seq<u8>| #[trigger] pre.has_sale(s) implies post.has_sale(s) by {
        let ka = choose|i: int| 0 <= i < pre.sales@.len() && (#[trigger] pre.sales@[i].id@) == s;
        assert(post.sales@[ka].id@ == s);
    }
    assert forall|s: Seq<u8>| pre.has_sale(s) && s != e.id@ implies post.sale_at(s)
        == pre.sale_at(s) by {
        let ka = pre.sale_ix(s);
        assert(0 <= ka < pre.sales@.len() && pre.sales@[ka].id@ == s);
        let kb = post.sale_ix(s);
        assert(0 <= kb < post.sales@.len() && post.sales@[kb].id@ == s);
        assert(kb != n);
        assert(pre.sales@[kb].id@ == s);
        assert(ka == kb);
        assert(post.sales@[ka] == pre.sales@[ka]);
    }
}

/// Replacing one buyer's record, keeping the buyer's identity, leaves every
/// other buyer's record and the ledger's key set unchanged.
pub proof fn lemma_buyers_update_frame(pre: Seq<BuyerRecord>, post: Seq<BuyerRecord>, k: int, b: Seq<u8>)
    requires
        buyers_unique(pre),
        0 <= k < pre.len(),
        pre[k].buyer@ == b,
        post == pre.update(k, post[k]),
        post[k].buyer@ == b,
    ensures
        buyers_unique(post),
        has_buyer(pre, b),
        has_buyer(post, b),
        buyer_ix(pre, b) == k,
        buyer_ix(post, b) == k,
        buyer_at(pre, b) == pre[k],
        buyer_at(post, b) == post[k],
        forall|x: Seq<u8>| has_buyer(post, x) == has_buyer(pre, x),
        forall|x: Seq<u8>| has_buyer(pre, x) && x != b ==> buyer_at(post, x) == buyer_at(pre, x),
{
    assert(forall|t: int| 0 <= t < post.len() ==> (#[trigger] post[t].buyer@) == pre[t].buyer@);
    assert forall|x: Seq<u8>| has_buyer(post, x) == has_buyer(pre, x) by {
        if has_buyer(pre, x) {
            let t = choose|t: int| 0 <= t < pre.len() && (#[trigger] pre[t].buyer@) == x;
            assert(post[t].buyer@ == x);
            assert(has_buyer(post, x));
        }
        if has_buyer(post, x) {
            let t = choose|t: int| 0 <= t < post.len() && (#[trigger] post[t].buyer@) == x;
            assert(pre[t].buyer@ == x);
            assert(has_buyer(pre, x));
        }
    }
    assert(has_buyer(pre, b));
    let t0 = buyer_ix(pre, b);
    assert(0 <= t0 < pre.len() && pre[t0].buyer@ == b);
    assert(t0 == k);
    let t1 = buyer_ix(post, b);
    assert(0 <= t1 < post.len() && post[t1].buyer@ == b);
    assert(pre[t1].buyer@ == b);
    assert(t1 == k);
    assert forall|x: Seq<u8>| has_buyer(pre, x) && x != b implies buyer_at(post, x)
        == buyer_at(pre, x) by {
        let ta = buyer_ix(pre, x);
        assert(0 <= ta < pre.len() && pre[ta].buyer@ == x);
        let tb = buyer_ix(post, x);
        assert(0 <= tb < post.len() && post[tb].buyer@ == x);
        assert(pre[tb].buyer@ == x);
        assert(ta == tb);
        assert(ta != k);
        assert(post[ta] == pre[ta]);
    }
}

/// Appending a record for a buyer not yet in the ledger adds exactly that
/// buyer and disturbs no existing record.
pub proof fn lemma_buyers_push_frame(pre: Seq<BuyerRecord>, rec: BuyerRecord)
    requires
        buyers_unique(pre),
        !has_buyer(pre, rec.buyer@),
    ensures
        buyers_unique(pre.push(rec)),
        has_buyer(pre.push(rec), rec.buyer@),
        buyer_ix(pre.push(rec), rec.buyer@) == pre.len(),
        buyer_at(pre.push(rec), rec.buyer@) == rec,
        forall|x: Seq<u8>| x != rec.buyer@ ==> has_buyer(pre.push(rec), x) == has_buyer(pre, x),
        forall|x: Seq<u8>| has_buyer(pre, x) && x != rec.buyer@ ==> buyer_at(pre.push(rec), x)
            == buyer_at(pre, x),
{
    let post = pre.push(rec);
    let n = pre.len() as int;
    assert(post[n] == rec);
    assert(forall|t: int| 0 <= t < n ==> (#[trigger] post[t]) == pre[t]);
    assert forall|i: int, j: int| 0 <= i < j < post.len() implies (#[trigger] post[i].buyer@)
        != (#[trigger] post[j].buyer@) by {
        if j == n {
            if post[i].buyer@ == rec.buyer@ {
                assert(pre[i].buyer@ == rec.buyer@);
                assert(has_buyer(pre, rec.buyer@));
            }
        }
    }
    assert(has_buyer(post, rec.buyer@));
    let k = buyer_ix(post, rec.buyer@);
    assert(0 <= k < post.len() && post[k].buyer@ == rec.buyer@);
    if k < n {
        assert(pre[k].buyer@ == rec.buyer@);
        assert(has_buyer(pre, rec.buyer@));
    }
    assert(k == n);
    assert forall|x: Seq<u8>| x != rec.buyer@ implies has_buyer(post, x) == has_buyer(pre, x) by {
        if has_buyer(pre, x) {
            let t = choose|t: int| 0 <= t < pre.len() && (#[trigger] pre[t].buyer@) == x;
            assert(post[t].buyer@ == x);
            assert(has_buyer(post, x));
        }
        if has_buyer(post, x) {
            let t = choose|t: int| 0 <= t < post.len() && (#[trigger] post[t].buyer@) == x;
            assert(t != n);
            assert(pre[t].buyer@ == x);
            assert(has_buyer(pre, x));
        }
    }
    assert forall|x: Seq<u8>| has_buyer(pre, x) && x != rec.buyer@ implies buyer_at(post, x)
        == buyer_at(pre, x) by {
        let ta = buyer_ix(pre, x);
        assert(0 <= ta < pre.len() && pre[ta].buyer@ == x);
        let tb = buyer_ix(post, x);
        assert(0 <= tb < post.len() && post[tb].buyer@ == x);
        assert(tb != n);
        assert(pre[tb].buyer@ == x);
        assert(ta == tb);
        assert(post[ta] == pre[ta]);
    }
}

} // verus!
