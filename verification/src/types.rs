use vstd::prelude::*;

verus! {

/// Chain-local identity of an asset: the chain's native coin, named by its
/// denomination, or a token contract, named by its address.
#[derive(Debug)]
pub enum AssetInfo {
    NativeToken { denom: Vec<u8> },
    Token { contract_addr: Vec<u8> },
}

impl AssetInfo {
    /// Mathematical identity of the asset: which namespace it lives in and
    /// the bytes that name it.  Two assets are the same exactly when their
    /// keys are equal.
    pub open spec fn key(&self) -> (bool, Seq<u8>) {
        match self {
            AssetInfo::NativeToken { denom } => (true, denom@),
            AssetInfo::Token { contract_addr } => (false, contract_addr@),
        }
    }
}

/// Lifecycle state of a sale.  A sale starts `Active`; a verified sealing or
/// aborting message moves it to `Sealed` or `Aborted`, and both are terminal.
#[derive(Clone, Copy, Debug, PartialEq, Eq, Structural)]
pub enum SaleStatus {
    Active,
    Sealed,
    Aborted,
}

/// The sale's time window, in host time units.  Contributions are accepted
/// in the closed interval `[start, end]`; sealing and aborting wait until
/// after `end`.
#[derive(Clone, Copy, Debug, PartialEq, Eq, Structural)]
pub struct SaleTimes {
    pub start: u64,
    pub end: u64,
    pub unlock: u64,
}

/// Per-buyer claim flags for one (sale, slot, buyer) triple.  Each flag is
/// set exactly once, at claim time; a claim against a set flag fails.
#[derive(Clone, Copy, Debug, PartialEq, Eq, Structural)]
pub struct BuyerStatus {
    pub allocation_claimed: bool,
    pub refund_claimed: bool,
    pub excess_refund_claimed: bool,
}

impl BuyerStatus {
    /// The state of a buyer who has claimed nothing yet.
    pub fn unset() -> (r: BuyerStatus)
        ensures
            !r.allocation_claimed,
            !r.refund_claimed,
            !r.excess_refund_claimed,
    {
        BuyerStatus { allocation_claimed: false, refund_claimed: false, excess_refund_claimed: false }
    }
}

/// An instruction to the escrow collaborator to move `amount` of `asset`:
/// pulled from the buyer on a contribution, sent back on a refund.  The core
/// only emits the instruction; the host carries it out after the call
/// commits.
pub struct AssetTransfer {
    pub asset: AssetInfo,
    pub amount: u128,
}

/// An instruction to send `amount` of the sold token to the caller.
pub struct TokenTransfer {
    pub token: Vec<u8>,
    pub amount: u128,
}

/// Byte-for-byte equality of two byte strings, as used for sale identifiers,
/// addresses and asset names.
pub fn bytes_eq(a: &[u8], b: &[u8]) -> (r: bool)
    ensures
        r <==> a@ == b@,
{
    if a.len() != b.len() {
        assert(a@.len() != b@.len());
        return false;
    }
    let n = a.len();
    let mut i: usize = 0;
    while i < n
        invariant
            n == a@.len(),
            n == b@.len(),
            0 <= i <= n,
            forall|k: int| 0 <= k < i ==> a@[k] == b@[k],
        decreases n - i,
    {
        if a[i] != b[i] {
            return false;
        }
        i += 1;
    }
    proof {
        assert(a@ =~= b@);
    }
    true
}

/// Equality of asset identities, byte-for-byte within the same namespace.
pub fn asset_eq(a: &AssetInfo, b: &AssetInfo) -> (r: bool)
    ensures
        r <==> a.key() == b.key(),
{
    match (a, b) {
        (AssetInfo::NativeToken { denom: da }, AssetInfo::NativeToken { denom: db }) => {
            bytes_eq(da.as_slice(), db.as_slice())
        }
        (AssetInfo::Token { contract_addr: ca }, AssetInfo::Token { contract_addr: cb }) => {
            bytes_eq(ca.as_slice(), cb.as_slice())
        }
        _ => {
            assert(a.key().0 != b.key().0);
            false
        }
    }
}

/// An owned copy of a byte string with the same contents.
pub fn copy_bytes(a: &[u8]) -> (r: Vec<u8>)
    ensures
        r@ == a@,
{
    let mut out: Vec<u8> = Vec::new();
    let n = a.len();
    let mut i: usize = 0;
    while i < n
        invariant
            n == a@.len(),
            0 <= i <= n,
            out@.len() == i,
            forall|k: int| 0 <= k < i ==> out@[k] == a@[k],
        decreases n - i,
    {
        out.push(a[i]);
        i += 1;
    }
    proof {
        assert(out@ =~= a@);
    }
    out
}

/// An owned copy of an asset identity, with the same key.
pub fn copy_asset(a: &AssetInfo) -> (r: AssetInfo)
    ensures
        r.key() == a.key(),
{
    match a {
        AssetInfo::NativeToken { denom } => AssetInfo::NativeToken { denom: copy_bytes(denom.as_slice()) },
        AssetInfo::Token { contract_addr } => AssetInfo::Token { contract_addr: copy_bytes(contract_addr.as_slice()) },
    }
}

} // verus!
