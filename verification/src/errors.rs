use vstd::prelude::*;

verus! {

/// Every way a call into the contributor core can fail.
///
/// A failing call leaves the whole state unchanged: every entry point
/// promises `r is Err ==> *final(self) == *old(self)`.
#[derive(Clone, Copy, Debug, PartialEq, Eq, Structural)]
pub enum ContributorError {
    /// The message did not come from the configured conductor, or its body
    /// does not match the entry point it was submitted to.
    UnauthorizedOrMalformedVaa,
    /// The message's fingerprint was consumed by an earlier submission.
    VaaAlreadyConsumed,
    /// The stated conductor chain is not one this chain accepts.
    UnsupportedConductor,
    /// A sale with this identifier already exists.
    DuplicateSale,
    /// No sale with this identifier exists.
    UnknownSale,
    /// The sale is not (or no longer) in the `Active` state.
    SaleNotActive,
    /// The sale has not been sealed.
    SaleNotSealed,
    /// The sale has not been aborted.
    SaleNotAborted,
    /// The sale's contribution window has not closed yet.
    SaleNotYetEnded,
    /// The current time lies outside the sale's contribution window.
    OutsideContributionWindow,
    /// The asset slot index is not one of the sale's accepted slots.
    InvalidAssetSlot,
    /// A contribution of zero was offered.
    ZeroAmount,
    /// The contribution would push the slot's total past its raise cap.
    ContributionExceedsCap,
    /// The pending contribution was already reconciled (or never existed).
    ContributionAlreadyReconciled,
    /// The claim flag for this buyer and slot is already set.
    AlreadyClaimed,
    /// A numeric accumulation would overflow.
    ArithmeticOverflow,
}

} // verus!
