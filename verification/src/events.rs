use vstd::prelude::*;

use crate::identity::AccountId;

verus! {

/// An authorized movement of the settlement asset. Operations return transfer
/// orders instead of moving funds themselves: the pool's derived identity is
/// the transfer-authorizing credential, and the external payment rail carries
/// the order out. Either the whole operation commits, orders included, or
/// nothing does.
#[derive(Clone, Copy, Debug, PartialEq, Eq, Structural)]
pub struct TokenTransfer {
    /// Account the funds leave.
    pub from: AccountId,
    /// Account the funds reach.
    pub to: AccountId,
    /// Amount moved.
    pub amount: u64,
}

/// Emitted when a market is resolved.
#[derive(Clone, Copy, Debug, PartialEq, Eq, Structural)]
pub struct MarketResolved {
    /// Address of the resolved market.
    pub market: AccountId,
    /// Address of the sponsor record that created the market.
    pub sponsor: AccountId,
    /// Whether the market resolved to Yes.
    pub outcome_yes: bool,
    /// Time of resolution.
    pub resolved_at: i64,
}

/// Emitted when a position is opened.
#[derive(Clone, Copy, Debug, PartialEq, Eq, Structural)]
pub struct PositionOpened {
    /// Address of the market the stake is against.
    pub market: AccountId,
    /// Wallet of the staking user.
    pub user: AccountId,
    /// Staked amount.
    pub amount: u64,
}

/// Emitted when a scout's reputation changes.
#[derive(Clone, Copy, Debug, PartialEq, Eq, Structural)]
pub struct ReputationUpdated {
    /// Wallet of the tracked user.
    pub user: AccountId,
    /// The score after the update.
    pub new_score: i64,
}

/// Emitted when a signal commitment is recorded.
#[derive(Clone, Copy, Debug)]
pub struct SignalCommitted {
    /// Address of the market the commitment is about.
    pub market: AccountId,
    /// The committed 32-byte digest.
    pub commitment_root: [u8; 32],
    /// Time the commitment was recorded.
    pub recorded_at: i64,
}

} // verus!
