use vstd::prelude::*;

use crate::identity::AccountId;

verus! {

/// Lifecycle state of a market. The only transitions are Pending to Locked,
/// Pending to Cancelled, and Pending or Locked to Resolved; Resolved and
/// Cancelled are terminal.
#[derive(Clone, Copy, Debug, PartialEq, Eq, Structural)]
pub enum MarketStatus {
    Pending,
    Locked,
    Resolved,
    Cancelled,
}

/// Resolution outcome of a market. Unresolved until the market reaches the
/// Resolved state, then Yes or No forever.
#[derive(Clone, Copy, Debug, PartialEq, Eq, Structural)]
pub enum Outcome {
    Unresolved,
    Yes,
    No,
}

/// The edges of the market lifecycle state machine. Every operation that
/// changes a market's status moves it along one of these edges.
pub open spec fn is_status_edge(from: MarketStatus, to: MarketStatus) -> bool {
    ||| from == MarketStatus::Pending && to == MarketStatus::Locked
    ||| from == MarketStatus::Pending && to == MarketStatus::Cancelled
    ||| from == MarketStatus::Pending && to == MarketStatus::Resolved
    ||| from == MarketStatus::Locked && to == MarketStatus::Resolved
}

impl MarketStatus {
    /// Storage encoding of the status: statuses are kept as a tagged variant
    /// internally and become an integer only at the storage boundary.
    pub open spec fn spec_as_u8(self) -> u8 {
        match self {
            MarketStatus::Pending => 0,
            MarketStatus::Locked => 1,
            MarketStatus::Resolved => 2,
            MarketStatus::Cancelled => 3,
        }
    }

    /// Encode the status for a fixed-width stored record.
    pub fn as_u8(self) -> (r: u8)
        ensures
            r == self.spec_as_u8(),
    {
        match self {
            MarketStatus::Pending => 0,
            MarketStatus::Locked => 1,
            MarketStatus::Resolved => 2,
            MarketStatus::Cancelled => 3,
        }
    }

    /// What decoding a stored status byte yields.
    pub open spec fn spec_from_u8(v: u8) -> Option<MarketStatus> {
        if v == 0 {
            Some(MarketStatus::Pending)
        } else if v == 1 {
            Some(MarketStatus::Locked)
        } else if v == 2 {
            Some(MarketStatus::Resolved)
        } else if v == 3 {
            Some(MarketStatus::Cancelled)
        } else {
            None
        }
    }

    /// Decode a stored status byte; bytes outside the encoding are rejected.
    pub fn from_u8(v: u8) -> (r: Option<MarketStatus>)
        ensures
            r == MarketStatus::spec_from_u8(v),
    {
        match v {
            0 => Some(MarketStatus::Pending),
            1 => Some(MarketStatus::Locked),
            2 => Some(MarketStatus::Resolved),
            3 => Some(MarketStatus::Cancelled),
            _ => None,
        }
    }
}

impl Outcome {
    /// Storage encoding of the outcome.
    pub open spec fn spec_as_u8(self) -> u8 {
        match self {
            Outcome::Unresolved => 0,
            Outcome::Yes => 1,
            Outcome::No => 2,
        }
    }

    /// Encode the outcome for a fixed-width stored record.
    pub fn as_u8(self) -> (r: u8)
        ensures
            r == self.spec_as_u8(),
    {
        match self {
            Outcome::Unresolved => 0,
            Outcome::Yes => 1,
            Outcome::No => 2,
        }
    }

    /// What decoding a stored outcome byte yields.
    pub open spec fn spec_from_u8(v: u8) -> Option<Outcome> {
        if v == 0 {
            Some(Outcome::Unresolved)
        } else if v == 1 {
            Some(Outcome::Yes)
        } else if v == 2 {
            Some(Outcome::No)
        } else {
            None
        }
    }

    /// Decode a stored outcome byte; bytes outside the encoding are rejected.
    pub fn from_u8(v: u8) -> (r: Option<Outcome>)
        ensures
            r == Outcome::spec_from_u8(v),
    {
        match v {
            0 => Some(Outcome::Unresolved),
            1 => Some(Outcome::Yes),
            2 => Some(Outcome::No),
            _ => None,
        }
    }
}

/// The status encoding round-trips: decoding an encoded status gives the
/// status back, and encoding a decoded byte gives the byte back.
pub proof fn lemma_status_encoding_round_trip(s: MarketStatus, v: u8)
    ensures
        MarketStatus::spec_from_u8(s.spec_as_u8()) == Some(s),
        v <= 3 ==> (MarketStatus::spec_from_u8(v) matches Some(d) && d.spec_as_u8() == v),
        v > 3 ==> MarketStatus::spec_from_u8(v) is None,
{
}

/// The outcome encoding round-trips in both directions.
pub proof fn lemma_outcome_encoding_round_trip(o: Outcome, v: u8)
    ensures
        Outcome::spec_from_u8(o.spec_as_u8()) == Some(o),
        v <= 2 ==> (Outcome::spec_from_u8(v) matches Some(d) && d.spec_as_u8() == v),
        v > 2 ==> Outcome::spec_from_u8(v) is None,
{
}

/// Process-wide configuration, created once by the deployment bootstrap.
#[derive(Clone, Copy, Debug)]
pub struct SuperfanConfig {
    /// The administrator allowed to register sponsors, update reputations and
    /// resolve markets.
    pub admin: AccountId,
    /// The mint of the settlement asset.
    pub usdc_mint: AccountId,
    /// Advisory ceiling on the number of registered sponsors.
    pub max_sponsors: u32,
}

/// A registered sponsor: the entity that funds a liquidity pool and creates
/// markets.
#[derive(Clone, Copy, Debug)]
pub struct Sponsor {
    /// The wallet whose signature acts for this sponsor.
    pub authority: AccountId,
    /// Digest committing to the sponsor's off-chain name.
    pub name_hash: [u8; 32],
}

impl Sponsor {
    /// A sponsor is acted for by a wallet signature.
    pub open spec fn wf(self) -> bool {
        self.authority is Wallet
    }

    /// Address of this sponsor record, derived from its authority wallet.
    pub open spec fn address(self) -> AccountId
        recommends
            self.wf(),
    {
        match self.authority {
            AccountId::Wallet(a) => AccountId::SponsorAccount(a),
            _ => AccountId::SponsorAccount(0),
        }
    }

    /// Recompute this sponsor record's derived address.
    pub fn derived_address(&self) -> (r: AccountId)
        requires
            self.wf(),
        ensures
            r == self.address(),
    {
        match self.authority {
            AccountId::Wallet(a) => crate::identity::sponsor_address(a),
            _ => AccountId::SponsorAccount(0),
        }
    }
}

/// Per-sponsor market-id allocator. `next_market_id` starts at 1 and grows by
/// exactly 1 per successful market creation.
#[derive(Clone, Copy, Debug)]
pub struct SponsorMarketCounter {
    /// Address of the sponsor record this counter belongs to.
    pub sponsor: AccountId,
    /// The id the sponsor's next market must carry.
    pub next_market_id: u64,
}

impl SponsorMarketCounter {
    /// A counter always points at a sponsor record and never allocates an id
    /// below 1.
    pub open spec fn wf(self) -> bool {
        &&& self.sponsor is SponsorAccount
        &&& self.next_market_id >= 1
    }
}

/// One tradable outcome event. Markets are never destroyed: terminal states
/// are retained for audit.
#[derive(Clone, Copy, Debug)]
pub struct Market {
    /// Address of the sponsor record that created the market.
    pub sponsor: AccountId,
    /// Id allocated by the sponsor's counter.
    pub market_id: u64,
    /// Wallet of the artist the outcome is about.
    pub artist_wallet: AccountId,
    /// Digest committing to the artist's off-chain identity.
    pub artist_id_hash: [u8; 32],
    /// Trading is allowed from this time (inclusive).
    pub trading_starts_at: i64,
    /// Trading is allowed until this time (inclusive); strictly after start.
    pub trading_ends_at: i64,
    /// Resolution must happen by this time; strictly after trading end.
    pub resolution_deadline: i64,
    /// Conviction threshold in basis points, recorded for the oracle pass.
    pub conviction_threshold_bps: u16,
    /// Recorded ceiling on this market's share of the pool.
    pub max_pool_exposure: u64,
    /// Address of the liquidity pool backing the market's positions.
    pub liquidity_pool: AccountId,
    /// Identity of the off-chain signal oracle.
    pub signal_oracle: AccountId,
    /// Lifecycle state; moves only along `is_status_edge`.
    pub status: MarketStatus,
    /// Resolution outcome; Unresolved exactly while not Resolved.
    pub outcome: Outcome,
    /// Time of resolution; 0 while not Resolved.
    pub resolved_at: i64,
    /// Whether the payout distribution pass has run; it runs at most once.
    pub payouts_distributed: bool,
}

impl Market {
    /// Time-window sanity of a market's terms, checked at creation and
    /// invariant afterwards: trading ends strictly after it starts, and the
    /// resolution deadline lies strictly after trading ends.
    pub open spec fn window_wf(self) -> bool {
        &&& self.trading_ends_at > self.trading_starts_at
        &&& self.resolution_deadline > self.trading_ends_at
    }

    /// Consistency of the resolution fields with the lifecycle state: a market
    /// carries a Yes or No outcome exactly when it is Resolved, and a payout
    /// pass can only have run on a Resolved market.
    pub open spec fn resolution_wf(self) -> bool {
        &&& self.outcome is Unresolved <==> !(self.status is Resolved)
        &&& self.payouts_distributed ==> self.status is Resolved
    }

    /// Well-formedness of a market record.
    pub open spec fn wf(self) -> bool {
        &&& self.window_wf()
        &&& self.resolution_wf()
        &&& self.sponsor is SponsorAccount
    }

    /// Address of this market, derived from the creating sponsor's authority
    /// and the market id.
    pub open spec fn address(self) -> AccountId
        recommends
            self.sponsor is SponsorAccount,
    {
        match self.sponsor {
            AccountId::SponsorAccount(a) => AccountId::MarketAccount(a, self.market_id),
            _ => AccountId::MarketAccount(0, 0),
        }
    }

    /// Recompute this market's derived address.
    pub fn derived_address(&self) -> (r: AccountId)
        requires
            self.sponsor is SponsorAccount,
        ensures
            r == self.address(),
    {
        match self.sponsor {
            AccountId::SponsorAccount(a) => crate::identity::market_address(a, self.market_id),
            _ => AccountId::MarketAccount(0, 0),
        }
    }
}

/// A sponsor's capital backing the open positions of its markets, plus
/// custody of the exclusively owned vault.
#[derive(Clone, Copy, Debug)]
pub struct LiquidityPool {
    /// Address of the sponsor record that funded the pool.
    pub sponsor: AccountId,
    /// Fixed capital ceiling moved into the vault at funding time.
    pub capacity: u64,
    /// Capital currently reserved by open positions; never exceeds capacity.
    pub locked: u64,
    /// Optional early-participant cap, recorded at funding time.
    pub first_n_limit: u16,
    /// Address of the vault holding the escrowed funds.
    pub vault: AccountId,
}

impl LiquidityPool {
    /// The central capacity invariant: reserved capital never exceeds the
    /// funded capacity (and, being unsigned, never goes below zero). The pool
    /// also owns exactly the vault derived from its own sponsor's authority,
    /// so no other record can authorize movements out of that vault.
    pub open spec fn wf(self) -> bool {
        &&& self.locked <= self.capacity
        &&& self.sponsor matches AccountId::SponsorAccount(a) && self.vault
            == AccountId::VaultAccount(a)
    }

    /// Address of this pool record, derived from its sponsor's authority.
    pub open spec fn address(self) -> AccountId
        recommends
            self.sponsor is SponsorAccount,
    {
        match self.sponsor {
            AccountId::SponsorAccount(a) => AccountId::PoolAccount(a),
            _ => AccountId::PoolAccount(0),
        }
    }
}

/// One user's stake in one market, created against pool capacity and
/// destroyed on redemption.
#[derive(Clone, Copy, Debug)]
pub struct Position {
    /// Wallet of the staking user.
    pub user: AccountId,
    /// Address of the market the stake is against.
    pub market: AccountId,
    /// Staked amount; always positive.
    pub amount: u64,
    /// Time the position was opened.
    pub created_at: i64,
}

impl Position {
    /// Well-formedness of a position record: the stake is positive, the owner
    /// is a wallet, and the referenced market is a market address.
    pub open spec fn wf(self) -> bool {
        &&& self.amount > 0
        &&& self.user is Wallet
        &&& self.market is MarketAccount
    }
}

/// Reputation counter for an off-chain-tracked identity. The score is a
/// signed accumulator and may go negative.
#[derive(Clone, Copy, Debug)]
pub struct ScoutRegistry {
    /// Wallet of the tracked user.
    pub user: AccountId,
    /// Accumulated reputation score.
    pub score: i64,
}

/// Write-once commitment to off-chain oracle signal data for one market.
#[derive(Clone, Copy, Debug)]
pub struct SignalCommitment {
    /// Address of the market the commitment is about.
    pub market: AccountId,
    /// 32-byte digest of the committed signal data.
    pub commitment_root: [u8; 32],
    /// Time the commitment was recorded.
    pub recorded_at: i64,
}

} // verus!
