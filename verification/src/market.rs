use vstd::prelude::*;

use crate::config::{require_admin, require_sponsor_authority};
use crate::errors::SuperfanError;
use crate::events::MarketResolved;
use crate::identity::AccountId;
use crate::state::{is_status_edge, Market, MarketStatus, Outcome, Sponsor, SponsorMarketCounter, SuperfanConfig};

verus! {

/// When market creation succeeds: the caller acts for the sponsor, the
/// trading window and the resolution deadline are ordered, the supplied id is
/// exactly the counter's next id, and incrementing the counter does not
/// overflow.
pub open spec fn create_market_ok(
    sponsor: Sponsor,
    counter: SponsorMarketCounter,
    caller: AccountId,
    market_id: u64,
    trading_starts_at: i64,
    trading_ends_at: i64,
    resolution_deadline: i64,
) -> bool {
    &&& caller == sponsor.authority
    &&& trading_ends_at > trading_starts_at
    &&& resolution_deadline > trading_ends_at
    &&& market_id == counter.next_market_id
    &&& counter.next_market_id + 1 <= u64::MAX
}

/// The error market creation fails with: that of the first violated
/// precondition.
pub open spec fn create_market_err(
    sponsor: Sponsor,
    counter: SponsorMarketCounter,
    caller: AccountId,
    market_id: u64,
    trading_starts_at: i64,
    trading_ends_at: i64,
    resolution_deadline: i64,
) -> SuperfanError {
    if caller != sponsor.authority {
        SuperfanError::Unauthorized
    } else if trading_ends_at <= trading_starts_at {
        SuperfanError::InvalidTradingWindow
    } else if resolution_deadline <= trading_ends_at {
        SuperfanError::InvalidResolutionDeadline
    } else if market_id != counter.next_market_id {
        SuperfanError::InvalidMarketId
    } else {
        SuperfanError::MathOverflow
    }
}

/// Create a market in the Pending state and advance the sponsor's market-id
/// counter by exactly 1. The supplied id must equal the counter's current
/// next id; on any failure, overflow included, the counter is unchanged.
pub fn create_market(
    sponsor: &Sponsor,
    counter: &mut SponsorMarketCounter,
    caller: AccountId,
    market_id: u64,
    artist_wallet: AccountId,
    artist_id_hash: [u8; 32],
    trading_starts_at: i64,
    trading_ends_at: i64,
    resolution_deadline: i64,
    conviction_threshold_bps: u16,
    max_pool_exposure: u64,
    liquidity_pool: AccountId,
    signal_oracle: AccountId,
) -> (r: Result<Market, SuperfanError>)
    requires
        sponsor.wf(),
    ensures
        r is Ok <==> create_market_ok(
            *sponsor,
            *old(counter),
            caller,
            market_id,
            trading_starts_at,
            trading_ends_at,
            resolution_deadline,
        ),
        r is Err ==> *final(counter) == *old(counter),
        r is Err ==> r->Err_0 == create_market_err(
            *sponsor,
            *old(counter),
            caller,
            market_id,
            trading_starts_at,
            trading_ends_at,
            resolution_deadline,
        ),
        r is Ok ==> *final(counter) == (SponsorMarketCounter {
            next_market_id: (old(counter).next_market_id + 1) as u64,
            ..*old(counter)
        }),
        r matches Ok(m) ==> m == (Market {
            sponsor: sponsor.address(),
            market_id,
            artist_wallet,
            artist_id_hash,
            trading_starts_at,
            trading_ends_at,
            resolution_deadline,
            conviction_threshold_bps,
            max_pool_exposure,
            liquidity_pool,
            signal_oracle,
            status: MarketStatus::Pending,
            outcome: Outcome::Unresolved,
            resolved_at: 0,
            payouts_distributed: false,
        }),
        r matches Ok(m) ==> m.wf(),
        old(counter).wf() ==> final(counter).wf(),
{
    let authorized = require_sponsor_authority(sponsor, caller);
    if let Err(e) = authorized {
        return Err(e);
    }
    if trading_ends_at <= trading_starts_at {
        return Err(SuperfanError::InvalidTradingWindow);
    }
    if resolution_deadline <= trading_ends_at {
        return Err(SuperfanError::InvalidResolutionDeadline);
    }
    if market_id != counter.next_market_id {
        return Err(SuperfanError::InvalidMarketId);
    }
    let next = match counter.next_market_id.checked_add(1) {
        Some(n) => n,
        None => {
            return Err(SuperfanError::MathOverflow);
        },
    };
    counter.next_market_id = next;
    Ok(
        Market {
            sponsor: sponsor.derived_address(),
            market_id,
            artist_wallet,
            artist_id_hash,
            trading_starts_at,
            trading_ends_at,
            resolution_deadline,
            conviction_threshold_bps,
            max_pool_exposure,
            liquidity_pool,
            signal_oracle,
            status: MarketStatus::Pending,
            outcome: Outcome::Unresolved,
            resolved_at: 0,
            payouts_distributed: false,
        },
    )
}

/// Lock a market once its trading window has ended. Only the creating
/// sponsor's authority may lock, only a Pending market can be locked, and
/// only strictly after trading ends.
pub fn lock_market(sponsor: &Sponsor, market: &mut Market, caller: AccountId, now: i64) -> (r:
    Result<(), SuperfanError>)
    ensures
        r is Ok <==> caller == sponsor.authority && old(market).status is Pending && now > old(
            market,
        ).trading_ends_at,
        r is Ok ==> *final(market) == (Market { status: MarketStatus::Locked, ..*old(market) }),
        r is Err ==> *final(market) == *old(market),
        r is Err ==> r->Err_0 == (if caller != sponsor.authority {
            SuperfanError::Unauthorized
        } else if !(old(market).status is Pending) {
            SuperfanError::InvalidStatus
        } else {
            SuperfanError::TradingStillOpen
        }),
        final(market).status == old(market).status || is_status_edge(old(market).status, final(market).status),
        caller == sponsor.authority && !(old(market).status is Pending) ==> r == Err::<
            (),
            SuperfanError,
        >(SuperfanError::InvalidStatus) && *final(market) == *old(market),
        old(market).wf() ==> final(market).wf(),
{
    let authorized = require_sponsor_authority(sponsor, caller);
    if let Err(e) = authorized {
        return Err(e);
    }
    if !matches!(market.status, MarketStatus::Pending) {
        return Err(SuperfanError::InvalidStatus);
    }
    if now <= market.trading_ends_at {
        return Err(SuperfanError::TradingStillOpen);
    }
    market.status = MarketStatus::Locked;
    Ok(())
}

/// Cancel a market before its trading window opens. Only the creating
/// sponsor's authority may cancel, only a Pending market can be cancelled,
/// and only strictly before trading starts; afterwards every open position on
/// the market is eligible for a full stake refund.
pub fn cancel_market(sponsor: &Sponsor, market: &mut Market, caller: AccountId, now: i64) -> (r:
    Result<(), SuperfanError>)
    ensures
        r is Ok <==> caller == sponsor.authority && old(market).status is Pending && now < old(
            market,
        ).trading_starts_at,
        r is Ok ==> *final(market) == (Market { status: MarketStatus::Cancelled, ..*old(market) }),
        r is Err ==> *final(market) == *old(market),
        r is Err ==> r->Err_0 == (if caller != sponsor.authority {
            SuperfanError::Unauthorized
        } else if !(old(market).status is Pending) {
            SuperfanError::InvalidStatus
        } else {
            SuperfanError::TradingAlreadyStarted
        }),
        final(market).status == old(market).status || is_status_edge(old(market).status, final(market).status),
        caller == sponsor.authority && !(old(market).status is Pending) ==> r == Err::<
            (),
            SuperfanError,
        >(SuperfanError::InvalidStatus) && *final(market) == *old(market),
        old(market).wf() ==> final(market).wf(),
{
    let authorized = require_sponsor_authority(sponsor, caller);
    if let Err(e) = authorized {
        return Err(e);
    }
    if !matches!(market.status, MarketStatus::Pending) {
        return Err(SuperfanError::InvalidStatus);
    }
    if now >= market.trading_starts_at {
        return Err(SuperfanError::TradingAlreadyStarted);
    }
    market.status = MarketStatus::Cancelled;
    Ok(())
}

/// When market resolution succeeds: the caller is the authorized resolver,
/// the market is neither Cancelled nor already Resolved, and the clock lies
/// inside the resolution window.
pub open spec fn resolve_market_ok(
    config: SuperfanConfig,
    market: Market,
    caller: AccountId,
    now: i64,
) -> bool {
    &&& caller == config.admin
    &&& !(market.status is Cancelled)
    &&& !(market.status is Resolved)
    &&& now >= market.trading_ends_at
    &&& now <= market.resolution_deadline
}

/// Resolve a market to a binary outcome. Only the administrator may resolve,
/// a Pending or Locked market qualifies, and the clock must lie between the
/// end of trading and the resolution deadline (both inclusive). On success
/// the outcome and resolution time are recorded and a resolution event is
/// emitted.
pub fn resolve_market(
    config: &SuperfanConfig,
    market: &mut Market,
    caller: AccountId,
    outcome_yes: bool,
    now: i64,
) -> (r: Result<MarketResolved, SuperfanError>)
    requires
        old(market).sponsor is SponsorAccount,
    ensures
        r is Ok <==> resolve_market_ok(*config, *old(market), caller, now),
        r is Ok ==> *final(market) == (Market {
            status: MarketStatus::Resolved,
            outcome: if outcome_yes {
                Outcome::Yes
            } else {
                Outcome::No
            },
            resolved_at: now,
            ..*old(market)
        }),
        r is Err ==> *final(market) == *old(market),
        r is Err ==> r->Err_0 == (if caller != config.admin {
            SuperfanError::Unauthorized
        } else if old(market).status is Cancelled || old(market).status is Resolved {
            SuperfanError::InvalidStatus
        } else if now < old(market).trading_ends_at {
            SuperfanError::TradingStillOpen
        } else {
            SuperfanError::ResolutionDeadlinePassed
        }),
        r matches Ok(ev) ==> ev == (MarketResolved {
            market: old(market).address(),
            sponsor: old(market).sponsor,
            outcome_yes,
            resolved_at: now,
        }),
        final(market).status == old(market).status || is_status_edge(old(market).status, final(market).status),
        caller == config.admin && (old(market).status is Cancelled || old(market).status
            is Resolved) ==> (r matches Err(e) && e == SuperfanError::InvalidStatus
            && *final(market) == *old(market)),
        old(market).wf() ==> final(market).wf(),
{
    let authorized = require_admin(config, caller);
    if let Err(e) = authorized {
        return Err(e);
    }
    if matches!(market.status, MarketStatus::Cancelled) {
        return Err(SuperfanError::InvalidStatus);
    }
    if matches!(market.status, MarketStatus::Resolved) {
        return Err(SuperfanError::InvalidStatus);
    }
    if now < market.trading_ends_at {
        return Err(SuperfanError::TradingStillOpen);
    }
    if now > market.resolution_deadline {
        return Err(SuperfanError::ResolutionDeadlinePassed);
    }
    market.status = MarketStatus::Resolved;
    market.resolved_at = now;
    market.outcome = if outcome_yes {
        Outcome::Yes
    } else {
        Outcome::No
    };
    let event = MarketResolved {
        market: market.derived_address(),
        sponsor: market.sponsor,
        outcome_yes,
        resolved_at: now,
    };
    Ok(event)
}

} // verus!
