use vstd::prelude::*;

use crate::errors::SuperfanError;
use crate::events::{PositionOpened, TokenTransfer};
use crate::identity::AccountId;
use crate::liquidity::{release, reserve};
use crate::state::{LiquidityPool, Market, Position};

verus! {

/// When opening a position succeeds: the stake is positive, the market is
/// Pending, the clock lies inside the trading window, and the reservation
/// keeps the pool's reserved capital within its capacity.
pub open spec fn open_position_ok(
    market: Market,
    pool: LiquidityPool,
    amount: u64,
    now: i64,
) -> bool {
    &&& amount > 0
    &&& market.status is Pending
    &&& market.trading_starts_at <= now <= market.trading_ends_at
    &&& pool.locked + amount <= pool.capacity
}

/// The error opening a position fails with: that of the first violated
/// precondition.
pub open spec fn open_position_err(
    market: Market,
    pool: LiquidityPool,
    amount: u64,
    now: i64,
) -> SuperfanError {
    if amount == 0 {
        SuperfanError::InvalidAmount
    } else if !(market.status is Pending) {
        SuperfanError::InvalidStatus
    } else if now < market.trading_starts_at {
        SuperfanError::TradingStillOpen
    } else if now > market.trading_ends_at {
        SuperfanError::TradingAlreadyStarted
    } else if pool.locked + amount > u64::MAX {
        SuperfanError::MathOverflow
    } else {
        SuperfanError::InsufficientLiquidity
    }
}

/// Open a position: reserve the stake against the market's pool, order the
/// stake moved from the user into the pool's vault, and create the position
/// record keyed by the market and the user. Duplicate opens for the same
/// (market, user) pair are rejected where the record is stored. On failure
/// the pool is unchanged and no order is issued.
pub fn open_position(
    market: &Market,
    pool: &mut LiquidityPool,
    user: AccountId,
    amount: u64,
    now: i64,
) -> (r: Result<(Position, PositionOpened, TokenTransfer), SuperfanError>)
    requires
        market.sponsor is SponsorAccount,
        user is Wallet,
    ensures
        r is Ok <==> open_position_ok(*market, *old(pool), amount, now),
        r is Err ==> *final(pool) == *old(pool),
        r is Err ==> r->Err_0 == open_position_err(*market, *old(pool), amount, now),
        r matches Ok((p, ev, t)) ==> {
            &&& *final(pool) == (LiquidityPool {
                locked: (old(pool).locked + amount) as u64,
                ..*old(pool)
            })
            &&& p == (Position { user, market: market.address(), amount, created_at: now })
            &&& p.wf()
            &&& ev == (PositionOpened { market: market.address(), user, amount })
            &&& t == (TokenTransfer { from: user, to: old(pool).vault, amount })
        },
        old(pool).wf() ==> final(pool).wf(),
{
    if amount == 0 {
        return Err(SuperfanError::InvalidAmount);
    }
    if !matches!(market.status, crate::state::MarketStatus::Pending) {
        return Err(SuperfanError::InvalidStatus);
    }
    if now < market.trading_starts_at {
        return Err(SuperfanError::TradingStillOpen);
    }
    if now > market.trading_ends_at {
        return Err(SuperfanError::TradingAlreadyStarted);
    }
    let reserved = reserve(pool, amount);
    if let Err(e) = reserved {
        return Err(e);
    }
    let market_key = market.derived_address();
    let position = Position { user, market: market_key, amount, created_at: now };
    let event = PositionOpened { market: market_key, user, amount };
    let stake_in = TokenTransfer { from: user, to: pool.vault, amount };
    Ok((position, event, stake_in))
}

/// The redemption a position earns against a terminal market. A position is
/// a stake backing the Yes outcome — the record carries no side of its own,
/// and the sponsor's pool is the counterparty. A cancelled market refunds the
/// full stake; a market resolved Yes redeems the winning stake in full; a
/// market resolved No forfeits the losing stake to the pool's vault, where it
/// stays as the sponsor's settlement margin. The settlement is fee-free:
/// nothing is withheld from a winning redemption.
pub open spec fn redemption_amount(market: Market, position: Position) -> u64
    recommends
        market.status is Resolved || market.status is Cancelled,
{
    if market.status is Cancelled {
        position.amount
    } else if market.outcome is Yes {
        position.amount
    } else {
        0
    }
}

/// Close a position against a terminal market. Only the position's owner may
/// close, and only once the market is Cancelled or Resolved; closing against
/// a Pending or Locked market is rejected. The reserved stake is released
/// back to the pool's counter and the outcome-dependent redemption — full
/// stake after a cancellation or a Yes resolution, nothing after a No
/// resolution — is ordered from the vault to the owner. The record's
/// removal, which makes a second close fail, happens where the record is
/// stored.
pub fn close_position(
    market: &Market,
    pool: &mut LiquidityPool,
    position: &Position,
    caller: AccountId,
) -> (r: Result<TokenTransfer, SuperfanError>)
    requires
        market.sponsor is SponsorAccount,
        position.market == market.address(),
    ensures
        r is Ok <==> caller == position.user && (market.status is Resolved || market.status
            is Cancelled),
        r is Err ==> *final(pool) == *old(pool),
        r is Err ==> r->Err_0 == (if caller != position.user {
            SuperfanError::Unauthorized
        } else {
            SuperfanError::InvalidStatus
        }),
        r matches Ok(t) ==> {
            &&& *final(pool) == (LiquidityPool {
                locked: if position.amount > old(pool).locked {
                    0
                } else {
                    (old(pool).locked - position.amount) as u64
                },
                ..*old(pool)
            })
            &&& t == (TokenTransfer {
                from: old(pool).vault,
                to: position.user,
                amount: redemption_amount(*market, *position),
            })
        },
        old(pool).wf() ==> final(pool).wf(),
{
    if caller != position.user {
        return Err(SuperfanError::Unauthorized);
    }
    let terminal = match market.status {
        crate::state::MarketStatus::Resolved => true,
        crate::state::MarketStatus::Cancelled => true,
        _ => false,
    };
    if !terminal {
        return Err(SuperfanError::InvalidStatus);
    }
    release(pool, position.amount);
    let paid = match (market.status, market.outcome) {
        (crate::state::MarketStatus::Cancelled, _) => position.amount,
        (_, crate::state::Outcome::Yes) => position.amount,
        _ => 0,
    };
    let redemption = TokenTransfer { from: pool.vault, to: position.user, amount: paid };
    Ok(redemption)
}

} // verus!
