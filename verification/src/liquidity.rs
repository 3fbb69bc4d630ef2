use vstd::prelude::*;

use crate::config::require_sponsor_authority;
use crate::errors::SuperfanError;
use crate::events::TokenTransfer;
use crate::identity::AccountId;
use crate::state::{LiquidityPool, Sponsor};

verus! {

/// Reserve `amount` of pool capacity for a position. The checked sum of the
/// reserved capital must stay within the funded capacity; on any failure the
/// pool is unchanged. Since the capacity fits in the word, a sum that
/// overflows is in particular a sum beyond the capacity, so reservation
/// succeeds exactly when `locked + amount <= capacity` over the integers.
pub fn reserve(pool: &mut LiquidityPool, amount: u64) -> (r: Result<(), SuperfanError>)
    ensures
        r is Ok <==> old(pool).locked + amount <= old(pool).capacity,
        r is Ok ==> *final(pool) == (LiquidityPool {
            locked: (old(pool).locked + amount) as u64,
            ..*old(pool)
        }),
        r is Err ==> *final(pool) == *old(pool),
        r is Err ==> r->Err_0 == (if old(pool).locked + amount > u64::MAX {
            SuperfanError::MathOverflow
        } else {
            SuperfanError::InsufficientLiquidity
        }),
        old(pool).wf() ==> final(pool).wf(),
{
    let new_locked = match pool.locked.checked_add(amount) {
        Some(n) => n,
        None => {
            return Err(SuperfanError::MathOverflow);
        },
    };
    if new_locked > pool.capacity {
        return Err(SuperfanError::InsufficientLiquidity);
    }
    pool.locked = new_locked;
    Ok(())
}

/// Release `amount` of reserved capacity when a position is redeemed. The
/// reserved capital is decremented and floored at zero, never driven below.
pub fn release(pool: &mut LiquidityPool, amount: u64)
    ensures
        *final(pool) == (LiquidityPool {
            locked: if amount > old(pool).locked {
                0
            } else {
                (old(pool).locked - amount) as u64
            },
            ..*old(pool)
        }),
        final(pool).locked <= old(pool).locked,
        old(pool).wf() ==> final(pool).wf(),
{
    pool.locked = pool.locked.saturating_sub(amount);
}

/// Fund a sponsor's liquidity pool. Only the sponsor's authority may fund,
/// and the capacity must be positive. On success the pool starts with nothing
/// locked, owns the vault derived from the sponsor's authority, and the
/// returned order moves the full capacity from the caller into that vault.
/// The one-pool-per-sponsor rule is enforced where the record is stored.
pub fn fund_pool(sponsor: &Sponsor, caller: AccountId, capacity: u64, first_n_limit: u16) -> (r:
    Result<(LiquidityPool, TokenTransfer), SuperfanError>)
    requires
        sponsor.wf(),
    ensures
        r is Ok <==> caller == sponsor.authority && capacity > 0,
        r is Err ==> r->Err_0 == (if caller != sponsor.authority {
            SuperfanError::Unauthorized
        } else {
            SuperfanError::InvalidAmount
        }),
        r matches Ok((p, t)) ==> {
            &&& p.sponsor == sponsor.address()
            &&& p.capacity == capacity
            &&& p.locked == 0
            &&& p.first_n_limit == first_n_limit
            &&& (sponsor.authority matches AccountId::Wallet(a) ==> p.vault
                == AccountId::VaultAccount(a))
            &&& p.wf()
            &&& t == (TokenTransfer { from: caller, to: p.vault, amount: capacity })
        },
{
    let authorized = require_sponsor_authority(sponsor, caller);
    if let Err(e) = authorized {
        return Err(e);
    }
    if capacity == 0 {
        return Err(SuperfanError::InvalidAmount);
    }
    let vault = match sponsor.authority {
        AccountId::Wallet(a) => crate::identity::vault_address(a),
        _ => AccountId::VaultAccount(0),
    };
    let pool = LiquidityPool {
        sponsor: sponsor.derived_address(),
        capacity,
        locked: 0,
        first_n_limit,
        vault,
    };
    let funding = TokenTransfer { from: caller, to: vault, amount: capacity };
    Ok((pool, funding))
}

/// Withdraw the pool's uncommitted capacity back to the sponsor. Only the
/// sponsor's authority may withdraw, and only while nothing is locked; the
/// returned order moves the full capacity from the vault back to the caller
/// and the pool's capacity drops to zero.
pub fn withdraw_pool(sponsor: &Sponsor, pool: &mut LiquidityPool, caller: AccountId) -> (r: Result<
    TokenTransfer,
    SuperfanError,
>)
    ensures
        r is Ok <==> caller == sponsor.authority && old(pool).locked == 0,
        r is Err ==> *final(pool) == *old(pool),
        r is Err ==> r->Err_0 == (if caller != sponsor.authority {
            SuperfanError::Unauthorized
        } else {
            SuperfanError::InvalidStatus
        }),
        r matches Ok(t) ==> {
            &&& *final(pool) == (LiquidityPool { capacity: 0, ..*old(pool) })
            &&& t == (TokenTransfer {
                from: old(pool).vault,
                to: caller,
                amount: old(pool).capacity,
            })
        },
        old(pool).wf() ==> final(pool).wf(),
{
    let authorized = require_sponsor_authority(sponsor, caller);
    if let Err(e) = authorized {
        return Err(e);
    }
    if pool.locked != 0 {
        return Err(SuperfanError::InvalidStatus);
    }
    let refund = TokenTransfer { from: pool.vault, to: caller, amount: pool.capacity };
    pool.capacity = 0;
    Ok(refund)
}

} // verus!
