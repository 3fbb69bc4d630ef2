use vstd::prelude::*;

use crate::events::TokenTransfer;
use crate::identity::AccountId;
use crate::state::{LiquidityPool, Market, Position};

verus! {

/// The positions that survive a settlement pass over the market at `key`:
/// those of every other market, in their original order.
pub open spec fn kept_positions(s: Seq<Position>, key: AccountId) -> Seq<Position>
    decreases s.len(),
{
    if s.len() == 0 {
        Seq::empty()
    } else {
        let rest = kept_positions(s.drop_last(), key);
        if s.last().market != key {
            rest.push(s.last())
        } else {
            rest
        }
    }
}

/// The payout orders of a settlement pass over a resolved market: one order
/// per position of that market whose outcome-dependent redemption is
/// positive, paying that redemption from the pool's vault to the position's
/// owner, in position order. A market resolved against the staked conviction
/// forfeits every stake, so its pass issues no orders and the stakes stay in
/// the vault.
pub open spec fn payouts_of(s: Seq<Position>, market: Market, vault: AccountId) -> Seq<
    TokenTransfer,
>
    recommends
        market.status is Resolved,
    decreases s.len(),
{
    if s.len() == 0 {
        Seq::empty()
    } else {
        let rest = payouts_of(s.drop_last(), market, vault);
        let paid = crate::positions::redemption_amount(market, s.last());
        if s.last().market == market.address() && paid > 0 {
            rest.push(TokenTransfer { from: vault, to: s.last().user, amount: paid })
        } else {
            rest
        }
    }
}

/// The total stake the positions of the market at `key` hold.
pub open spec fn staked_total(s: Seq<Position>, key: AccountId) -> int
    decreases s.len(),
{
    if s.len() == 0 {
        0
    } else {
        staked_total(s.drop_last(), key) + if s.last().market == key {
            s.last().amount as int
        } else {
            0
        }
    }
}

/// A total stake is never negative.
proof fn lemma_staked_total_nonneg(s: Seq<Position>, key: AccountId)
    ensures
        staked_total(s, key) >= 0,
    decreases s.len(),
{
    if s.len() > 0 {
        lemma_staked_total_nonneg(s.drop_last(), key);
    }
}

/// Subtraction floored at zero, the way reserved capital is released.
pub open spec fn sub_floored(l: u64, a: int) -> u64
    recommends
        a >= 0,
{
    if a >= l {
        0
    } else {
        (l - a) as u64
    }
}

/// Settle every open position of a resolved market in one pass: pay each
/// winning position its outcome-dependent redemption from the pool's vault,
/// leave forfeited stakes in the vault, release the whole settled stake from
/// the pool's reserved capital (floored at zero), and drop the settled
/// positions, keeping every other market's positions untouched and in order.
pub fn settle_positions(
    market: &Market,
    pool: &mut LiquidityPool,
    positions: &mut Vec<Position>,
) -> (transfers: Vec<TokenTransfer>)
    requires
        market.sponsor is SponsorAccount,
        market.status is Resolved,
    ensures
        final(positions)@ == kept_positions(old(positions)@, market.address()),
        transfers@ == payouts_of(old(positions)@, *market, old(pool).vault),
        *final(pool) == (LiquidityPool {
            locked: sub_floored(
                old(pool).locked,
                staked_total(old(positions)@, market.address()),
            ),
            ..*old(pool)
        }),
        old(pool).wf() ==> final(pool).wf(),
{
    let addr = market.derived_address();
    let winning = matches!(market.outcome, crate::state::Outcome::Yes);
    let ghost orig = positions@;
    let ghost vault0 = pool.vault;
    let ghost l0 = pool.locked;
    let mut kept: Vec<Position> = Vec::new();
    let mut transfers: Vec<TokenTransfer> = Vec::new();
    let n = positions.len();
    let mut i: usize = 0;
    while i < n
        invariant
            n == orig.len(),
            i <= n,
            positions@ == orig,
            addr == market.address(),
            market.status is Resolved,
            winning == market.outcome is Yes,
            kept@ == kept_positions(orig.subrange(0, i as int), addr),
            transfers@ == payouts_of(orig.subrange(0, i as int), *market, vault0),
            pool.locked == sub_floored(l0, staked_total(orig.subrange(0, i as int), addr)),
            pool.capacity == old(pool).capacity,
            pool.sponsor == old(pool).sponsor,
            pool.vault == vault0,
            vault0 == old(pool).vault,
            l0 == old(pool).locked,
            pool.first_n_limit == old(pool).first_n_limit,
        decreases n - i,
    {
        let p = positions[i];
        proof {
            let pre = orig.subrange(0, i as int);
            let post = orig.subrange(0, i as int + 1);
            assert(post.drop_last() =~= pre);
            assert(post.last() == orig[i as int]);
            lemma_staked_total_nonneg(pre, addr);
        }
        if p.market == addr {
            if winning && p.amount > 0 {
                transfers.push(TokenTransfer { from: pool.vault, to: p.user, amount: p.amount });
            }
            pool.locked = pool.locked.saturating_sub(p.amount);
        } else {
            kept.push(p);
        }
        i += 1;
    }
    proof {
        assert(orig.subrange(0, orig.len() as int) =~= orig);
        lemma_staked_total_nonneg(orig, addr);
    }
    *positions = kept;
    transfers
}

} // verus!
