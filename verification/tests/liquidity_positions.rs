use superfan_contracts::errors::SuperfanError;
use superfan_contracts::identity::AccountId;
use superfan_contracts::ledger::Ledger;
use superfan_contracts::state::LiquidityPool;

const T0: i64 = 1_000;
const ADMIN: AccountId = AccountId::Wallet(1);
// The sponsor's authority is the admin's own wallet: only the admin may
// register a sponsor, and registration makes the caller the authority.
const SPONSOR: AccountId = AccountId::Wallet(1);
const OUTSIDER: AccountId = AccountId::Wallet(5);
const MINT: AccountId = AccountId::Wallet(99);
const ARTIST: AccountId = AccountId::Wallet(50);
const ORACLE: AccountId = AccountId::Wallet(60);
const USER_A: AccountId = AccountId::Wallet(10);
const USER_B: AccountId = AccountId::Wallet(11);

fn market_with_pool(capacity: u64) -> (Ledger, AccountId) {
    let mut l = Ledger::new();
    l.initialize_config(100, MINT, ADMIN).unwrap();
    l.register_sponsor(SPONSOR, [0u8; 32]).unwrap();
    let (pool_addr, funding) = l.fund_pool(SPONSOR, capacity, 0).unwrap();
    assert_eq!(funding.amount, capacity);
    assert_eq!(funding.from, SPONSOR);
    assert_eq!(funding.to, AccountId::VaultAccount(1));
    let market = l
        .create_market(
            SPONSOR,
            1,
            ARTIST,
            [1u8; 32],
            T0,
            T0 + 100,
            T0 + 200,
            500,
            capacity,
            pool_addr,
            ORACLE,
        )
        .unwrap();
    (l, market)
}

#[test]
fn fund_pool_rejects_zero_capacity() {
    let mut l = Ledger::new();
    l.initialize_config(100, MINT, ADMIN).unwrap();
    l.register_sponsor(SPONSOR, [0u8; 32]).unwrap();
    let err = l.fund_pool(SPONSOR, 0, 0).unwrap_err();
    assert_eq!(err, SuperfanError::InvalidAmount);
    assert_eq!(l.pools.len(), 0);
}

#[test]
fn fund_pool_is_once_per_sponsor() {
    let mut l = Ledger::new();
    l.initialize_config(100, MINT, ADMIN).unwrap();
    l.register_sponsor(SPONSOR, [0u8; 32]).unwrap();
    l.fund_pool(SPONSOR, 1_000, 5).unwrap();
    let err = l.fund_pool(SPONSOR, 2_000, 5).unwrap_err();
    assert_eq!(err, SuperfanError::AccountAlreadyExists);
    assert_eq!(l.pools.len(), 1);
    assert_eq!(l.pools[0].capacity, 1_000);
    assert_eq!(l.pools[0].locked, 0);
    assert_eq!(l.pools[0].first_n_limit, 5);
}

#[test]
fn capacity_round_trip_second_open_fails() {
    let (mut l, market) = market_with_pool(1_000);
    let (ev, stake_in) = l.open_position(USER_A, market, 400, T0 + 10).unwrap();
    assert_eq!(ev.amount, 400);
    assert_eq!(ev.user, USER_A);
    assert_eq!(ev.market, market);
    assert_eq!(stake_in.from, USER_A);
    assert_eq!(stake_in.to, AccountId::VaultAccount(1));
    assert_eq!(stake_in.amount, 400);
    assert_eq!(l.pools[0].locked, 400);
    let err = l.open_position(USER_B, market, 700, T0 + 10).unwrap_err();
    assert_eq!(err, SuperfanError::InsufficientLiquidity);
    assert_eq!(l.pools[0].locked, 400);
    assert_eq!(l.positions.len(), 1);
}

#[test]
fn open_position_fills_capacity_exactly() {
    let (mut l, market) = market_with_pool(1_000);
    l.open_position(USER_A, market, 400, T0 + 10).unwrap();
    l.open_position(USER_B, market, 600, T0 + 10).unwrap();
    assert_eq!(l.pools[0].locked, 1_000);
    assert_eq!(l.pools[0].capacity, 1_000);
}

#[test]
fn open_position_rejects_zero_amount() {
    let (mut l, market) = market_with_pool(1_000);
    let err = l.open_position(USER_A, market, 0, T0 + 10).unwrap_err();
    assert_eq!(err, SuperfanError::InvalidAmount);
}

#[test]
fn open_position_outside_window_fails() {
    let (mut l, market) = market_with_pool(1_000);
    let err = l.open_position(USER_A, market, 100, T0 - 1).unwrap_err();
    assert_eq!(err, SuperfanError::TradingStillOpen);
    let err = l.open_position(USER_A, market, 100, T0 + 101).unwrap_err();
    assert_eq!(err, SuperfanError::TradingAlreadyStarted);
    assert_eq!(l.positions.len(), 0);
}

#[test]
fn open_position_rejects_duplicate() {
    let (mut l, market) = market_with_pool(1_000);
    l.open_position(USER_A, market, 100, T0 + 10).unwrap();
    let err = l.open_position(USER_A, market, 50, T0 + 20).unwrap_err();
    assert_eq!(err, SuperfanError::AccountAlreadyExists);
    assert_eq!(l.positions.len(), 1);
    assert_eq!(l.positions[0].amount, 100);
    assert_eq!(l.pools[0].locked, 100);
}

#[test]
fn open_position_requires_pending_market() {
    let (mut l, market) = market_with_pool(1_000);
    l.cancel_market(SPONSOR, market, T0 - 1).unwrap();
    let err = l.open_position(USER_A, market, 100, T0 + 10).unwrap_err();
    assert_eq!(err, SuperfanError::InvalidStatus);
}

#[test]
fn close_position_refunds_full_stake_after_cancel() {
    let (mut l, market) = market_with_pool(1_000);
    // Trading never started: cancel needs a fresh market, so use a second
    // market whose window lies in the future.
    let market2 = l
        .create_market(
            SPONSOR,
            2,
            ARTIST,
            [1u8; 32],
            T0 + 500,
            T0 + 600,
            T0 + 700,
            500,
            1_000,
            AccountId::PoolAccount(1),
            ORACLE,
        )
        .unwrap();
    l.open_position(USER_A, market2, 250, T0 + 550).unwrap();
    assert_eq!(l.pools[0].locked, 250);
    let _ = market;
    l.cancel_market(SPONSOR, market2, T0 + 400).unwrap();
    let refund = l.close_position(USER_A, market2).unwrap();
    assert_eq!(refund.amount, 250);
    assert_eq!(refund.to, USER_A);
    assert_eq!(refund.from, AccountId::VaultAccount(1));
    assert_eq!(l.pools[0].locked, 0);
    assert_eq!(l.positions.len(), 0);
}

#[test]
fn close_position_pays_stake_after_yes_resolution() {
    let (mut l, market) = market_with_pool(1_000);
    l.open_position(USER_A, market, 300, T0 + 10).unwrap();
    l.resolve_market(ADMIN, market, true, T0 + 150).unwrap();
    let redemption = l.close_position(USER_A, market).unwrap();
    assert_eq!(redemption.amount, 300);
    assert_eq!(redemption.to, USER_A);
    assert_eq!(l.pools[0].locked, 0);
}

#[test]
fn close_position_forfeits_stake_after_no_resolution() {
    let (mut l, market) = market_with_pool(1_000);
    l.open_position(USER_A, market, 300, T0 + 10).unwrap();
    l.resolve_market(ADMIN, market, false, T0 + 150).unwrap();
    let redemption = l.close_position(USER_A, market).unwrap();
    assert_eq!(redemption.amount, 0);
    assert_eq!(l.pools[0].locked, 0);
    assert_eq!(l.positions.len(), 0);
}

#[test]
fn close_position_twice_fails() {
    let (mut l, market) = market_with_pool(1_000);
    l.open_position(USER_A, market, 300, T0 + 10).unwrap();
    l.resolve_market(ADMIN, market, true, T0 + 150).unwrap();
    l.close_position(USER_A, market).unwrap();
    let err = l.close_position(USER_A, market).unwrap_err();
    assert_eq!(err, SuperfanError::AccountNotFound);
    assert_eq!(l.pools[0].locked, 0);
}

#[test]
fn close_position_rejects_open_market() {
    let (mut l, market) = market_with_pool(1_000);
    l.open_position(USER_A, market, 300, T0 + 10).unwrap();
    let err = l.close_position(USER_A, market).unwrap_err();
    assert_eq!(err, SuperfanError::InvalidStatus);
    l.lock_market(SPONSOR, market, T0 + 150).unwrap();
    let err = l.close_position(USER_A, market).unwrap_err();
    assert_eq!(err, SuperfanError::InvalidStatus);
    assert_eq!(l.positions.len(), 1);
}

#[test]
fn withdraw_pool_requires_nothing_locked() {
    let (mut l, market) = market_with_pool(1_000);
    l.open_position(USER_A, market, 300, T0 + 10).unwrap();
    let err = l.withdraw_pool(SPONSOR).unwrap_err();
    assert_eq!(err, SuperfanError::InvalidStatus);
    l.resolve_market(ADMIN, market, true, T0 + 150).unwrap();
    l.close_position(USER_A, market).unwrap();
    let refund = l.withdraw_pool(SPONSOR).unwrap();
    assert_eq!(refund.amount, 1_000);
    assert_eq!(refund.to, SPONSOR);
    assert_eq!(refund.from, AccountId::VaultAccount(1));
    assert_eq!(l.pools[0].capacity, 0);
}

#[test]
fn distribute_payouts_pays_every_winning_position_once() {
    let (mut l, market) = market_with_pool(1_000);
    l.open_position(USER_A, market, 300, T0 + 10).unwrap();
    l.open_position(USER_B, market, 200, T0 + 20).unwrap();
    l.resolve_market(ADMIN, market, true, T0 + 150).unwrap();
    let transfers = l.distribute_payouts(ADMIN, market).unwrap();
    assert_eq!(transfers.len(), 2);
    assert_eq!(transfers[0].to, USER_A);
    assert_eq!(transfers[0].amount, 300);
    assert_eq!(transfers[1].to, USER_B);
    assert_eq!(transfers[1].amount, 200);
    assert_eq!(l.positions.len(), 0);
    assert_eq!(l.pools[0].locked, 0);
    assert!(l.markets[0].payouts_distributed);
    let err = l.distribute_payouts(ADMIN, market).unwrap_err();
    assert_eq!(err, SuperfanError::InvalidStatus);
}

#[test]
fn distribute_payouts_forfeits_all_stakes_on_no_resolution() {
    let (mut l, market) = market_with_pool(1_000);
    l.open_position(USER_A, market, 300, T0 + 10).unwrap();
    l.open_position(USER_B, market, 200, T0 + 20).unwrap();
    l.resolve_market(ADMIN, market, false, T0 + 150).unwrap();
    let transfers = l.distribute_payouts(ADMIN, market).unwrap();
    assert_eq!(transfers.len(), 0);
    assert_eq!(l.positions.len(), 0);
    assert_eq!(l.pools[0].locked, 0);
    assert!(l.markets[0].payouts_distributed);
    let err = l.distribute_payouts(ADMIN, market).unwrap_err();
    assert_eq!(err, SuperfanError::InvalidStatus);
}

#[test]
fn distribute_payouts_requires_admin_and_resolution() {
    let (mut l, market) = market_with_pool(1_000);
    l.open_position(USER_A, market, 300, T0 + 10).unwrap();
    let err = l.distribute_payouts(OUTSIDER, market).unwrap_err();
    assert_eq!(err, SuperfanError::Unauthorized);
    let err = l.distribute_payouts(ADMIN, market).unwrap_err();
    assert_eq!(err, SuperfanError::InvalidStatus);
    assert_eq!(l.positions.len(), 1);
}

#[test]
fn reserve_and_release_respect_bounds() {
    let mut pool = LiquidityPool {
        sponsor: AccountId::SponsorAccount(2),
        capacity: 500,
        locked: 0,
        first_n_limit: 0,
        vault: AccountId::VaultAccount(1),
    };
    superfan_contracts::liquidity::reserve(&mut pool, 200).unwrap();
    assert_eq!(pool.locked, 200);
    let err = superfan_contracts::liquidity::reserve(&mut pool, 301).unwrap_err();
    assert_eq!(err, SuperfanError::InsufficientLiquidity);
    assert_eq!(pool.locked, 200);
    superfan_contracts::liquidity::release(&mut pool, 50);
    assert_eq!(pool.locked, 150);
    superfan_contracts::liquidity::release(&mut pool, 9_999);
    assert_eq!(pool.locked, 0);
}

#[test]
fn reserve_overflow_reports_math_overflow() {
    let mut pool = LiquidityPool {
        sponsor: AccountId::SponsorAccount(2),
        capacity: u64::MAX,
        locked: u64::MAX - 1,
        first_n_limit: 0,
        vault: AccountId::VaultAccount(1),
    };
    let err = superfan_contracts::liquidity::reserve(&mut pool, 2).unwrap_err();
    assert_eq!(err, SuperfanError::MathOverflow);
    assert_eq!(pool.locked, u64::MAX - 1);
}

#[test]
fn distribute_payouts_leaves_other_markets_positions() {
    let (mut l, market1) = market_with_pool(1_000);
    let market2 = l
        .create_market(
            SPONSOR,
            2,
            ARTIST,
            [2u8; 32],
            T0 + 500,
            T0 + 600,
            T0 + 700,
            500,
            1_000,
            AccountId::PoolAccount(1),
            ORACLE,
        )
        .unwrap();
    l.open_position(USER_A, market1, 300, T0 + 10).unwrap();
    l.open_position(USER_A, market2, 200, T0 + 550).unwrap();
    assert_eq!(l.pools[0].locked, 500);
    l.resolve_market(ADMIN, market1, true, T0 + 150).unwrap();
    let transfers = l.distribute_payouts(ADMIN, market1).unwrap();
    assert_eq!(transfers.len(), 1);
    assert_eq!(transfers[0].amount, 300);
    assert_eq!(l.positions.len(), 1);
    assert_eq!(l.positions[0].market, market2);
    assert_eq!(l.positions[0].amount, 200);
    assert_eq!(l.pools[0].locked, 200);
}

#[test]
fn open_position_rejects_locked_market() {
    let (mut l, market) = market_with_pool(1_000);
    l.lock_market(SPONSOR, market, T0 + 150).unwrap();
    let err = l.open_position(USER_A, market, 100, T0 + 50).unwrap_err();
    assert_eq!(err, SuperfanError::InvalidStatus);
}
