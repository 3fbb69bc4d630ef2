use superfan_contracts::errors::SuperfanError;
use superfan_contracts::identity::AccountId;
use superfan_contracts::ledger::Ledger;
use superfan_contracts::state::{MarketStatus, Outcome};

const T0: i64 = 1_000;
const ADMIN: AccountId = AccountId::Wallet(1);
// Only the admin may register a sponsor, and the sponsor's authority is the
// registering caller itself, so the one sponsor's authority is the admin's
// own wallet.
const SPONSOR: AccountId = AccountId::Wallet(1);
const OUTSIDER: AccountId = AccountId::Wallet(5);
const MINT: AccountId = AccountId::Wallet(99);
const ARTIST: AccountId = AccountId::Wallet(50);
const ORACLE: AccountId = AccountId::Wallet(60);

fn bootstrapped() -> Ledger {
    let mut l = Ledger::new();
    l.initialize_config(100, MINT, ADMIN).unwrap();
    l.register_sponsor(SPONSOR, [0u8; 32]).unwrap();
    l
}

fn funded() -> (Ledger, AccountId) {
    let mut l = bootstrapped();
    let (pool_addr, _) = l.fund_pool(SPONSOR, 1_000, 0).unwrap();
    (l, pool_addr)
}

fn with_market(start: i64, end: i64, deadline: i64) -> (Ledger, AccountId) {
    let (mut l, pool_addr) = funded();
    let market = l
        .create_market(
            SPONSOR,
            1,
            ARTIST,
            [1u8; 32],
            start,
            end,
            deadline,
            500,
            1_000,
            pool_addr,
            ORACLE,
        )
        .unwrap();
    (l, market)
}

#[test]
fn create_market_starts_pending() {
    let (l, market) = with_market(T0, T0 + 100, T0 + 200);
    assert_eq!(market, AccountId::MarketAccount(1, 1));
    assert_eq!(l.markets.len(), 1);
    assert_eq!(l.markets[0].status, MarketStatus::Pending);
    assert_eq!(l.markets[0].outcome, Outcome::Unresolved);
    assert_eq!(l.markets[0].trading_starts_at, T0);
    assert_eq!(l.markets[0].trading_ends_at, T0 + 100);
    assert_eq!(l.markets[0].resolution_deadline, T0 + 200);
    assert_eq!(l.markets[0].resolved_at, 0);
    assert!(!l.markets[0].payouts_distributed);
}

#[test]
fn counter_starts_at_one_and_advances_by_one() {
    let (mut l, pool_addr) = funded();
    assert_eq!(l.counters[0].next_market_id, 1);
    l.create_market(
        SPONSOR,
        1,
        ARTIST,
        [1u8; 32],
        T0,
        T0 + 100,
        T0 + 200,
        500,
        1_000,
        pool_addr,
        ORACLE,
    )
    .unwrap();
    assert_eq!(l.counters[0].next_market_id, 2);
    l.create_market(
        SPONSOR,
        2,
        ARTIST,
        [1u8; 32],
        T0,
        T0 + 100,
        T0 + 200,
        500,
        1_000,
        pool_addr,
        ORACLE,
    )
    .unwrap();
    assert_eq!(l.counters[0].next_market_id, 3);
}

#[test]
fn create_market_rejects_wrong_id() {
    let (mut l, pool_addr) = funded();
    let err = l
        .create_market(
            SPONSOR,
            7,
            ARTIST,
            [1u8; 32],
            T0,
            T0 + 100,
            T0 + 200,
            500,
            1_000,
            pool_addr,
            ORACLE,
        )
        .unwrap_err();
    assert_eq!(err, SuperfanError::InvalidMarketId);
    assert_eq!(l.counters[0].next_market_id, 1);
    assert_eq!(l.markets.len(), 0);
}

#[test]
fn create_market_rejects_bad_window() {
    let (mut l, pool_addr) = funded();
    let err = l
        .create_market(
            SPONSOR,
            1,
            ARTIST,
            [1u8; 32],
            T0 + 100,
            T0,
            T0 + 200,
            500,
            1_000,
            pool_addr,
            ORACLE,
        )
        .unwrap_err();
    assert_eq!(err, SuperfanError::InvalidTradingWindow);
}

#[test]
fn create_market_rejects_bad_deadline() {
    let (mut l, pool_addr) = funded();
    let err = l
        .create_market(
            SPONSOR,
            1,
            ARTIST,
            [1u8; 32],
            T0,
            T0 + 100,
            T0 + 50,
            500,
            1_000,
            pool_addr,
            ORACLE,
        )
        .unwrap_err();
    assert_eq!(err, SuperfanError::InvalidResolutionDeadline);
}

#[test]
fn create_market_requires_registered_sponsor() {
    let mut l = bootstrapped();
    let err = l
        .create_market(
            AccountId::Wallet(33),
            1,
            ARTIST,
            [1u8; 32],
            T0,
            T0 + 100,
            T0 + 200,
            500,
            1_000,
            AccountId::PoolAccount(33),
            ORACLE,
        )
        .unwrap_err();
    assert_eq!(err, SuperfanError::AccountNotFound);
}

#[test]
fn lock_market_too_early_then_succeeds() {
    let (mut l, market) = with_market(T0, T0 + 100, T0 + 200);
    let err = l.lock_market(SPONSOR, market, T0 + 50).unwrap_err();
    assert_eq!(err, SuperfanError::TradingStillOpen);
    assert_eq!(l.markets[0].status, MarketStatus::Pending);
    l.lock_market(SPONSOR, market, T0 + 150).unwrap();
    assert_eq!(l.markets[0].status, MarketStatus::Locked);
}

#[test]
fn lock_market_requires_sponsor_authority() {
    let (mut l, market) = with_market(T0, T0 + 100, T0 + 200);
    let err = l.lock_market(AccountId::Wallet(77), market, T0 + 150).unwrap_err();
    assert_eq!(err, SuperfanError::Unauthorized);
    assert_eq!(l.markets[0].status, MarketStatus::Pending);
}

#[test]
fn cancel_market_after_start_fails() {
    let (mut l, market) = with_market(T0, T0 + 100, T0 + 200);
    let err = l.cancel_market(SPONSOR, market, T0 + 1).unwrap_err();
    assert_eq!(err, SuperfanError::TradingAlreadyStarted);
    assert_eq!(l.markets[0].status, MarketStatus::Pending);
}

#[test]
fn cancel_market_before_start_succeeds() {
    let (mut l, market) = with_market(T0, T0 + 100, T0 + 200);
    l.cancel_market(SPONSOR, market, T0 - 1).unwrap();
    assert_eq!(l.markets[0].status, MarketStatus::Cancelled);
}

#[test]
fn resolve_market_after_deadline_fails_then_succeeds_in_window() {
    let (mut l, market) = with_market(T0, T0 + 100, T0 + 200);
    let err = l.resolve_market(ADMIN, market, true, T0 + 250).unwrap_err();
    assert_eq!(err, SuperfanError::ResolutionDeadlinePassed);
    assert_eq!(l.markets[0].status, MarketStatus::Pending);
    let ev = l.resolve_market(ADMIN, market, true, T0 + 150).unwrap();
    assert_eq!(l.markets[0].status, MarketStatus::Resolved);
    assert_eq!(l.markets[0].outcome, Outcome::Yes);
    assert_eq!(l.markets[0].resolved_at, T0 + 150);
    assert_eq!(ev.market, market);
    assert!(ev.outcome_yes);
    assert_eq!(ev.resolved_at, T0 + 150);
}

#[test]
fn resolve_market_before_trading_end_fails() {
    let (mut l, market) = with_market(T0, T0 + 100, T0 + 200);
    let err = l.resolve_market(ADMIN, market, false, T0 + 50).unwrap_err();
    assert_eq!(err, SuperfanError::TradingStillOpen);
}

#[test]
fn resolve_market_requires_admin() {
    let (mut l, market) = with_market(T0, T0 + 100, T0 + 200);
    let err = l.resolve_market(OUTSIDER, market, true, T0 + 150).unwrap_err();
    assert_eq!(err, SuperfanError::Unauthorized);
}

#[test]
fn resolve_market_records_no_outcome() {
    let (mut l, market) = with_market(T0, T0 + 100, T0 + 200);
    l.resolve_market(ADMIN, market, false, T0 + 150).unwrap();
    assert_eq!(l.markets[0].outcome, Outcome::No);
}

#[test]
fn terminal_states_reject_further_transitions() {
    let (mut l, market) = with_market(T0, T0 + 100, T0 + 200);
    l.resolve_market(ADMIN, market, true, T0 + 150).unwrap();
    let err = l.lock_market(SPONSOR, market, T0 + 160).unwrap_err();
    assert_eq!(err, SuperfanError::InvalidStatus);
    let err = l.cancel_market(SPONSOR, market, T0 - 10).unwrap_err();
    assert_eq!(err, SuperfanError::InvalidStatus);
    let err = l.resolve_market(ADMIN, market, false, T0 + 160).unwrap_err();
    assert_eq!(err, SuperfanError::InvalidStatus);
    assert_eq!(l.markets[0].outcome, Outcome::Yes);
}

#[test]
fn cancelled_market_cannot_be_resolved() {
    let (mut l, market) = with_market(T0, T0 + 100, T0 + 200);
    l.cancel_market(SPONSOR, market, T0 - 1).unwrap();
    let err = l.resolve_market(ADMIN, market, true, T0 + 150).unwrap_err();
    assert_eq!(err, SuperfanError::InvalidStatus);
    assert_eq!(l.markets[0].status, MarketStatus::Cancelled);
}

#[test]
fn locked_market_can_still_be_resolved() {
    let (mut l, market) = with_market(T0, T0 + 100, T0 + 200);
    l.lock_market(SPONSOR, market, T0 + 150).unwrap();
    l.resolve_market(ADMIN, market, true, T0 + 180).unwrap();
    assert_eq!(l.markets[0].status, MarketStatus::Resolved);
}
