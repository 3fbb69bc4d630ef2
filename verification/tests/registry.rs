use superfan_contracts::config::{initialize_config, require_admin, require_sponsor_authority};
use superfan_contracts::identity::{
    counter_address, market_address, pool_address, sponsor_address, vault_address,
};
use superfan_contracts::errors::SuperfanError;
use superfan_contracts::identity::AccountId;
use superfan_contracts::ledger::Ledger;
use superfan_contracts::state::{MarketStatus, Outcome, Sponsor};

const T0: i64 = 1_000;
const ADMIN: AccountId = AccountId::Wallet(1);
// The sponsor's authority is the admin's own wallet: only the admin may
// register a sponsor, and registration makes the caller the authority.
const SPONSOR: AccountId = AccountId::Wallet(1);
const MINT: AccountId = AccountId::Wallet(99);

fn bootstrapped() -> Ledger {
    let mut l = Ledger::new();
    l.initialize_config(100, MINT, ADMIN).unwrap();
    l
}

#[test]
fn initialize_config_is_one_time() {
    let mut l = Ledger::new();
    l.initialize_config(100, MINT, ADMIN).unwrap();
    let err = l.initialize_config(5, MINT, SPONSOR).unwrap_err();
    assert_eq!(err, SuperfanError::AccountAlreadyExists);
    let cfg = l.config.unwrap();
    assert_eq!(cfg.admin, ADMIN);
    assert_eq!(cfg.usdc_mint, MINT);
    assert_eq!(cfg.max_sponsors, 100);
}

#[test]
fn register_sponsor_by_non_admin_creates_nothing() {
    let mut l = bootstrapped();
    let err = l.register_sponsor(AccountId::Wallet(42), [3u8; 32]).unwrap_err();
    assert_eq!(err, SuperfanError::Unauthorized);
    assert_eq!(l.sponsors.len(), 0);
    assert_eq!(l.counters.len(), 0);
}

#[test]
fn register_sponsor_creates_sponsor_and_counter() {
    let mut l = bootstrapped();
    let addr = l.register_sponsor(SPONSOR, [3u8; 32]).unwrap();
    assert_eq!(addr, AccountId::SponsorAccount(1));
    assert_eq!(l.sponsors.len(), 1);
    assert_eq!(l.sponsors[0].authority, SPONSOR);
    assert_eq!(l.sponsors[0].name_hash, [3u8; 32]);
    assert_eq!(l.counters.len(), 1);
    assert_eq!(l.counters[0].sponsor, addr);
    assert_eq!(l.counters[0].next_market_id, 1);
}

#[test]
fn register_sponsor_rejects_duplicate_authority() {
    let mut l = bootstrapped();
    l.register_sponsor(SPONSOR, [3u8; 32]).unwrap();
    let err = l.register_sponsor(SPONSOR, [4u8; 32]).unwrap_err();
    assert_eq!(err, SuperfanError::AccountAlreadyExists);
    assert_eq!(l.sponsors.len(), 1);
}

#[test]
fn register_sponsor_without_config_fails() {
    let mut l = Ledger::new();
    let err = l.register_sponsor(SPONSOR, [3u8; 32]).unwrap_err();
    assert_eq!(err, SuperfanError::AccountNotFound);
}

#[test]
fn capability_checks_return_typed_errors() {
    let cfg = initialize_config(10, MINT, ADMIN);
    assert!(require_admin(&cfg, ADMIN).is_ok());
    assert_eq!(require_admin(&cfg, AccountId::Wallet(42)).unwrap_err(), SuperfanError::Unauthorized);
    let sponsor = Sponsor { authority: AccountId::Wallet(2), name_hash: [0u8; 32] };
    assert!(require_sponsor_authority(&sponsor, AccountId::Wallet(2)).is_ok());
    assert_eq!(
        require_sponsor_authority(&sponsor, ADMIN).unwrap_err(),
        SuperfanError::Unauthorized
    );
}

#[test]
fn update_reputation_requires_admin() {
    let mut l = bootstrapped();
    let err = l.update_reputation(AccountId::Wallet(42), AccountId::Wallet(7), 5).unwrap_err();
    assert_eq!(err, SuperfanError::Unauthorized);
    assert_eq!(l.scouts.len(), 0);
}

#[test]
fn update_reputation_accumulates_and_may_go_negative() {
    let mut l = bootstrapped();
    let user = AccountId::Wallet(7);
    let ev = l.update_reputation(ADMIN, user, 5).unwrap();
    assert_eq!(ev.user, user);
    assert_eq!(ev.new_score, 5);
    let ev = l.update_reputation(ADMIN, user, -12).unwrap();
    assert_eq!(ev.new_score, -7);
    assert_eq!(l.scouts.len(), 1);
    assert_eq!(l.scouts[0].score, -7);
}

#[test]
fn update_reputation_overflow_leaves_score() {
    let mut l = bootstrapped();
    let user = AccountId::Wallet(7);
    l.update_reputation(ADMIN, user, i64::MAX).unwrap();
    let err = l.update_reputation(ADMIN, user, 1).unwrap_err();
    assert_eq!(err, SuperfanError::MathOverflow);
    assert_eq!(l.scouts[0].score, i64::MAX);
}

#[test]
fn signal_commitment_is_write_once() {
    let mut l = bootstrapped();
    l.register_sponsor(SPONSOR, [0u8; 32]).unwrap();
    let (pool_addr, _) = l.fund_pool(SPONSOR, 1_000, 0).unwrap();
    let market = l
        .create_market(
            SPONSOR,
            1,
            AccountId::Wallet(50),
            [1u8; 32],
            T0,
            T0 + 100,
            T0 + 200,
            500,
            1_000,
            pool_addr,
            AccountId::Wallet(60),
        )
        .unwrap();
    let ev = l.submit_signal_commitment(SPONSOR, market, [9u8; 32], T0 + 5).unwrap();
    assert_eq!(ev.market, market);
    assert_eq!(ev.commitment_root, [9u8; 32]);
    assert_eq!(ev.recorded_at, T0 + 5);
    assert_eq!(l.signals.len(), 1);
    let err = l.submit_signal_commitment(SPONSOR, market, [8u8; 32], T0 + 6).unwrap_err();
    assert_eq!(err, SuperfanError::AccountAlreadyExists);
    assert_eq!(l.signals[0].commitment_root, [9u8; 32]);
    let err = l
        .submit_signal_commitment(AccountId::Wallet(42), market, [8u8; 32], T0 + 6)
        .unwrap_err();
    assert_eq!(err, SuperfanError::Unauthorized);
}

#[test]
fn status_encoding_round_trips() {
    let all = [
        MarketStatus::Pending,
        MarketStatus::Locked,
        MarketStatus::Resolved,
        MarketStatus::Cancelled,
    ];
    for s in all {
        assert_eq!(MarketStatus::from_u8(s.as_u8()), Some(s));
    }
    assert_eq!(MarketStatus::Pending.as_u8(), 0);
    assert_eq!(MarketStatus::Locked.as_u8(), 1);
    assert_eq!(MarketStatus::Resolved.as_u8(), 2);
    assert_eq!(MarketStatus::Cancelled.as_u8(), 3);
    assert_eq!(MarketStatus::from_u8(4), None);
}

#[test]
fn outcome_encoding_round_trips() {
    let all = [Outcome::Unresolved, Outcome::Yes, Outcome::No];
    for o in all {
        assert_eq!(Outcome::from_u8(o.as_u8()), Some(o));
    }
    assert_eq!(Outcome::Unresolved.as_u8(), 0);
    assert_eq!(Outcome::Yes.as_u8(), 1);
    assert_eq!(Outcome::No.as_u8(), 2);
    assert_eq!(Outcome::from_u8(3), None);
}

#[test]
fn derived_addresses_are_deterministic_and_distinct() {
    assert_eq!(sponsor_address(7), sponsor_address(7));
    assert_eq!(sponsor_address(7), AccountId::SponsorAccount(7));
    assert_ne!(sponsor_address(7), sponsor_address(8));
    assert_ne!(sponsor_address(7), counter_address(7));
    assert_ne!(pool_address(7), vault_address(7));
    assert_ne!(market_address(7, 1), market_address(7, 2));
    assert_ne!(market_address(7, 1), market_address(8, 1));
}
