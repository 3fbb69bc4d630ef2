use vstd::prelude::*;

verus! {

/// A storage address in the settlement core.
///
/// Every record lives at an address derived deterministically from an entity
/// tag and the identities of its parents, so that any holder of the parent
/// identities can recompute the address without a lookup table, and addresses
/// derived under different tags or from different parents never collide. The
/// model realizes the derivation as a total injection: an address is the tag
/// together with the parent identities, and collision-freedom is provable
/// rather than merely cryptographically infeasible. Wallet identities are the
/// raw public keys of the model.
#[derive(Clone, Copy, Debug, PartialEq, Eq, Structural)]
pub enum AccountId {
    /// An externally owned wallet, mint or program identity.
    Wallet(u64),
    /// The process-wide configuration record.
    ConfigAccount,
    /// A sponsor record, derived from the sponsor's authority wallet.
    SponsorAccount(u64),
    /// A sponsor's market-id counter, derived from the authority wallet.
    CounterAccount(u64),
    /// A market, derived from the sponsor's authority wallet and the market id.
    MarketAccount(u64, u64),
    /// A sponsor's liquidity pool, derived from the authority wallet.
    PoolAccount(u64),
    /// The vault exclusively owned by the pool of the given sponsor authority.
    VaultAccount(u64),
    /// A position, derived from the market address and the user wallet.
    PositionAccount(u64, u64, u64),
    /// A scout reputation record, derived from the tracked user wallet.
    ScoutAccount(u64),
    /// A market's write-once signal commitment record.
    SignalAccount(u64, u64),
}

/// Address of the sponsor record acted for by the given authority wallet.
pub open spec fn spec_sponsor_key(wallet: AccountId) -> AccountId
    recommends
        wallet is Wallet,
{
    match wallet {
        AccountId::Wallet(a) => AccountId::SponsorAccount(a),
        _ => AccountId::SponsorAccount(0),
    }
}

/// Address of the liquidity pool of the sponsor acted for by the given
/// authority wallet.
pub open spec fn spec_pool_key(wallet: AccountId) -> AccountId
    recommends
        wallet is Wallet,
{
    match wallet {
        AccountId::Wallet(a) => AccountId::PoolAccount(a),
        _ => AccountId::PoolAccount(0),
    }
}

/// Address of the vault owned by the pool of the sponsor acted for by the
/// given authority wallet.
pub open spec fn spec_vault_key(wallet: AccountId) -> AccountId
    recommends
        wallet is Wallet,
{
    match wallet {
        AccountId::Wallet(a) => AccountId::VaultAccount(a),
        _ => AccountId::VaultAccount(0),
    }
}

/// Address of the sponsor record whose authority is `authority`.
pub fn sponsor_address(authority: u64) -> (r: AccountId)
    ensures
        r == AccountId::SponsorAccount(authority),
{
    AccountId::SponsorAccount(authority)
}

/// Address of the market-id counter of the sponsor with the given authority.
pub fn counter_address(authority: u64) -> (r: AccountId)
    ensures
        r == AccountId::CounterAccount(authority),
{
    AccountId::CounterAccount(authority)
}

/// Address of the market `market_id` of the sponsor with the given authority.
pub fn market_address(authority: u64, market_id: u64) -> (r: AccountId)
    ensures
        r == AccountId::MarketAccount(authority, market_id),
{
    AccountId::MarketAccount(authority, market_id)
}

/// Address of the liquidity pool of the sponsor with the given authority.
pub fn pool_address(authority: u64) -> (r: AccountId)
    ensures
        r == AccountId::PoolAccount(authority),
{
    AccountId::PoolAccount(authority)
}

/// Address of the vault owned by the pool of the given sponsor authority.
pub fn vault_address(authority: u64) -> (r: AccountId)
    ensures
        r == AccountId::VaultAccount(authority),
{
    AccountId::VaultAccount(authority)
}

/// Address of the position of `user` in the given market. The parents are the
/// market's address and the user's wallet.
pub fn position_address(market: AccountId, user: AccountId) -> (r: AccountId)
    requires
        market is MarketAccount,
        user is Wallet,
    ensures
        market matches AccountId::MarketAccount(a, m) ==> user matches AccountId::Wallet(u)
            ==> r == AccountId::PositionAccount(a, m, u),
{
    match (market, user) {
        (AccountId::MarketAccount(a, m), AccountId::Wallet(u)) => {
            AccountId::PositionAccount(a, m, u)
        },
        _ => AccountId::PositionAccount(0, 0, 0),
    }
}

/// Address of the scout reputation record of the given user wallet.
pub fn scout_address(user: AccountId) -> (r: AccountId)
    requires
        user is Wallet,
    ensures
        user matches AccountId::Wallet(u) ==> r == AccountId::ScoutAccount(u),
{
    match user {
        AccountId::Wallet(u) => AccountId::ScoutAccount(u),
        _ => AccountId::ScoutAccount(0),
    }
}

/// Address of the signal commitment record of the given market.
pub fn signal_address(market: AccountId) -> (r: AccountId)
    requires
        market is MarketAccount,
    ensures
        market matches AccountId::MarketAccount(a, m)
            ==> r == AccountId::SignalAccount(a, m),
{
    match market {
        AccountId::MarketAccount(a, m) => AccountId::SignalAccount(a, m),
        _ => AccountId::SignalAccount(0, 0),
    }
}

/// Address derivation is deterministic and collision-free: two derived
/// addresses are equal exactly when they carry the same entity tag and the
/// same parent identities. In particular, addresses derived under different
/// tags never collide, and a holder of the parent identities can recompute
/// and check any address.
pub proof fn lemma_derivation_injective(a: AccountId, b: AccountId)
    ensures
        a == b <==> {
            ||| a matches AccountId::Wallet(x) && b matches AccountId::Wallet(y) && x == y
            ||| a is ConfigAccount && b is ConfigAccount
            ||| a matches AccountId::SponsorAccount(x) && b matches AccountId::SponsorAccount(y)
                && x == y
            ||| a matches AccountId::CounterAccount(x) && b matches AccountId::CounterAccount(y)
                && x == y
            ||| a matches AccountId::MarketAccount(x, i) && b matches AccountId::MarketAccount(y, j)
                && x == y && i == j
            ||| a matches AccountId::PoolAccount(x) && b matches AccountId::PoolAccount(y) && x == y
            ||| a matches AccountId::VaultAccount(x) && b matches AccountId::VaultAccount(y)
                && x == y
            ||| a matches AccountId::PositionAccount(x, i, u)
                && b matches AccountId::PositionAccount(y, j, v) && x == y && i == j && u == v
            ||| a matches AccountId::ScoutAccount(x) && b matches AccountId::ScoutAccount(y)
                && x == y
            ||| a matches AccountId::SignalAccount(x, i) && b matches AccountId::SignalAccount(y, j)
                && x == y && i == j
        },
{
}

} // verus!
