use vstd::prelude::*;

use crate::errors::SuperfanError;
use crate::events::TokenTransfer;
use crate::identity::{spec_pool_key, spec_sponsor_key, AccountId};
use crate::state::{
    LiquidityPool, Market, Position, ScoutRegistry, SignalCommitment, Sponsor,
    SponsorMarketCounter, SuperfanConfig,
};

verus! {

/// Whether some sponsor record lives at `key`.
pub open spec fn has_sponsor(s: Seq<Sponsor>, key: AccountId) -> bool {
    exists|i: int| 0 <= i < s.len() && s[i].address() == key
}

/// The sponsor record at `key`.
pub open spec fn sponsor_at(s: Seq<Sponsor>, key: AccountId) -> Sponsor
    recommends
        has_sponsor(s, key),
{
    s[choose|i: int| 0 <= i < s.len() && s[i].address() == key]
}

/// Whether some market counter belongs to the sponsor record at `key`.
pub open spec fn has_counter(s: Seq<SponsorMarketCounter>, key: AccountId) -> bool {
    exists|i: int| 0 <= i < s.len() && s[i].sponsor == key
}

/// The market counter of the sponsor record at `key`.
pub open spec fn counter_at(s: Seq<SponsorMarketCounter>, key: AccountId) -> SponsorMarketCounter
    recommends
        has_counter(s, key),
{
    s[choose|i: int| 0 <= i < s.len() && s[i].sponsor == key]
}

/// Whether some market record lives at `key`.
pub open spec fn has_market(s: Seq<Market>, key: AccountId) -> bool {
    exists|i: int| 0 <= i < s.len() && s[i].address() == key
}

/// The market record at `key`.
pub open spec fn market_at(s: Seq<Market>, key: AccountId) -> Market
    recommends
        has_market(s, key),
{
    s[choose|i: int| 0 <= i < s.len() && s[i].address() == key]
}

/// Whether some pool record lives at `key`.
pub open spec fn has_pool(s: Seq<LiquidityPool>, key: AccountId) -> bool {
    exists|i: int| 0 <= i < s.len() && s[i].address() == key
}

/// The pool record at `key`.
pub open spec fn pool_at(s: Seq<LiquidityPool>, key: AccountId) -> LiquidityPool
    recommends
        has_pool(s, key),
{
    s[choose|i: int| 0 <= i < s.len() && s[i].address() == key]
}

/// Whether `user` holds a position in the market at `market_key`.
pub open spec fn has_position(s: Seq<Position>, market_key: AccountId, user: AccountId) -> bool {
    exists|i: int| 0 <= i < s.len() && s[i].market == market_key && s[i].user == user
}

/// The position of `user` in the market at `market_key`.
pub open spec fn position_at(s: Seq<Position>, market_key: AccountId, user: AccountId) -> Position
    recommends
        has_position(s, market_key, user),
{
    s[choose|i: int| 0 <= i < s.len() && s[i].market == market_key && s[i].user == user]
}

/// Whether a scout record exists for `user`.
pub open spec fn has_scout(s: Seq<ScoutRegistry>, user: AccountId) -> bool {
    exists|i: int| 0 <= i < s.len() && s[i].user == user
}

/// The scout record of `user`.
pub open spec fn scout_at(s: Seq<ScoutRegistry>, user: AccountId) -> ScoutRegistry
    recommends
        has_scout(s, user),
{
    s[choose|i: int| 0 <= i < s.len() && s[i].user == user]
}

/// Whether a signal commitment exists for the market at `market_key`.
pub open spec fn has_signal(s: Seq<SignalCommitment>, market_key: AccountId) -> bool {
    exists|i: int| 0 <= i < s.len() && s[i].market == market_key
}

/// The sponsor records are keyed by their derived addresses and well formed.
pub open spec fn sponsors_ok(s: Seq<Sponsor>) -> bool {
    &&& forall|i: int, j: int| 0 <= i < j < s.len() ==> s[i].address() != s[j].address()
    &&& forall|i: int| 0 <= i < s.len() ==> (#[trigger] s[i]).wf()
}

/// The counters are keyed by their sponsor addresses and well formed.
pub open spec fn counters_ok(s: Seq<SponsorMarketCounter>) -> bool {
    &&& forall|i: int, j: int| 0 <= i < j < s.len() ==> s[i].sponsor != s[j].sponsor
    &&& forall|i: int| 0 <= i < s.len() ==> (#[trigger] s[i]).wf()
}

/// The market records are keyed by their derived addresses and well formed.
pub open spec fn markets_ok(s: Seq<Market>) -> bool {
    &&& forall|i: int, j: int| 0 <= i < j < s.len() ==> s[i].address() != s[j].address()
    &&& forall|i: int| 0 <= i < s.len() ==> (#[trigger] s[i]).wf()
}

/// The pool records are keyed by their derived addresses and well formed; in
/// particular `locked <= capacity` holds of every pool.
pub open spec fn pools_ok(s: Seq<LiquidityPool>) -> bool {
    &&& forall|i: int, j: int| 0 <= i < j < s.len() ==> s[i].address() != s[j].address()
    &&& forall|i: int| 0 <= i < s.len() ==> (#[trigger] s[i]).wf()
}

/// The positions are keyed by their (market, user) pairs and well formed.
pub open spec fn positions_ok(s: Seq<Position>) -> bool {
    &&& forall|i: int, j: int|
        0 <= i < j < s.len() ==> !(s[i].market == s[j].market && s[i].user == s[j].user)
    &&& forall|i: int| 0 <= i < s.len() ==> (#[trigger] s[i]).wf()
}

/// The scout records are keyed by their user wallets.
pub open spec fn scouts_ok(s: Seq<ScoutRegistry>) -> bool {
    forall|i: int, j: int| 0 <= i < j < s.len() ==> s[i].user != s[j].user
}

/// The signal commitments are keyed by their market addresses: write-once.
pub open spec fn signals_ok(s: Seq<SignalCommitment>) -> bool {
    forall|i: int, j: int| 0 <= i < j < s.len() ==> s[i].market != s[j].market
}

/// The whole settlement state: an arena of records, each at its derived
/// address. Storing a record checks the address is free and looking one up
/// checks it is taken, which is what makes creations one-time and closes
/// impossible to replay.
pub struct Ledger {
    /// The process-wide configuration, once the bootstrap ran.
    pub config: Option<SuperfanConfig>,
    /// Sponsor records, one per registered authority.
    pub sponsors: Vec<Sponsor>,
    /// Market-id counters, one per sponsor.
    pub counters: Vec<SponsorMarketCounter>,
    /// Market records, never destroyed.
    pub markets: Vec<Market>,
    /// Liquidity pools, one per sponsor.
    pub pools: Vec<LiquidityPool>,
    /// Open positions; a position leaves the arena when it is redeemed.
    pub positions: Vec<Position>,
    /// Scout reputation records.
    pub scouts: Vec<ScoutRegistry>,
    /// Write-once signal commitments, one per market.
    pub signals: Vec<SignalCommitment>,
}

impl Ledger {
    /// The arena invariant, maintained by every operation.
    ///
    /// Every record is well formed — in particular `locked <= capacity` holds
    /// of every pool at all times — and every collection is keyed: no two
    /// records share a derived address. Markets additionally stay consistent
    /// with their sponsor's allocator: every market of a sponsor carries an id
    /// below the counter's next id, so the id the counter hands out next is
    /// always fresh, and every market's sponsor record exists.
    pub open spec fn wf(self) -> bool {
        &&& sponsors_ok(self.sponsors@)
        &&& counters_ok(self.counters@)
        &&& markets_ok(self.markets@)
        &&& pools_ok(self.pools@)
        &&& positions_ok(self.positions@)
        &&& scouts_ok(self.scouts@)
        &&& signals_ok(self.signals@)
        &&& forall|i: int, j: int|
            0 <= i < self.markets@.len() && 0 <= j < self.counters@.len()
                && self.markets@[i].sponsor == self.counters@[j].sponsor
                ==> self.markets@[i].market_id < self.counters@[j].next_market_id
        &&& forall|i: int|
            0 <= i < self.markets@.len() ==> has_sponsor(
                self.sponsors@,
                (#[trigger] self.markets@[i]).sponsor,
            )
        &&& forall|i: int|
            0 <= i < self.counters@.len() ==> has_sponsor(
                self.sponsors@,
                (#[trigger] self.counters@[i]).sponsor,
            )
    }

    /// An empty arena: the state before the bootstrap.
    pub fn new() -> (r: Ledger)
        ensures
            r.wf(),
            r.config is None,
            r.sponsors@.len() == 0,
            r.counters@.len() == 0,
            r.markets@.len() == 0,
            r.pools@.len() == 0,
            r.positions@.len() == 0,
            r.scouts@.len() == 0,
            r.signals@.len() == 0,
    {
        Ledger {
            config: None,
            sponsors: Vec::new(),
            counters: Vec::new(),
            markets: Vec::new(),
            pools: Vec::new(),
            positions: Vec::new(),
            scouts: Vec::new(),
            signals: Vec::new(),
        }
    }

    /// Find the index of the sponsor record at `key`.
    fn find_sponsor(&self, key: AccountId) -> (r: Option<usize>)
        requires
            forall|i: int| 0 <= i < self.sponsors@.len() ==> (#[trigger] self.sponsors@[i]).wf(),
        ensures
            r matches Some(i) ==> i < self.sponsors@.len() && self.sponsors@[i as int].address()
                == key,
            r is None ==> !has_sponsor(self.sponsors@, key),
            r is Some <==> has_sponsor(self.sponsors@, key),
    {
        let n = self.sponsors.len();
        let mut i: usize = 0;
        while i < n
            invariant
                n == self.sponsors@.len(),
                i <= n,
                forall|j: int|
                    0 <= j < self.sponsors@.len() ==> (#[trigger] self.sponsors@[j]).wf(),
                forall|j: int| 0 <= j < i ==> self.sponsors@[j].address() != key,
            decreases n - i,
        {
            if self.sponsors[i].derived_address() == key {
                return Some(i);
            }
            i += 1;
        }
        None
    }

    /// Find the index of the counter of the sponsor record at `key`.
    fn find_counter(&self, key: AccountId) -> (r: Option<usize>)
        ensures
            r matches Some(i) ==> i < self.counters@.len() && self.counters@[i as int].sponsor
                == key,
            r is None ==> !has_counter(self.counters@, key),
            r is Some <==> has_counter(self.counters@, key),
    {
        let n = self.counters.len();
        let mut i: usize = 0;
        while i < n
            invariant
                n == self.counters@.len(),
                i <= n,
                forall|j: int| 0 <= j < i ==> self.counters@[j].sponsor != key,
            decreases n - i,
        {
            if self.counters[i].sponsor == key {
                return Some(i);
            }
            i += 1;
        }
        None
    }

    /// Find the index of the market record at `key`.
    fn find_market(&self, key: AccountId) -> (r: Option<usize>)
        requires
            forall|i: int| 0 <= i < self.markets@.len() ==> (#[trigger] self.markets@[i]).wf(),
        ensures
            r matches Some(i) ==> i < self.markets@.len() && self.markets@[i as int].address()
                == key,
            r is None ==> !has_market(self.markets@, key),
            r is Some <==> has_market(self.markets@, key),
    {
        let n = self.markets.len();
        let mut i: usize = 0;
        while i < n
            invariant
                n == self.markets@.len(),
                i <= n,
                forall|j: int| 0 <= j < self.markets@.len() ==> (#[trigger] self.markets@[j]).wf(),
                forall|j: int| 0 <= j < i ==> self.markets@[j].address() != key,
            decreases n - i,
        {
            if self.markets[i].derived_address() == key {
                return Some(i);
            }
            i += 1;
        }
        None
    }

    /// Find the index of the pool record at `key`.
    fn find_pool(&self, key: AccountId) -> (r: Option<usize>)
        requires
            forall|i: int| 0 <= i < self.pools@.len() ==> (#[trigger] self.pools@[i]).wf(),
        ensures
            r matches Some(i) ==> i < self.pools@.len() && self.pools@[i as int].address() == key,
            r is None ==> !has_pool(self.pools@, key),
            r is Some <==> has_pool(self.pools@, key),
    {
        let n = self.pools.len();
        let mut i: usize = 0;
        while i < n
            invariant
                n == self.pools@.len(),
                i <= n,
                forall|j: int| 0 <= j < self.pools@.len() ==> (#[trigger] self.pools@[j]).wf(),
                forall|j: int| 0 <= j < i ==> self.pools@[j].address() != key,
            decreases n - i,
        {
            let p = &self.pools[i];
            let addr = match p.sponsor {
                AccountId::SponsorAccount(a) => crate::identity::pool_address(a),
                _ => AccountId::PoolAccount(0),
            };
            if addr == key {
                return Some(i);
            }
            i += 1;
        }
        None
    }

    /// Find the index of the position of `user` in the market at `market_key`.
    fn find_position(&self, market_key: AccountId, user: AccountId) -> (r: Option<usize>)
        ensures
            r matches Some(i) ==> i < self.positions@.len() && self.positions@[i as int].market
                == market_key && self.positions@[i as int].user == user,
            r is None ==> !has_position(self.positions@, market_key, user),
            r is Some <==> has_position(self.positions@, market_key, user),
    {
        let n = self.positions.len();
        let mut i: usize = 0;
        while i < n
            invariant
                n == self.positions@.len(),
                i <= n,
                forall|j: int|
                    0 <= j < i ==> !(self.positions@[j].market == market_key
                        && self.positions@[j].user == user),
            decreases n - i,
        {
            if self.positions[i].market == market_key && self.positions[i].user == user {
                return Some(i);
            }
            i += 1;
        }
        None
    }

    /// Find the index of the scout record of `user`.
    fn find_scout(&self, user: AccountId) -> (r: Option<usize>)
        ensures
            r matches Some(i) ==> i < self.scouts@.len() && self.scouts@[i as int].user == user,
            r is None ==> !has_scout(self.scouts@, user),
            r is Some <==> has_scout(self.scouts@, user),
    {
        let n = self.scouts.len();
        let mut i: usize = 0;
        while i < n
            invariant
                n == self.scouts@.len(),
                i <= n,
                forall|j: int| 0 <= j < i ==> self.scouts@[j].user != user,
            decreases n - i,
        {
            if self.scouts[i].user == user {
                return Some(i);
            }
            i += 1;
        }
        None
    }

    /// Find the index of the signal commitment of the market at `market_key`.
    fn find_signal(&self, market_key: AccountId) -> (r: Option<usize>)
        ensures
            r matches Some(i) ==> i < self.signals@.len() && self.signals@[i as int].market
                == market_key,
            r is None ==> !has_signal(self.signals@, market_key),
            r is Some <==> has_signal(self.signals@, market_key),
    {
        let n = self.signals.len();
        let mut i: usize = 0;
        while i < n
            invariant
                n == self.signals@.len(),
                i <= n,
                forall|j: int| 0 <= j < i ==> self.signals@[j].market != market_key,
            decreases n - i,
        {
            if self.signals[i].market == market_key {
                return Some(i);
            }
            i += 1;
        }
        None
    }
}

impl Ledger {
    /// Bootstrap the process-wide configuration. The bootstrap is one-time:
    /// a second attempt finds the configuration address taken and changes
    /// nothing.
    pub fn initialize_config(
        &mut self,
        max_sponsors: u32,
        usdc_mint: AccountId,
        admin: AccountId,
    ) -> (r: Result<(), SuperfanError>)
        requires
            old(self).wf(),
        ensures
            final(self).wf(),
            r is Ok <==> old(self).config is None,
            r is Err ==> *final(self) == *old(self) && r->Err_0
                == SuperfanError::AccountAlreadyExists,
            r is Ok ==> *final(self) == (Ledger {
                config: Some(SuperfanConfig { admin, usdc_mint, max_sponsors }),
                ..*old(self)
            }),
    {
        if self.config.is_some() {
            return Err(SuperfanError::AccountAlreadyExists);
        }
        self.config = Some(crate::config::initialize_config(max_sponsors, usdc_mint, admin));
        Ok(())
    }

    /// Register a sponsor and its market counter. Only the administrator may
    /// register, each authority backs at most one sponsor, and a failed
    /// attempt — an unauthorized caller in particular — creates no records.
    /// On success the new sponsor record's address is returned and its
    /// counter starts at 1.
    pub fn register_sponsor(&mut self, caller: AccountId, name_hash: [u8; 32]) -> (r: Result<
        AccountId,
        SuperfanError,
    >)
        requires
            old(self).wf(),
            caller is Wallet,
        ensures
            final(self).wf(),
            r is Err ==> *final(self) == *old(self),
            r is Ok <==> old(self).config is Some && caller == old(self).config->Some_0.admin
                && !has_sponsor(old(self).sponsors@, spec_sponsor_key(caller)),
            r is Err ==> r->Err_0 == (if old(self).config is None {
                SuperfanError::AccountNotFound
            } else if caller != old(self).config->Some_0.admin {
                SuperfanError::Unauthorized
            } else {
                SuperfanError::AccountAlreadyExists
            }),
            r matches Ok(addr) ==> {
                &&& addr == spec_sponsor_key(caller)
                &&& final(self).sponsors@ == old(self).sponsors@.push(
                    Sponsor { authority: caller, name_hash },
                )
                &&& final(self).counters@ == old(self).counters@.push(
                    SponsorMarketCounter { sponsor: addr, next_market_id: 1 },
                )
                &&& has_sponsor(final(self).sponsors@, addr)
                &&& sponsor_at(final(self).sponsors@, addr) == (Sponsor {
                    authority: caller,
                    name_hash,
                })
                &&& has_counter(final(self).counters@, addr)
                &&& counter_at(final(self).counters@, addr) == (SponsorMarketCounter {
                    sponsor: addr,
                    next_market_id: 1,
                })
                &&& final(self).config == old(self).config
                &&& final(self).markets@ == old(self).markets@
                &&& final(self).pools@ == old(self).pools@
                &&& final(self).positions@ == old(self).positions@
                &&& final(self).scouts@ == old(self).scouts@
                &&& final(self).signals@ == old(self).signals@
            },
    {
        let cfg = match self.config {
            Some(c) => c,
            None => {
                return Err(SuperfanError::AccountNotFound);
            },
        };
        let created = crate::config::register_sponsor(&cfg, caller, name_hash);
        let (sponsor, counter) = match created {
            Ok(x) => x,
            Err(e) => {
                return Err(e);
            },
        };
        let key = sponsor.derived_address();
        let found = self.find_sponsor(key);
        if found.is_some() {
            return Err(SuperfanError::AccountAlreadyExists);
        }
        self.sponsors.push(sponsor);
        self.counters.push(counter);
        proof {
            let olds = old(self).sponsors@;
            let oldc = old(self).counters@;
            assert forall|i: int|
                0 <= i < oldc.len() && #[trigger] oldc[i].sponsor == key implies false by {
                assert(has_sponsor(olds, key));
            }
            assert forall|i: int|
                0 <= i < old(self).markets@.len() implies has_sponsor(
                self.sponsors@,
                (#[trigger] old(self).markets@[i]).sponsor,
            ) by {
                lemma_has_sponsor_push(olds, sponsor, old(self).markets@[i].sponsor);
            }
            assert forall|i: int|
                0 <= i < oldc.len() implies has_sponsor(
                self.sponsors@,
                (#[trigger] oldc[i]).sponsor,
            ) by {
                lemma_has_sponsor_push(olds, sponsor, oldc[i].sponsor);
            }
            assert(has_sponsor(self.sponsors@, key)) by {
                assert(self.sponsors@[olds.len() as int].address() == key);
            }
            assert forall|i: int|
                0 <= i < old(self).markets@.len() && #[trigger] old(self).markets@[i].sponsor
                    == key implies false by {
                assert(has_sponsor(olds, key));
            }
            lemma_sponsor_at_index(self.sponsors@, self.sponsors@.len() - 1);
            lemma_counter_at_index(self.counters@, self.counters@.len() - 1);
        }
        Ok(key)
    }
}

impl Ledger {
    /// Create a market for the sponsor acted for by `caller` and return its
    /// address. The market id must be the sponsor's counter's next id; the
    /// counter advances by exactly 1, and on any failure nothing changes.
    pub fn create_market(
        &mut self,
        caller: AccountId,
        market_id: u64,
        artist_wallet: AccountId,
        artist_id_hash: [u8; 32],
        trading_starts_at: i64,
        trading_ends_at: i64,
        resolution_deadline: i64,
        conviction_threshold_bps: u16,
        max_pool_exposure: u64,
        liquidity_pool: AccountId,
        signal_oracle: AccountId,
    ) -> (r: Result<AccountId, SuperfanError>)
        requires
            old(self).wf(),
            caller is Wallet,
        ensures
            final(self).wf(),
            r is Err ==> *final(self) == *old(self),
            r is Ok <==> {
                &&& has_sponsor(old(self).sponsors@, spec_sponsor_key(caller))
                &&& has_counter(old(self).counters@, spec_sponsor_key(caller))
                &&& crate::market::create_market_ok(
                    sponsor_at(old(self).sponsors@, spec_sponsor_key(caller)),
                    counter_at(old(self).counters@, spec_sponsor_key(caller)),
                    caller,
                    market_id,
                    trading_starts_at,
                    trading_ends_at,
                    resolution_deadline,
                )
            },
            r is Err ==> r->Err_0 == (if !has_sponsor(
                old(self).sponsors@,
                spec_sponsor_key(caller),
            ) || !has_counter(old(self).counters@, spec_sponsor_key(caller)) {
                SuperfanError::AccountNotFound
            } else {
                crate::market::create_market_err(
                    sponsor_at(old(self).sponsors@, spec_sponsor_key(caller)),
                    counter_at(old(self).counters@, spec_sponsor_key(caller)),
                    caller,
                    market_id,
                    trading_starts_at,
                    trading_ends_at,
                    resolution_deadline,
                )
            }),
            r matches Ok(addr) ==> {
                let skey = spec_sponsor_key(caller);
                let created = Market {
                    sponsor: skey,
                    market_id,
                    artist_wallet,
                    artist_id_hash,
                    trading_starts_at,
                    trading_ends_at,
                    resolution_deadline,
                    conviction_threshold_bps,
                    max_pool_exposure,
                    liquidity_pool,
                    signal_oracle,
                    status: crate::state::MarketStatus::Pending,
                    outcome: crate::state::Outcome::Unresolved,
                    resolved_at: 0,
                    payouts_distributed: false,
                };
                &&& addr == created.address()
                &&& final(self).markets@ == old(self).markets@.push(created)
                &&& has_market(final(self).markets@, addr)
                &&& market_at(final(self).markets@, addr) == created
                &&& final(self).counters@.len() == old(self).counters@.len()
                &&& has_counter(final(self).counters@, skey)
                &&& counter_at(final(self).counters@, skey) == (SponsorMarketCounter {
                    next_market_id: (counter_at(old(self).counters@, skey).next_market_id
                        + 1) as u64,
                    ..counter_at(old(self).counters@, skey)
                })
                &&& forall|i: int|
                    0 <= i < old(self).counters@.len() && old(self).counters@[i].sponsor != skey
                        ==> final(self).counters@[i] == old(self).counters@[i]
                &&& final(self).config == old(self).config
                &&& final(self).sponsors@ == old(self).sponsors@
                &&& final(self).pools@ == old(self).pools@
                &&& final(self).positions@ == old(self).positions@
                &&& final(self).scouts@ == old(self).scouts@
                &&& final(self).signals@ == old(self).signals@
            },
    {
        let skey = match caller {
            AccountId::Wallet(a) => crate::identity::sponsor_address(a),
            _ => AccountId::SponsorAccount(0),
        };
        let si = match self.find_sponsor(skey) {
            Some(i) => i,
            None => {
                return Err(SuperfanError::AccountNotFound);
            },
        };
        let ci = match self.find_counter(skey) {
            Some(i) => i,
            None => {
                return Err(SuperfanError::AccountNotFound);
            },
        };
        let sponsor = self.sponsors[si];
        let mut counter = self.counters[ci];
        proof {
            lemma_sponsor_at_index(self.sponsors@, si as int);
            lemma_counter_at_index(self.counters@, ci as int);
        }
        let created = crate::market::create_market(
            &sponsor,
            &mut counter,
            caller,
            market_id,
            artist_wallet,
            artist_id_hash,
            trading_starts_at,
            trading_ends_at,
            resolution_deadline,
            conviction_threshold_bps,
            max_pool_exposure,
            liquidity_pool,
            signal_oracle,
        );
        let market = match created {
            Ok(m) => m,
            Err(e) => {
                return Err(e);
            },
        };
        let addr = market.derived_address();
        self.counters[ci] = counter;
        self.markets.push(market);
        proof {
            let oldl = *old(self);
            let newc = self.counters@;
            let newm = self.markets@;
            assert(newm == oldl.markets@.push(market));
            assert(newc == oldl.counters@.update(ci as int, counter));
            // The sponsor's own old markets carry ids below the old next id,
            // which is the new market's id; other sponsors' markets live at
            // addresses with a different sponsor component.
            assert forall|i: int, j: int|
                0 <= i < j < newm.len() implies newm[i].address() != newm[j].address() by {
                if j < oldl.markets@.len() {
                    assert(oldl.markets@[i].address() != oldl.markets@[j].address());
                } else {
                    assert(newm[i] == oldl.markets@[i]);
                    if oldl.markets@[i].sponsor == skey {
                        assert(oldl.markets@[i].market_id < oldl.counters@[ci as int].next_market_id);
                    }
                }
            }
            assert forall|i: int| 0 <= i < newm.len() implies (#[trigger] newm[i]).wf() by {
                if i < oldl.markets@.len() {
                    assert(oldl.markets@[i].wf());
                }
            }
            assert forall|i: int, j: int|
                0 <= i < newm.len() && 0 <= j < newc.len() && newm[i].sponsor == newc[j].sponsor
                    implies newm[i].market_id < newc[j].next_market_id by {
                if i < oldl.markets@.len() {
                    assert(newm[i] == oldl.markets@[i]);
                    if j == ci as int {
                        assert(oldl.markets@[i].market_id
                            < oldl.counters@[ci as int].next_market_id);
                    } else {
                        assert(newc[j] == oldl.counters@[j]);
                        assert(oldl.markets@[i].market_id < oldl.counters@[j].next_market_id);
                    }
                } else {
                    assert(newm[i] == market);
                    if j != ci as int {
                        assert(newc[j] == oldl.counters@[j]);
                        assert(oldl.counters@[j].sponsor != skey);
                    }
                }
            }
            assert forall|i: int, j: int|
                0 <= i < j < newc.len() implies newc[i].sponsor != newc[j].sponsor by {
                assert(oldl.counters@[i].sponsor != oldl.counters@[j].sponsor);
            }
            assert forall|i: int| 0 <= i < newc.len() implies (#[trigger] newc[i]).wf() by {
                if i != ci as int {
                    assert(oldl.counters@[i].wf());
                }
            }
            assert forall|i: int| 0 <= i < newm.len() implies has_sponsor(
                self.sponsors@,
                (#[trigger] newm[i]).sponsor,
            ) by {
                if i < oldl.markets@.len() {
                    assert(has_sponsor(oldl.sponsors@, oldl.markets@[i].sponsor));
                } else {
                    assert(self.sponsors@[si as int].address() == skey);
                }
            }
            assert forall|i: int| 0 <= i < newc.len() implies has_sponsor(
                self.sponsors@,
                (#[trigger] newc[i]).sponsor,
            ) by {
                if i != ci as int {
                    assert(has_sponsor(oldl.sponsors@, oldl.counters@[i].sponsor));
                } else {
                    assert(newc[i].sponsor == oldl.counters@[i].sponsor);
                    assert(has_sponsor(oldl.sponsors@, oldl.counters@[i].sponsor));
                }
            }
            lemma_market_at_index(newm, newm.len() - 1);
            lemma_counter_at_index(newc, ci as int);
        }
        Ok(addr)
    }
}

impl Ledger {
    /// Resolve a market address to its record's index together with the index
    /// of its sponsor's record, which the arena invariant guarantees exists.
    fn find_market_and_sponsor(&self, market_key: AccountId) -> (r: Option<(usize, usize)>)
        requires
            self.wf(),
        ensures
            r matches Some((mi, si)) ==> {
                &&& mi < self.markets@.len() && self.markets@[mi as int].address() == market_key
                &&& si < self.sponsors@.len() && self.sponsors@[si as int].address()
                    == self.markets@[mi as int].sponsor
                &&& market_at(self.markets@, market_key) == self.markets@[mi as int]
                &&& sponsor_at(self.sponsors@, self.markets@[mi as int].sponsor)
                    == self.sponsors@[si as int]
            },
            r is None <==> !has_market(self.markets@, market_key),
    {
        let mi = match self.find_market(market_key) {
            Some(i) => i,
            None => {
                return None;
            },
        };
        proof {
            lemma_market_at_index(self.markets@, mi as int);
        }
        let si = match self.find_sponsor(self.markets[mi].sponsor) {
            Some(i) => i,
            None => {
                return vstd::pervasive::unreached();
            },
        };
        proof {
            lemma_sponsor_at_index(self.sponsors@, si as int);
        }
        Some((mi, si))
    }

    /// Lock the market at `market_key` once trading has ended. Only the
    /// creating sponsor's authority may lock, only a Pending market locks,
    /// and only strictly after the trading window; nothing else changes.
    pub fn lock_market(&mut self, caller: AccountId, market_key: AccountId, now: i64) -> (r:
        Result<(), SuperfanError>)
        requires
            old(self).wf(),
        ensures
            final(self).wf(),
            r is Err ==> *final(self) == *old(self),
            r is Ok <==> has_market(old(self).markets@, market_key) && {
                let m = market_at(old(self).markets@, market_key);
                let s = sponsor_at(old(self).sponsors@, m.sponsor);
                &&& caller == s.authority
                &&& m.status is Pending
                &&& now > m.trading_ends_at
            },
            r is Err ==> r->Err_0 == (if !has_market(old(self).markets@, market_key) {
                SuperfanError::AccountNotFound
            } else {
                let m = market_at(old(self).markets@, market_key);
                let s = sponsor_at(old(self).sponsors@, m.sponsor);
                if caller != s.authority {
                    SuperfanError::Unauthorized
                } else if !(m.status is Pending) {
                    SuperfanError::InvalidStatus
                } else {
                    SuperfanError::TradingStillOpen
                }
            }),
            r is Ok ==> {
                let m = market_at(old(self).markets@, market_key);
                &&& final(self).markets@.len() == old(self).markets@.len()
                &&& has_market(final(self).markets@, market_key)
                &&& market_at(final(self).markets@, market_key) == (Market {
                    status: crate::state::MarketStatus::Locked,
                    ..m
                })
                &&& forall|i: int|
                    0 <= i < old(self).markets@.len() && old(self).markets@[i].address()
                        != market_key ==> final(self).markets@[i] == old(self).markets@[i]
                &&& final(self).config == old(self).config
                &&& final(self).sponsors@ == old(self).sponsors@
                &&& final(self).counters@ == old(self).counters@
                &&& final(self).pools@ == old(self).pools@
                &&& final(self).positions@ == old(self).positions@
                &&& final(self).scouts@ == old(self).scouts@
                &&& final(self).signals@ == old(self).signals@
            },
    {
        let (mi, si) = match self.find_market_and_sponsor(market_key) {
            Some(x) => x,
            None => {
                return Err(SuperfanError::AccountNotFound);
            },
        };
        let sponsor = self.sponsors[si];
        let mut market = self.markets[mi];
        let res = crate::market::lock_market(&sponsor, &mut market, caller, now);
        match res {
            Ok(u) => {
                self.markets[mi] = market;
                proof {
                    lemma_market_update_wf(*old(self), *self, mi as int, market);
                    lemma_market_at_index(self.markets@, mi as int);
                }
                Ok(u)
            },
            Err(e) => Err(e),
        }
    }

    /// Cancel the market at `market_key` before trading starts. Only the
    /// creating sponsor's authority may cancel, only a Pending market can be
    /// cancelled, and only strictly before the trading window opens; every
    /// open position on the market becomes eligible for a full stake refund.
    pub fn cancel_market(&mut self, caller: AccountId, market_key: AccountId, now: i64) -> (r:
        Result<(), SuperfanError>)
        requires
            old(self).wf(),
        ensures
            final(self).wf(),
            r is Err ==> *final(self) == *old(self),
            r is Ok <==> has_market(old(self).markets@, market_key) && {
                let m = market_at(old(self).markets@, market_key);
                let s = sponsor_at(old(self).sponsors@, m.sponsor);
                &&& caller == s.authority
                &&& m.status is Pending
                &&& now < m.trading_starts_at
            },
            r is Err ==> r->Err_0 == (if !has_market(old(self).markets@, market_key) {
                SuperfanError::AccountNotFound
            } else {
                let m = market_at(old(self).markets@, market_key);
                let s = sponsor_at(old(self).sponsors@, m.sponsor);
                if caller != s.authority {
                    SuperfanError::Unauthorized
                } else if !(m.status is Pending) {
                    SuperfanError::InvalidStatus
                } else {
                    SuperfanError::TradingAlreadyStarted
                }
            }),
            r is Ok ==> {
                let m = market_at(old(self).markets@, market_key);
                &&& final(self).markets@.len() == old(self).markets@.len()
                &&& has_market(final(self).markets@, market_key)
                &&& market_at(final(self).markets@, market_key) == (Market {
                    status: crate::state::MarketStatus::Cancelled,
                    ..m
                })
                &&& forall|i: int|
                    0 <= i < old(self).markets@.len() && old(self).markets@[i].address()
                        != market_key ==> final(self).markets@[i] == old(self).markets@[i]
                &&& final(self).config == old(self).config
                &&& final(self).sponsors@ == old(self).sponsors@
                &&& final(self).counters@ == old(self).counters@
                &&& final(self).pools@ == old(self).pools@
                &&& final(self).positions@ == old(self).positions@
                &&& final(self).scouts@ == old(self).scouts@
                &&& final(self).signals@ == old(self).signals@
            },
    {
        let (mi, si) = match self.find_market_and_sponsor(market_key) {
            Some(x) => x,
            None => {
                return Err(SuperfanError::AccountNotFound);
            },
        };
        let sponsor = self.sponsors[si];
        let mut market = self.markets[mi];
        let res = crate::market::cancel_market(&sponsor, &mut market, caller, now);
        match res {
            Ok(u) => {
                self.markets[mi] = market;
                proof {
                    lemma_market_update_wf(*old(self), *self, mi as int, market);
                    lemma_market_at_index(self.markets@, mi as int);
                }
                Ok(u)
            },
            Err(e) => Err(e),
        }
    }

    /// Resolve the market at `market_key` to a binary outcome. Only the
    /// administrator may resolve, a Pending or Locked market qualifies, and
    /// the clock must lie inside the resolution window; the returned event
    /// records the outcome and the resolution time.
    pub fn resolve_market(
        &mut self,
        caller: AccountId,
        market_key: AccountId,
        outcome_yes: bool,
        now: i64,
    ) -> (r: Result<crate::events::MarketResolved, SuperfanError>)
        requires
            old(self).wf(),
        ensures
            final(self).wf(),
            r is Err ==> *final(self) == *old(self),
            r is Ok <==> old(self).config is Some && has_market(old(self).markets@, market_key)
                && crate::market::resolve_market_ok(
                old(self).config->Some_0,
                market_at(old(self).markets@, market_key),
                caller,
                now,
            ),
            r is Err ==> r->Err_0 == (if old(self).config is None || !has_market(
                old(self).markets@,
                market_key,
            ) {
                SuperfanError::AccountNotFound
            } else {
                let cfg = old(self).config->Some_0;
                let m = market_at(old(self).markets@, market_key);
                if caller != cfg.admin {
                    SuperfanError::Unauthorized
                } else if m.status is Cancelled || m.status is Resolved {
                    SuperfanError::InvalidStatus
                } else if now < m.trading_ends_at {
                    SuperfanError::TradingStillOpen
                } else {
                    SuperfanError::ResolutionDeadlinePassed
                }
            }),
            r matches Ok(ev) ==> {
                let m = market_at(old(self).markets@, market_key);
                &&& ev == (crate::events::MarketResolved {
                    market: market_key,
                    sponsor: m.sponsor,
                    outcome_yes,
                    resolved_at: now,
                })
                &&& final(self).markets@.len() == old(self).markets@.len()
                &&& has_market(final(self).markets@, market_key)
                &&& market_at(final(self).markets@, market_key) == (Market {
                    status: crate::state::MarketStatus::Resolved,
                    outcome: if outcome_yes {
                        crate::state::Outcome::Yes
                    } else {
                        crate::state::Outcome::No
                    },
                    resolved_at: now,
                    ..m
                })
                &&& forall|i: int|
                    0 <= i < old(self).markets@.len() && old(self).markets@[i].address()
                        != market_key ==> final(self).markets@[i] == old(self).markets@[i]
                &&& final(self).config == old(self).config
                &&& final(self).sponsors@ == old(self).sponsors@
                &&& final(self).counters@ == old(self).counters@
                &&& final(self).pools@ == old(self).pools@
                &&& final(self).positions@ == old(self).positions@
                &&& final(self).scouts@ == old(self).scouts@
                &&& final(self).signals@ == old(self).signals@
            },
    {
        let cfg = match self.config {
            Some(c) => c,
            None => {
                return Err(SuperfanError::AccountNotFound);
            },
        };
        let mi = match self.find_market(market_key) {
            Some(i) => i,
            None => {
                return Err(SuperfanError::AccountNotFound);
            },
        };
        proof {
            lemma_market_at_index(self.markets@, mi as int);
        }
        let mut market = self.markets[mi];
        let res = crate::market::resolve_market(&cfg, &mut market, caller, outcome_yes, now);
        match res {
            Ok(ev) => {
                self.markets[mi] = market;
                proof {
                    lemma_market_update_wf(*old(self), *self, mi as int, market);
                    lemma_market_at_index(self.markets@, mi as int);
                }
                Ok(ev)
            },
            Err(e) => Err(e),
        }
    }
}

/// Replacing a market with one at the same address and of the same sponsor
/// and id keeps the whole arena invariant.
proof fn lemma_market_update_wf(pre: Ledger, post: Ledger, mi: int, m: Market)
    requires
        pre.wf(),
        0 <= mi < pre.markets@.len(),
        m.address() == pre.markets@[mi].address(),
        m.sponsor == pre.markets@[mi].sponsor,
        m.market_id == pre.markets@[mi].market_id,
        m.wf(),
        post.markets@ == pre.markets@.update(mi, m),
        post.config == pre.config,
        post.sponsors@ == pre.sponsors@,
        post.counters@ == pre.counters@,
        post.pools@ == pre.pools@,
        post.positions@ == pre.positions@,
        post.scouts@ == pre.scouts@,
        post.signals@ == pre.signals@,
    ensures
        post.wf(),
{
    assert forall|i: int, j: int|
        0 <= i < j < post.markets@.len() implies post.markets@[i].address()
        != post.markets@[j].address() by {
        assert(pre.markets@[i].address() != pre.markets@[j].address());
    }
    assert forall|i: int| 0 <= i < post.markets@.len() implies (
    #[trigger] post.markets@[i]).wf() by {
        assert(pre.markets@[i].wf());
    }
    assert forall|i: int, j: int|
        0 <= i < post.markets@.len() && 0 <= j < post.counters@.len() && post.markets@[i].sponsor
            == post.counters@[j].sponsor implies post.markets@[i].market_id
        < post.counters@[j].next_market_id by {
        assert(pre.markets@[i].sponsor == post.markets@[i].sponsor);
        assert(pre.markets@[i].market_id == post.markets@[i].market_id);
    }
    assert forall|i: int| 0 <= i < post.markets@.len() implies has_sponsor(
        post.sponsors@,
        (#[trigger] post.markets@[i]).sponsor,
    ) by {
        assert(has_sponsor(pre.sponsors@, pre.markets@[i].sponsor));
    }
}

impl Ledger {
    /// Fund the liquidity pool of the sponsor acted for by `caller` and
    /// return its address and the order that moves the capacity into the
    /// pool's vault. Each sponsor funds at most one pool, the capacity must
    /// be positive, and a failed attempt creates no records and moves
    /// nothing.
    pub fn fund_pool(&mut self, caller: AccountId, capacity: u64, first_n_limit: u16) -> (r:
        Result<(AccountId, TokenTransfer), SuperfanError>)
        requires
            old(self).wf(),
            caller is Wallet,
        ensures
            final(self).wf(),
            r is Err ==> *final(self) == *old(self),
            r is Ok <==> {
                &&& has_sponsor(old(self).sponsors@, spec_sponsor_key(caller))
                &&& !has_pool(old(self).pools@, spec_pool_key(caller))
                &&& capacity > 0
            },
            r is Err ==> r->Err_0 == (if !has_sponsor(
                old(self).sponsors@,
                spec_sponsor_key(caller),
            ) {
                SuperfanError::AccountNotFound
            } else if has_pool(old(self).pools@, spec_pool_key(caller)) {
                SuperfanError::AccountAlreadyExists
            } else {
                SuperfanError::InvalidAmount
            }),
            r matches Ok((addr, t)) ==> {
                let created = LiquidityPool {
                    sponsor: spec_sponsor_key(caller),
                    capacity,
                    locked: 0,
                    first_n_limit,
                    vault: crate::identity::spec_vault_key(caller),
                };
                &&& addr == spec_pool_key(caller)
                &&& final(self).pools@ == old(self).pools@.push(created)
                &&& has_pool(final(self).pools@, addr)
                &&& pool_at(final(self).pools@, addr) == created
                &&& t == (TokenTransfer {
                    from: caller,
                    to: crate::identity::spec_vault_key(caller),
                    amount: capacity,
                })
                &&& final(self).config == old(self).config
                &&& final(self).sponsors@ == old(self).sponsors@
                &&& final(self).counters@ == old(self).counters@
                &&& final(self).markets@ == old(self).markets@
                &&& final(self).positions@ == old(self).positions@
                &&& final(self).scouts@ == old(self).scouts@
                &&& final(self).signals@ == old(self).signals@
            },
    {
        let skey = match caller {
            AccountId::Wallet(a) => crate::identity::sponsor_address(a),
            _ => AccountId::SponsorAccount(0),
        };
        let pkey = match caller {
            AccountId::Wallet(a) => crate::identity::pool_address(a),
            _ => AccountId::PoolAccount(0),
        };
        let si = match self.find_sponsor(skey) {
            Some(i) => i,
            None => {
                return Err(SuperfanError::AccountNotFound);
            },
        };
        if self.find_pool(pkey).is_some() {
            return Err(SuperfanError::AccountAlreadyExists);
        }
        let sponsor = self.sponsors[si];
        proof {
            assert(sponsor.authority == caller);
        }
        let funded = crate::liquidity::fund_pool(&sponsor, caller, capacity, first_n_limit);
        let (pool, order) = match funded {
            Ok(x) => x,
            Err(e) => {
                return Err(e);
            },
        };
        self.pools.push(pool);
        proof {
            let olds = old(self).pools@;
            assert(pool.address() == pkey);
            assert forall|i: int, j: int|
                0 <= i < j < self.pools@.len() implies self.pools@[i].address()
                != self.pools@[j].address() by {
                if j < olds.len() {
                    assert(olds[i].address() != olds[j].address());
                } else {
                    assert(self.pools@[i] == olds[i]);
                }
            }
            assert forall|i: int| 0 <= i < self.pools@.len() implies (
            #[trigger] self.pools@[i]).wf() by {
                if i < olds.len() {
                    assert(olds[i].wf());
                }
            }
            lemma_pool_at_index(self.pools@, self.pools@.len() - 1);
        }
        Ok((pkey, order))
    }

    /// Return the uncommitted capacity of the caller's pool to the caller.
    /// Only the sponsor's authority reaches its pool, and only a pool with
    /// nothing locked can be withdrawn; the returned order moves the full
    /// capacity from the vault back to the caller.
    pub fn withdraw_pool(&mut self, caller: AccountId) -> (r: Result<TokenTransfer, SuperfanError>)
        requires
            old(self).wf(),
            caller is Wallet,
        ensures
            final(self).wf(),
            r is Err ==> *final(self) == *old(self),
            r is Ok <==> {
                &&& has_sponsor(old(self).sponsors@, spec_sponsor_key(caller))
                &&& has_pool(old(self).pools@, spec_pool_key(caller))
                &&& pool_at(old(self).pools@, spec_pool_key(caller)).locked == 0
            },
            r is Err ==> r->Err_0 == (if !has_sponsor(
                old(self).sponsors@,
                spec_sponsor_key(caller),
            ) || !has_pool(old(self).pools@, spec_pool_key(caller)) {
                SuperfanError::AccountNotFound
            } else {
                SuperfanError::InvalidStatus
            }),
            r matches Ok(t) ==> {
                let p = pool_at(old(self).pools@, spec_pool_key(caller));
                &&& final(self).pools@.len() == old(self).pools@.len()
                &&& has_pool(final(self).pools@, spec_pool_key(caller))
                &&& pool_at(final(self).pools@, spec_pool_key(caller)) == (LiquidityPool {
                    capacity: 0,
                    ..p
                })
                &&& forall|i: int|
                    0 <= i < old(self).pools@.len() && old(self).pools@[i].address()
                        != spec_pool_key(caller) ==> final(self).pools@[i] == old(self).pools@[i]
                &&& t == (TokenTransfer { from: p.vault, to: caller, amount: p.capacity })
                &&& final(self).config == old(self).config
                &&& final(self).sponsors@ == old(self).sponsors@
                &&& final(self).counters@ == old(self).counters@
                &&& final(self).markets@ == old(self).markets@
                &&& final(self).positions@ == old(self).positions@
                &&& final(self).scouts@ == old(self).scouts@
                &&& final(self).signals@ == old(self).signals@
            },
    {
        let skey = match caller {
            AccountId::Wallet(a) => crate::identity::sponsor_address(a),
            _ => AccountId::SponsorAccount(0),
        };
        let pkey = match caller {
            AccountId::Wallet(a) => crate::identity::pool_address(a),
            _ => AccountId::PoolAccount(0),
        };
        let si = match self.find_sponsor(skey) {
            Some(i) => i,
            None => {
                return Err(SuperfanError::AccountNotFound);
            },
        };
        let pi = match self.find_pool(pkey) {
            Some(i) => i,
            None => {
                return Err(SuperfanError::AccountNotFound);
            },
        };
        let sponsor = self.sponsors[si];
        let mut pool = self.pools[pi];
        proof {
            assert(sponsor.authority == caller);
            lemma_pool_at_index(self.pools@, pi as int);
        }
        let res = crate::liquidity::withdraw_pool(&sponsor, &mut pool, caller);
        match res {
            Ok(t) => {
                self.pools[pi] = pool;
                proof {
                    lemma_pools_ok_update(old(self).pools@, pi as int, pool);
                    lemma_pool_at_index(self.pools@, pi as int);
                }
                Ok(t)
            },
            Err(e) => Err(e),
        }
    }
}

impl Ledger {
    /// Open a position of `amount` for `caller` in the market at
    /// `market_key`: reserve the stake against the market's pool, record the
    /// position, and return the opening event together with the order moving
    /// the stake into the vault. A second open for the same (market, user)
    /// pair is rejected as a duplicate, and a failed attempt changes nothing.
    pub fn open_position(
        &mut self,
        caller: AccountId,
        market_key: AccountId,
        amount: u64,
        now: i64,
    ) -> (r: Result<(crate::events::PositionOpened, TokenTransfer), SuperfanError>)
        requires
            old(self).wf(),
            caller is Wallet,
        ensures
            final(self).wf(),
            r is Err ==> *final(self) == *old(self),
            r is Ok <==> has_market(old(self).markets@, market_key) && {
                let m = market_at(old(self).markets@, market_key);
                &&& has_pool(old(self).pools@, m.liquidity_pool)
                &&& !has_position(old(self).positions@, market_key, caller)
                &&& crate::positions::open_position_ok(
                    m,
                    pool_at(old(self).pools@, m.liquidity_pool),
                    amount,
                    now,
                )
            },
            r is Err ==> r->Err_0 == (if !has_market(old(self).markets@, market_key) {
                SuperfanError::AccountNotFound
            } else {
                let m = market_at(old(self).markets@, market_key);
                if !has_pool(old(self).pools@, m.liquidity_pool) {
                    SuperfanError::AccountNotFound
                } else if has_position(old(self).positions@, market_key, caller) {
                    SuperfanError::AccountAlreadyExists
                } else {
                    crate::positions::open_position_err(
                        m,
                        pool_at(old(self).pools@, m.liquidity_pool),
                        amount,
                        now,
                    )
                }
            }),
            r matches Ok((ev, t)) ==> {
                let m = market_at(old(self).markets@, market_key);
                let p = pool_at(old(self).pools@, m.liquidity_pool);
                &&& final(self).positions@ == old(self).positions@.push(
                    Position { user: caller, market: market_key, amount, created_at: now },
                )
                &&& has_position(final(self).positions@, market_key, caller)
                &&& position_at(final(self).positions@, market_key, caller) == (Position {
                    user: caller,
                    market: market_key,
                    amount,
                    created_at: now,
                })
                &&& final(self).pools@.len() == old(self).pools@.len()
                &&& has_pool(final(self).pools@, m.liquidity_pool)
                &&& pool_at(final(self).pools@, m.liquidity_pool) == (LiquidityPool {
                    locked: (p.locked + amount) as u64,
                    ..p
                })
                &&& forall|i: int|
                    0 <= i < old(self).pools@.len() && old(self).pools@[i].address()
                        != m.liquidity_pool ==> final(self).pools@[i] == old(self).pools@[i]
                &&& ev == (crate::events::PositionOpened { market: market_key, user: caller, amount })
                &&& t == (TokenTransfer { from: caller, to: p.vault, amount })
                &&& final(self).config == old(self).config
                &&& final(self).sponsors@ == old(self).sponsors@
                &&& final(self).counters@ == old(self).counters@
                &&& final(self).markets@ == old(self).markets@
                &&& final(self).scouts@ == old(self).scouts@
                &&& final(self).signals@ == old(self).signals@
            },
    {
        let mi = match self.find_market(market_key) {
            Some(i) => i,
            None => {
                return Err(SuperfanError::AccountNotFound);
            },
        };
        proof {
            lemma_market_at_index(self.markets@, mi as int);
        }
        let market = self.markets[mi];
        let pi = match self.find_pool(market.liquidity_pool) {
            Some(i) => i,
            None => {
                return Err(SuperfanError::AccountNotFound);
            },
        };
        proof {
            lemma_pool_at_index(self.pools@, pi as int);
        }
        if self.find_position(market_key, caller).is_some() {
            return Err(SuperfanError::AccountAlreadyExists);
        }
        let mut pool = self.pools[pi];
        let opened = crate::positions::open_position(&market, &mut pool, caller, amount, now);
        let (position, event, order) = match opened {
            Ok(x) => x,
            Err(e) => {
                return Err(e);
            },
        };
        self.pools[pi] = pool;
        self.positions.push(position);
        proof {
            let oldp = old(self).positions@;
            assert(position.market == market_key);
            lemma_pools_ok_update(old(self).pools@, pi as int, pool);
            lemma_pool_at_index(self.pools@, pi as int);
            assert forall|i: int, j: int|
                0 <= i < j < self.positions@.len() implies !(self.positions@[i].market
                == self.positions@[j].market && self.positions@[i].user
                == self.positions@[j].user) by {
                if j < oldp.len() {
                    assert(!(oldp[i].market == oldp[j].market && oldp[i].user == oldp[j].user));
                } else {
                    assert(self.positions@[i] == oldp[i]);
                }
            }
            assert forall|i: int| 0 <= i < self.positions@.len() implies (
            #[trigger] self.positions@[i]).wf() by {
                if i < oldp.len() {
                    assert(oldp[i].wf());
                }
            }
            lemma_position_at_index(self.positions@, self.positions@.len() - 1);
        }
        Ok((event, order))
    }

    /// Close the position of `caller` in the market at `market_key`. The
    /// market must be Cancelled or Resolved; the position leaves the arena —
    /// a second close of the same position finds no record and fails — the
    /// reserved stake is released, and the returned order pays the
    /// outcome-dependent redemption from the vault back to the owner: the
    /// full stake after a cancellation or a Yes resolution, nothing after a
    /// No resolution. A failed attempt changes nothing.
    pub fn close_position(&mut self, caller: AccountId, market_key: AccountId) -> (r: Result<
        TokenTransfer,
        SuperfanError,
    >)
        requires
            old(self).wf(),
        ensures
            final(self).wf(),
            r is Err ==> *final(self) == *old(self),
            r is Ok <==> close_position_allowed(*old(self), caller, market_key),
            r is Err ==> r->Err_0 == (if !has_market(old(self).markets@, market_key) {
                SuperfanError::AccountNotFound
            } else {
                let m = market_at(old(self).markets@, market_key);
                if !has_pool(old(self).pools@, m.liquidity_pool) {
                    SuperfanError::AccountNotFound
                } else if !has_position(old(self).positions@, market_key, caller) {
                    SuperfanError::AccountNotFound
                } else {
                    SuperfanError::InvalidStatus
                }
            }),
            r matches Ok(t) ==> {
                let m = market_at(old(self).markets@, market_key);
                let p = pool_at(old(self).pools@, m.liquidity_pool);
                let pos = position_at(old(self).positions@, market_key, caller);
                &&& final(self).positions@.len() == old(self).positions@.len() - 1
                &&& !has_position(final(self).positions@, market_key, caller)
                &&& forall|k: AccountId, u: AccountId|
                    has_position(final(self).positions@, k, u) ==> has_position(
                        old(self).positions@,
                        k,
                        u,
                    )
                &&& forall|k: AccountId, u: AccountId|
                    !(k == market_key && u == caller) && has_position(old(self).positions@, k, u)
                        ==> has_position(final(self).positions@, k, u)
                &&& final(self).pools@.len() == old(self).pools@.len()
                &&& has_pool(final(self).pools@, m.liquidity_pool)
                &&& pool_at(final(self).pools@, m.liquidity_pool) == (LiquidityPool {
                    locked: if pos.amount > p.locked {
                        0
                    } else {
                        (p.locked - pos.amount) as u64
                    },
                    ..p
                })
                &&& forall|i: int|
                    0 <= i < old(self).pools@.len() && old(self).pools@[i].address()
                        != m.liquidity_pool ==> final(self).pools@[i] == old(self).pools@[i]
                &&& t == (TokenTransfer {
                    from: p.vault,
                    to: caller,
                    amount: crate::positions::redemption_amount(m, pos),
                })
                &&& final(self).config == old(self).config
                &&& final(self).sponsors@ == old(self).sponsors@
                &&& final(self).counters@ == old(self).counters@
                &&& final(self).markets@ == old(self).markets@
                &&& final(self).scouts@ == old(self).scouts@
                &&& final(self).signals@ == old(self).signals@
            },
    {
        let mi = match self.find_market(market_key) {
            Some(i) => i,
            None => {
                return Err(SuperfanError::AccountNotFound);
            },
        };
        proof {
            lemma_market_at_index(self.markets@, mi as int);
        }
        let market = self.markets[mi];
        let pi = match self.find_pool(market.liquidity_pool) {
            Some(i) => i,
            None => {
                return Err(SuperfanError::AccountNotFound);
            },
        };
        proof {
            lemma_pool_at_index(self.pools@, pi as int);
        }
        let qi = match self.find_position(market_key, caller) {
            Some(i) => i,
            None => {
                return Err(SuperfanError::AccountNotFound);
            },
        };
        proof {
            lemma_position_at_index(self.positions@, qi as int);
        }
        let position = self.positions[qi];
        let mut pool = self.pools[pi];
        let res = crate::positions::close_position(&market, &mut pool, &position, caller);
        match res {
            Ok(t) => {
                self.pools[pi] = pool;
                self.positions.remove(qi);
                proof {
                    lemma_pools_ok_update(old(self).pools@, pi as int, pool);
                    lemma_pool_at_index(self.pools@, pi as int);
                    lemma_positions_remove(old(self).positions@, qi as int);
                }
                Ok(t)
            },
            Err(e) => Err(e),
        }
    }
}

/// When closing the position of `caller` in the market at `market_key`
/// succeeds: the market, its pool and the position all exist, and the market
/// is in a terminal state.
pub open spec fn close_position_allowed(l: Ledger, caller: AccountId, market_key: AccountId) -> bool {
    &&& has_market(l.markets@, market_key)
    &&& has_pool(l.pools@, market_at(l.markets@, market_key).liquidity_pool)
    &&& has_position(l.positions@, market_key, caller)
    &&& (market_at(l.markets@, market_key).status is Resolved || market_at(
        l.markets@,
        market_key,
    ).status is Cancelled)
}

/// No position is redeemed twice: a successful close removes the position's
/// record from the arena, and a close succeeds only while the record exists,
/// so once a position of `caller` in the market at `market_key` is gone no
/// further close of it can succeed.
pub proof fn lemma_no_double_close(l: Ledger, caller: AccountId, market_key: AccountId)
    requires
        !has_position(l.positions@, market_key, caller),
    ensures
        !close_position_allowed(l, caller, market_key),
{
}

/// Reserved capital never escapes its bounds: in a well-formed arena every
/// pool satisfies `0 <= locked <= capacity`, and every operation keeps the
/// arena well formed.
pub proof fn lemma_pool_capacity_invariant(l: Ledger)
    requires
        l.wf(),
    ensures
        forall|i: int|
            0 <= i < l.pools@.len() ==> 0 <= (#[trigger] l.pools@[i]).locked <= l.pools@[i].capacity,
{
    assert forall|i: int|
        0 <= i < l.pools@.len() implies 0 <= (#[trigger] l.pools@[i]).locked
        <= l.pools@[i].capacity by {
        assert(l.pools@[i].wf());
    }
}

/// The score a user's scout record carries, or 0 before the first update.
pub open spec fn scout_score_of(s: Seq<ScoutRegistry>, user: AccountId) -> int {
    if has_scout(s, user) {
        scout_at(s, user).score as int
    } else {
        0
    }
}

impl Ledger {
    /// Apply a signed delta to `user`'s reputation score, creating the scout
    /// record at 0 on the first update. Only the administrator may update;
    /// overflow of the checked addition, like any other failure, changes
    /// nothing.
    pub fn update_reputation(&mut self, caller: AccountId, user: AccountId, delta: i64) -> (r:
        Result<crate::events::ReputationUpdated, SuperfanError>)
        requires
            old(self).wf(),
        ensures
            final(self).wf(),
            r is Err ==> *final(self) == *old(self),
            r is Ok <==> old(self).config is Some && caller == old(self).config->Some_0.admin
                && i64::MIN <= scout_score_of(old(self).scouts@, user) + delta <= i64::MAX,
            r is Err ==> r->Err_0 == (if old(self).config is None {
                SuperfanError::AccountNotFound
            } else if caller != old(self).config->Some_0.admin {
                SuperfanError::Unauthorized
            } else {
                SuperfanError::MathOverflow
            }),
            r matches Ok(ev) ==> {
                let new_score = scout_score_of(old(self).scouts@, user) + delta;
                &&& has_scout(final(self).scouts@, user)
                &&& scout_at(final(self).scouts@, user) == (ScoutRegistry {
                    user,
                    score: new_score as i64,
                })
                &&& ev == (crate::events::ReputationUpdated {
                    user,
                    new_score: new_score as i64,
                })
                &&& final(self).scouts@.len() == (if has_scout(old(self).scouts@, user) {
                    old(self).scouts@.len()
                } else {
                    old(self).scouts@.len() + 1
                })
                &&& forall|u: AccountId|
                    u != user ==> (has_scout(final(self).scouts@, u) <==> has_scout(
                        old(self).scouts@,
                        u,
                    ))
                &&& forall|u: AccountId|
                    u != user && has_scout(old(self).scouts@, u) ==> scout_at(
                        final(self).scouts@,
                        u,
                    ) == scout_at(old(self).scouts@, u)
                &&& final(self).config == old(self).config
                &&& final(self).sponsors@ == old(self).sponsors@
                &&& final(self).counters@ == old(self).counters@
                &&& final(self).markets@ == old(self).markets@
                &&& final(self).pools@ == old(self).pools@
                &&& final(self).positions@ == old(self).positions@
                &&& final(self).signals@ == old(self).signals@
            },
    {
        let cfg = match self.config {
            Some(c) => c,
            None => {
                return Err(SuperfanError::AccountNotFound);
            },
        };
        let found = self.find_scout(user);
        let mut registry = match found {
            Some(i) => self.scouts[i],
            None => ScoutRegistry { user, score: 0 },
        };
        proof {
            if found is Some {
                lemma_scout_at_index(self.scouts@, found->Some_0 as int);
            }
        }
        let res = crate::reputation::update_reputation(&cfg, &mut registry, caller, delta);
        let event = match res {
            Ok(ev) => ev,
            Err(e) => {
                return Err(e);
            },
        };
        match found {
            Some(i) => {
                self.scouts[i] = registry;
                proof {
                    let t = self.scouts@;
                    let s = old(self).scouts@;
                    assert forall|a: int, b: int|
                        0 <= a < b < t.len() implies t[a].user != t[b].user by {
                        assert(s[a].user != s[b].user);
                    }
                    lemma_scout_at_index(t, i as int);
                    assert forall|u: AccountId| u != user && has_scout(s, u) implies has_scout(
                        t,
                        u,
                    ) && scout_at(t, u) == scout_at(s, u) by {
                        let a = choose|a: int| 0 <= a < s.len() && s[a].user == u;
                        assert(t[a] == s[a]);
                        lemma_scout_at_index(t, a);
                        lemma_scout_at_index(s, a);
                    }
                    assert forall|u: AccountId| u != user && has_scout(t, u) implies has_scout(
                        s,
                        u,
                    ) by {
                        let a = choose|a: int| 0 <= a < t.len() && t[a].user == u;
                        assert(s[a] == t[a]);
                    }
                }
            },
            None => {
                self.scouts.push(registry);
                proof {
                    let t = self.scouts@;
                    let s = old(self).scouts@;
                    assert forall|a: int, b: int|
                        0 <= a < b < t.len() implies t[a].user != t[b].user by {
                        if b < s.len() {
                            assert(s[a].user != s[b].user);
                        } else {
                            assert(t[a] == s[a]);
                        }
                    }
                    lemma_scout_at_index(t, t.len() - 1);
                    assert forall|u: AccountId| u != user && has_scout(s, u) implies has_scout(
                        t,
                        u,
                    ) && scout_at(t, u) == scout_at(s, u) by {
                        let a = choose|a: int| 0 <= a < s.len() && s[a].user == u;
                        assert(t[a] == s[a]);
                        lemma_scout_at_index(t, a);
                        lemma_scout_at_index(s, a);
                    }
                    assert forall|u: AccountId| u != user && has_scout(t, u) implies has_scout(
                        s,
                        u,
                    ) by {
                        let a = choose|a: int| 0 <= a < t.len() && t[a].user == u;
                        assert(a < s.len());
                        assert(s[a] == t[a]);
                    }
                }
            },
        }
        Ok(event)
    }

    /// Record the write-once signal commitment for the market at
    /// `market_key`. Only the market's sponsor's authority may commit, a
    /// second commitment for the same market finds the address taken, and a
    /// failed attempt creates no records.
    pub fn submit_signal_commitment(
        &mut self,
        caller: AccountId,
        market_key: AccountId,
        commitment_root: [u8; 32],
        now: i64,
    ) -> (r: Result<crate::events::SignalCommitted, SuperfanError>)
        requires
            old(self).wf(),
        ensures
            final(self).wf(),
            r is Err ==> *final(self) == *old(self),
            r is Ok <==> has_market(old(self).markets@, market_key) && {
                let m = market_at(old(self).markets@, market_key);
                &&& caller == sponsor_at(old(self).sponsors@, m.sponsor).authority
                &&& !has_signal(old(self).signals@, market_key)
            },
            r is Err ==> r->Err_0 == (if !has_market(old(self).markets@, market_key) {
                SuperfanError::AccountNotFound
            } else {
                let m = market_at(old(self).markets@, market_key);
                if caller != sponsor_at(old(self).sponsors@, m.sponsor).authority {
                    SuperfanError::Unauthorized
                } else {
                    SuperfanError::AccountAlreadyExists
                }
            }),
            r matches Ok(ev) ==> {
                &&& final(self).signals@ == old(self).signals@.push(
                    SignalCommitment { market: market_key, commitment_root, recorded_at: now },
                )
                &&& has_signal(final(self).signals@, market_key)
                &&& ev == (crate::events::SignalCommitted {
                    market: market_key,
                    commitment_root,
                    recorded_at: now,
                })
                &&& final(self).config == old(self).config
                &&& final(self).sponsors@ == old(self).sponsors@
                &&& final(self).counters@ == old(self).counters@
                &&& final(self).markets@ == old(self).markets@
                &&& final(self).pools@ == old(self).pools@
                &&& final(self).positions@ == old(self).positions@
                &&& final(self).scouts@ == old(self).scouts@
            },
    {
        let (mi, si) = match self.find_market_and_sponsor(market_key) {
            Some(x) => x,
            None => {
                return Err(SuperfanError::AccountNotFound);
            },
        };
        let sponsor = self.sponsors[si];
        let market = self.markets[mi];
        let submitted = crate::signal::submit_signal_commitment(
            &sponsor,
            &market,
            caller,
            commitment_root,
            now,
        );
        let (commitment, event) = match submitted {
            Ok(x) => x,
            Err(e) => {
                return Err(e);
            },
        };
        if self.find_signal(market_key).is_some() {
            return Err(SuperfanError::AccountAlreadyExists);
        }
        proof {
            assert(commitment.market == market_key);
        }
        self.signals.push(commitment);
        proof {
            let t = self.signals@;
            let s = old(self).signals@;
            assert forall|a: int, b: int|
                0 <= a < b < t.len() implies t[a].market != t[b].market by {
                if b < s.len() {
                    assert(s[a].market != s[b].market);
                } else {
                    assert(t[a] == s[a]);
                }
            }
            assert(t[t.len() - 1].market == market_key);
        }
        Ok(event)
    }
}

/// Replacing a pool with a well-formed one of the same sponsor keeps the
/// pools keyed and well formed.
proof fn lemma_pools_ok_update(s: Seq<LiquidityPool>, pi: int, p: LiquidityPool)
    requires
        pools_ok(s),
        0 <= pi < s.len(),
        p.sponsor == s[pi].sponsor,
        p.wf(),
    ensures
        pools_ok(s.update(pi, p)),
{
    let t = s.update(pi, p);
    assert forall|i: int, j: int|
        0 <= i < j < t.len() implies t[i].address() != t[j].address() by {
        assert(t[i].address() == s[i].address());
        assert(t[j].address() == s[j].address());
        assert(s[i].address() != s[j].address());
    }
    assert forall|i: int| 0 <= i < t.len() implies (#[trigger] t[i]).wf() by {
        if i != pi {
            assert(s[i].wf());
        }
    }
}

/// Removing a position keeps the positions keyed and well formed, the removed
/// key is gone, and every other key is untouched.
proof fn lemma_positions_remove(s: Seq<Position>, pi: int)
    requires
        positions_ok(s),
        0 <= pi < s.len(),
    ensures
        positions_ok(s.remove(pi)),
        s.remove(pi).len() == s.len() - 1,
        !has_position(s.remove(pi), s[pi].market, s[pi].user),
        forall|k: AccountId, u: AccountId|
            has_position(s.remove(pi), k, u) ==> has_position(s, k, u),
        forall|k: AccountId, u: AccountId|
            !(k == s[pi].market && u == s[pi].user) && has_position(s, k, u) ==> has_position(
                s.remove(pi),
                k,
                u,
            ),
{
    s.remove_ensures(pi);
    let t = s.remove(pi);
    assert forall|i: int, j: int|
        0 <= i < j < t.len() implies !(t[i].market == t[j].market && t[i].user
        == t[j].user) by {
        let a: int = if i < pi {
            i
        } else {
            i + 1
        };
        let b: int = if j < pi {
            j
        } else {
            j + 1
        };
        assert(t[i] == s[a]);
        assert(t[j] == s[b]);
        assert(!(s[a].market == s[b].market && s[a].user == s[b].user));
    }
    assert forall|i: int| 0 <= i < t.len() implies (#[trigger] t[i]).wf() by {
        let a: int = if i < pi {
            i
        } else {
            i + 1
        };
        assert(t[i] == s[a]);
        assert(s[a].wf());
    }
    if has_position(t, s[pi].market, s[pi].user) {
        let i = choose|i: int|
            0 <= i < t.len() && t[i].market == s[pi].market && t[i].user == s[pi].user;
        let a: int = if i < pi {
            i
        } else {
            i + 1
        };
        assert(t[i] == s[a]);
        if a < pi {
            assert(!(s[a].market == s[pi].market && s[a].user == s[pi].user));
        } else {
            assert(!(s[pi].market == s[a].market && s[pi].user == s[a].user));
        }
    }
    assert forall|k: AccountId, u: AccountId| has_position(t, k, u) implies has_position(
        s,
        k,
        u,
    ) by {
        let i = choose|i: int| 0 <= i < t.len() && t[i].market == k && t[i].user == u;
        let a: int = if i < pi {
            i
        } else {
            i + 1
        };
        assert(t[i] == s[a]);
        assert(0 <= a < s.len() && s[a].market == k && s[a].user == u);
    }
    assert forall|k: AccountId, u: AccountId|
        !(k == s[pi].market && u == s[pi].user) && has_position(s, k, u) implies has_position(
        t,
        k,
        u,
    ) by {
        let a = choose|a: int| 0 <= a < s.len() && s[a].market == k && s[a].user == u;
        assert(a != pi);
        let i: int = if a < pi {
            a
        } else {
            a - 1
        };
        assert(t[i] == s[a]);
        assert(0 <= i < t.len() && t[i].market == k && t[i].user == u);
    }
}

impl Ledger {
    /// Run the settlement pass of the resolved market at `market_key`: pay
    /// every open position of the market its outcome-dependent redemption
    /// from the pool's vault — winning stakes in full after a Yes resolution,
    /// nothing after a No resolution, the forfeited stakes staying in the
    /// vault — release the settled stake, drop the settled positions, and
    /// mark the market's payout pass as completed. Only the administrator may
    /// distribute, and the pass runs exactly once: a second attempt fails and
    /// pays nothing.
    pub fn distribute_payouts(&mut self, caller: AccountId, market_key: AccountId) -> (r: Result<
        Vec<TokenTransfer>,
        SuperfanError,
    >)
        requires
            old(self).wf(),
        ensures
            final(self).wf(),
            r is Err ==> *final(self) == *old(self),
            r is Ok <==> old(self).config is Some && has_market(old(self).markets@, market_key)
                && {
                let m = market_at(old(self).markets@, market_key);
                &&& has_pool(old(self).pools@, m.liquidity_pool)
                &&& caller == old(self).config->Some_0.admin
                &&& m.status is Resolved
                &&& !m.payouts_distributed
            },
            r is Err ==> r->Err_0 == (if old(self).config is None || !has_market(
                old(self).markets@,
                market_key,
            ) {
                SuperfanError::AccountNotFound
            } else {
                let m = market_at(old(self).markets@, market_key);
                if !has_pool(old(self).pools@, m.liquidity_pool) {
                    SuperfanError::AccountNotFound
                } else if caller != old(self).config->Some_0.admin {
                    SuperfanError::Unauthorized
                } else {
                    SuperfanError::InvalidStatus
                }
            }),
            r matches Ok(ts) ==> {
                let m = market_at(old(self).markets@, market_key);
                let p = pool_at(old(self).pools@, m.liquidity_pool);
                &&& ts@ == crate::payouts::payouts_of(old(self).positions@, m, p.vault)
                &&& final(self).positions@ == crate::payouts::kept_positions(
                    old(self).positions@,
                    market_key,
                )
                &&& forall|u: AccountId| !has_position(final(self).positions@, market_key, u)
                &&& forall|k: AccountId, u: AccountId|
                    has_position(final(self).positions@, k, u) ==> has_position(
                        old(self).positions@,
                        k,
                        u,
                    )
                &&& forall|k: AccountId, u: AccountId|
                    k != market_key && has_position(old(self).positions@, k, u) ==> has_position(
                        final(self).positions@,
                        k,
                        u,
                    )
                &&& final(self).markets@.len() == old(self).markets@.len()
                &&& has_market(final(self).markets@, market_key)
                &&& market_at(final(self).markets@, market_key) == (Market {
                    payouts_distributed: true,
                    ..m
                })
                &&& forall|i: int|
                    0 <= i < old(self).markets@.len() && old(self).markets@[i].address()
                        != market_key ==> final(self).markets@[i] == old(self).markets@[i]
                &&& final(self).pools@.len() == old(self).pools@.len()
                &&& has_pool(final(self).pools@, m.liquidity_pool)
                &&& pool_at(final(self).pools@, m.liquidity_pool) == (LiquidityPool {
                    locked: crate::payouts::sub_floored(
                        p.locked,
                        crate::payouts::staked_total(old(self).positions@, market_key),
                    ),
                    ..p
                })
                &&& forall|i: int|
                    0 <= i < old(self).pools@.len() && old(self).pools@[i].address()
                        != m.liquidity_pool ==> final(self).pools@[i] == old(self).pools@[i]
                &&& final(self).config == old(self).config
                &&& final(self).sponsors@ == old(self).sponsors@
                &&& final(self).counters@ == old(self).counters@
                &&& final(self).scouts@ == old(self).scouts@
                &&& final(self).signals@ == old(self).signals@
            },
    {
        let cfg = match self.config {
            Some(c) => c,
            None => {
                return Err(SuperfanError::AccountNotFound);
            },
        };
        let mi = match self.find_market(market_key) {
            Some(i) => i,
            None => {
                return Err(SuperfanError::AccountNotFound);
            },
        };
        proof {
            lemma_market_at_index(self.markets@, mi as int);
        }
        let mut market = self.markets[mi];
        let pi = match self.find_pool(market.liquidity_pool) {
            Some(i) => i,
            None => {
                return Err(SuperfanError::AccountNotFound);
            },
        };
        proof {
            lemma_pool_at_index(self.pools@, pi as int);
        }
        if let Err(e) = crate::config::require_admin(&cfg, caller) {
            return Err(e);
        }
        if !matches!(market.status, crate::state::MarketStatus::Resolved) {
            return Err(SuperfanError::InvalidStatus);
        }
        if market.payouts_distributed {
            return Err(SuperfanError::InvalidStatus);
        }
        let mut pool = self.pools[pi];
        let transfers = crate::payouts::settle_positions(&market, &mut pool, &mut self.positions);
        market.payouts_distributed = true;
        self.markets[mi] = market;
        self.pools[pi] = pool;
        proof {
            lemma_markets_ok_update(old(self).markets@, mi as int, market);
            lemma_pools_ok_update(old(self).pools@, pi as int, pool);
            lemma_kept_positions_ok(old(self).positions@, market_key);
            assert forall|i: int, j: int|
                0 <= i < self.markets@.len() && 0 <= j < self.counters@.len()
                    && self.markets@[i].sponsor == self.counters@[j].sponsor implies self.markets@[i].market_id
                < self.counters@[j].next_market_id by {
                assert(self.markets@[i].sponsor == old(self).markets@[i].sponsor);
                assert(self.markets@[i].market_id == old(self).markets@[i].market_id);
            }
            assert forall|i: int| 0 <= i < self.markets@.len() implies has_sponsor(
                self.sponsors@,
                (#[trigger] self.markets@[i]).sponsor,
            ) by {
                assert(self.markets@[i].sponsor == old(self).markets@[i].sponsor);
                assert(has_sponsor(old(self).sponsors@, old(self).markets@[i].sponsor));
            }
            lemma_market_at_index(self.markets@, mi as int);
            lemma_pool_at_index(self.pools@, pi as int);
        }
        Ok(transfers)
    }
}

/// Replacing a market with a well-formed one at the same address keeps the
/// markets keyed and well formed.
proof fn lemma_markets_ok_update(s: Seq<Market>, mi: int, m: Market)
    requires
        markets_ok(s),
        0 <= mi < s.len(),
        m.address() == s[mi].address(),
        m.wf(),
    ensures
        markets_ok(s.update(mi, m)),
{
    let t = s.update(mi, m);
    assert forall|i: int, j: int|
        0 <= i < j < t.len() implies t[i].address() != t[j].address() by {
        assert(t[i].address() == s[i].address());
        assert(t[j].address() == s[j].address());
        assert(s[i].address() != s[j].address());
    }
    assert forall|i: int| 0 <= i < t.len() implies (#[trigger] t[i]).wf() by {
        if i != mi {
            assert(s[i].wf());
        }
    }
}

/// A settlement pass keeps the positions keyed and well formed, leaves no
/// position of the settled market behind, and touches no other market's
/// positions.
proof fn lemma_kept_positions_ok(s: Seq<Position>, key: AccountId)
    requires
        positions_ok(s),
    ensures
        positions_ok(crate::payouts::kept_positions(s, key)),
        forall|k: AccountId, u: AccountId|
            has_position(crate::payouts::kept_positions(s, key), k, u) ==> has_position(s, k, u),
        forall|u: AccountId| !has_position(crate::payouts::kept_positions(s, key), key, u),
        forall|k: AccountId, u: AccountId|
            k != key && has_position(s, k, u) ==> has_position(
                crate::payouts::kept_positions(s, key),
                k,
                u,
            ),
    decreases s.len(),
{
    let kept = crate::payouts::kept_positions(s, key);
    if s.len() == 0 {
        assert forall|k: AccountId, u: AccountId| !has_position(kept, k, u) by {
            assert(kept.len() == 0);
        }
    } else {
        let t = s.drop_last();
        let last = s.last();
        assert(positions_ok(t)) by {
            assert forall|i: int| 0 <= i < t.len() implies (#[trigger] t[i]).wf() by {
                assert(t[i] == s[i]);
                assert(s[i].wf());
            }
            assert forall|i: int, j: int|
                0 <= i < j < t.len() implies !(t[i].market == t[j].market && t[i].user
                == t[j].user) by {
                assert(t[i] == s[i] && t[j] == s[j]);
                assert(!(s[i].market == s[j].market && s[i].user == s[j].user));
            }
        }
        lemma_kept_positions_ok(t, key);
        let kt = crate::payouts::kept_positions(t, key);
        assert(last == s[s.len() - 1]);
        assert(last.wf()) by {
            assert(s[s.len() - 1].wf());
        }
        assert forall|k: AccountId, u: AccountId| has_position(t, k, u) implies has_position(
            s,
            k,
            u,
        ) by {
            let a = choose|a: int| 0 <= a < t.len() && t[a].market == k && t[a].user == u;
            assert(s[a] == t[a]);
        }
        if last.market != key {
            assert(kept == kt.push(last));
            // The appended position's key is fresh in the kept prefix: a
            // duplicate there would lift to a duplicate in the whole arena.
            assert(!has_position(kt, last.market, last.user)) by {
                if has_position(kt, last.market, last.user) {
                    assert(has_position(t, last.market, last.user));
                    let a = choose|a: int|
                        0 <= a < t.len() && t[a].market == last.market && t[a].user == last.user;
                    assert(s[a] == t[a]);
                    assert(!(s[a].market == s[s.len() - 1].market && s[a].user == s[s.len()
                        - 1].user));
                }
            }
            assert forall|i: int, j: int|
                0 <= i < j < kept.len() implies !(kept[i].market == kept[j].market
                && kept[i].user == kept[j].user) by {
                if j < kt.len() {
                    assert(kept[i] == kt[i] && kept[j] == kt[j]);
                    assert(!(kt[i].market == kt[j].market && kt[i].user == kt[j].user));
                } else {
                    assert(kept[i] == kt[i] && kept[j] == last);
                    if kt[i].market == last.market && kt[i].user == last.user {
                        assert(has_position(kt, last.market, last.user));
                    }
                }
            }
            assert forall|i: int| 0 <= i < kept.len() implies (#[trigger] kept[i]).wf() by {
                if i < kt.len() {
                    assert(kept[i] == kt[i]);
                    assert(kt[i].wf());
                } else {
                    assert(kept[i] == last);
                }
            }
            assert forall|k: AccountId, u: AccountId| has_position(kept, k, u) implies
                has_position(s, k, u) by {
                let i = choose|i: int|
                    0 <= i < kept.len() && kept[i].market == k && kept[i].user == u;
                if i < kt.len() {
                    assert(kept[i] == kt[i]);
                    assert(has_position(kt, k, u));
                    assert(has_position(t, k, u));
                } else {
                    assert(kept[i] == last);
                    assert(s[s.len() - 1].market == k && s[s.len() - 1].user == u);
                }
            }
            assert forall|u: AccountId| !has_position(kept, key, u) by {
                if has_position(kept, key, u) {
                    let i = choose|i: int|
                        0 <= i < kept.len() && kept[i].market == key && kept[i].user == u;
                    if i < kt.len() {
                        assert(kept[i] == kt[i]);
                        assert(has_position(kt, key, u));
                    } else {
                        assert(kept[i] == last);
                    }
                }
            }
            assert forall|k: AccountId, u: AccountId|
                k != key && has_position(s, k, u) implies has_position(kept, k, u) by {
                let a = choose|a: int| 0 <= a < s.len() && s[a].market == k && s[a].user == u;
                if a == s.len() - 1 {
                    assert(kept[kt.len() as int] == last);
                    assert(kept[kt.len() as int].market == k && kept[kt.len() as int].user == u);
                } else {
                    assert(t[a] == s[a]);
                    assert(has_position(t, k, u));
                    assert(has_position(kt, k, u));
                    let i = choose|i: int|
                        0 <= i < kt.len() && kt[i].market == k && kt[i].user == u;
                    assert(kept[i] == kt[i]);
                }
            }
        } else {
            assert(kept == kt);
            assert forall|k: AccountId, u: AccountId|
                k != key && has_position(s, k, u) implies has_position(kept, k, u) by {
                let a = choose|a: int| 0 <= a < s.len() && s[a].market == k && s[a].user == u;
                assert(a != s.len() - 1);
                assert(t[a] == s[a]);
                assert(has_position(t, k, u));
            }
        }
    }
}

/// A sponsor found at `key` is still found after another record is appended.
proof fn lemma_has_sponsor_push(s: Seq<Sponsor>, x: Sponsor, key: AccountId)
    requires
        has_sponsor(s, key),
    ensures
        has_sponsor(s.push(x), key),
{
    let i = choose|i: int| 0 <= i < s.len() && s[i].address() == key;
    assert(s.push(x)[i] == s[i]);
}

/// With distinct addresses, the record found at an index is the record the
/// arena holds at that index's address.
proof fn lemma_sponsor_at_index(s: Seq<Sponsor>, i: int)
    requires
        forall|a: int, b: int| 0 <= a < b < s.len() ==> s[a].address() != s[b].address(),
        0 <= i < s.len(),
    ensures
        has_sponsor(s, s[i].address()),
        sponsor_at(s, s[i].address()) == s[i],
{
    assert(has_sponsor(s, s[i].address())) by {
        assert(0 <= i < s.len() && s[i].address() == s[i].address());
    }
    let j = choose|j: int| 0 <= j < s.len() && s[j].address() == s[i].address();
    if i < j {
        assert(s[i].address() != s[j].address());
    } else if j < i {
        assert(s[j].address() != s[i].address());
    }
}

/// With keyed counters, the counter found at an index is the counter of its
/// own sponsor key.
proof fn lemma_counter_at_index(s: Seq<SponsorMarketCounter>, i: int)
    requires
        forall|a: int, b: int| 0 <= a < b < s.len() ==> s[a].sponsor != s[b].sponsor,
        0 <= i < s.len(),
    ensures
        has_counter(s, s[i].sponsor),
        counter_at(s, s[i].sponsor) == s[i],
{
    assert(has_counter(s, s[i].sponsor)) by {
        assert(0 <= i < s.len() && s[i].sponsor == s[i].sponsor);
    }
    let j = choose|j: int| 0 <= j < s.len() && s[j].sponsor == s[i].sponsor;
    if i < j {
        assert(s[i].sponsor != s[j].sponsor);
    } else if j < i {
        assert(s[j].sponsor != s[i].sponsor);
    }
}

/// With distinct addresses, the market found at an index is the market the
/// arena holds at that index's address.
proof fn lemma_market_at_index(s: Seq<Market>, i: int)
    requires
        forall|a: int, b: int| 0 <= a < b < s.len() ==> s[a].address() != s[b].address(),
        0 <= i < s.len(),
    ensures
        has_market(s, s[i].address()),
        market_at(s, s[i].address()) == s[i],
{
    assert(has_market(s, s[i].address())) by {
        assert(0 <= i < s.len() && s[i].address() == s[i].address());
    }
    let j = choose|j: int| 0 <= j < s.len() && s[j].address() == s[i].address();
    if i < j {
        assert(s[i].address() != s[j].address());
    } else if j < i {
        assert(s[j].address() != s[i].address());
    }
}

/// With distinct addresses, the pool found at an index is the pool the arena
/// holds at that index's address.
proof fn lemma_pool_at_index(s: Seq<LiquidityPool>, i: int)
    requires
        forall|a: int, b: int| 0 <= a < b < s.len() ==> s[a].address() != s[b].address(),
        0 <= i < s.len(),
    ensures
        has_pool(s, s[i].address()),
        pool_at(s, s[i].address()) == s[i],
{
    assert(has_pool(s, s[i].address())) by {
        assert(0 <= i < s.len() && s[i].address() == s[i].address());
    }
    let j = choose|j: int| 0 <= j < s.len() && s[j].address() == s[i].address();
    if i < j {
        assert(s[i].address() != s[j].address());
    } else if j < i {
        assert(s[j].address() != s[i].address());
    }
}

/// With keyed positions, the position found at an index is the position of
/// its own (market, user) key.
proof fn lemma_position_at_index(s: Seq<Position>, i: int)
    requires
        forall|a: int, b: int|
            0 <= a < b < s.len() ==> !(s[a].market == s[b].market && s[a].user == s[b].user),
        0 <= i < s.len(),
    ensures
        has_position(s, s[i].market, s[i].user),
        position_at(s, s[i].market, s[i].user) == s[i],
{
    assert(has_position(s, s[i].market, s[i].user)) by {
        assert(0 <= i < s.len() && s[i].market == s[i].market && s[i].user == s[i].user);
    }
    let j = choose|j: int|
        0 <= j < s.len() && s[j].market == s[i].market && s[j].user == s[i].user;
    if i < j {
        assert(!(s[i].market == s[j].market && s[i].user == s[j].user));
    } else if j < i {
        assert(!(s[j].market == s[i].market && s[j].user == s[i].user));
    }
}

/// With keyed scouts, the scout found at an index is the scout of its own
/// user key.
proof fn lemma_scout_at_index(s: Seq<ScoutRegistry>, i: int)
    requires
        forall|a: int, b: int| 0 <= a < b < s.len() ==> s[a].user != s[b].user,
        0 <= i < s.len(),
    ensures
        has_scout(s, s[i].user),
        scout_at(s, s[i].user) == s[i],
{
    assert(has_scout(s, s[i].user)) by {
        assert(0 <= i < s.len() && s[i].user == s[i].user);
    }
    let j = choose|j: int| 0 <= j < s.len() && s[j].user == s[i].user;
    if i < j {
        assert(s[i].user != s[j].user);
    } else if j < i {
        assert(s[j].user != s[i].user);
    }
}

} // verus!
