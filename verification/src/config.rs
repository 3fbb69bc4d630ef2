use vstd::prelude::*;

use crate::errors::SuperfanError;
use crate::identity::AccountId;
use crate::state::{Sponsor, SponsorMarketCounter, SuperfanConfig};

verus! {

/// Capability check applied at the entry of every admin-gated operation:
/// only the configured administrator may proceed.
pub fn require_admin(config: &SuperfanConfig, caller: AccountId) -> (r: Result<
    (),
    SuperfanError,
>)
    ensures
        r is Ok <==> caller == config.admin,
        r is Err ==> r->Err_0 == SuperfanError::Unauthorized,
{
    if caller == config.admin {
        Ok(())
    } else {
        Err(SuperfanError::Unauthorized)
    }
}

/// Capability check applied at the entry of every sponsor-gated operation:
/// only the sponsor's authority wallet may act for the sponsor.
pub fn require_sponsor_authority(sponsor: &Sponsor, caller: AccountId) -> (r: Result<
    (),
    SuperfanError,
>)
    ensures
        r is Ok <==> caller == sponsor.authority,
        r is Err ==> r->Err_0 == SuperfanError::Unauthorized,
{
    if caller == sponsor.authority {
        Ok(())
    } else {
        Err(SuperfanError::Unauthorized)
    }
}

/// Create the process-wide configuration record. The one-time nature of the
/// bootstrap is enforced where the record is stored: a second initialization
/// finds the address taken.
pub fn initialize_config(max_sponsors: u32, usdc_mint: AccountId, admin: AccountId) -> (c:
    SuperfanConfig)
    ensures
        c == (SuperfanConfig { admin, usdc_mint, max_sponsors }),
{
    SuperfanConfig { admin, usdc_mint, max_sponsors }
}

/// Register a sponsor. Only the administrator may do so; on success the new
/// sponsor record carries the caller as its authority, and the sponsor's
/// market counter starts at 1. On failure nothing is created.
pub fn register_sponsor(config: &SuperfanConfig, caller: AccountId, name_hash: [u8; 32]) -> (r:
    Result<(Sponsor, SponsorMarketCounter), SuperfanError>)
    requires
        caller is Wallet,
    ensures
        r is Ok <==> caller == config.admin,
        r is Err ==> r->Err_0 == SuperfanError::Unauthorized,
        r matches Ok((s, c)) ==> {
            &&& s.authority == caller
            &&& s.name_hash == name_hash
            &&& s.wf()
            &&& caller matches AccountId::Wallet(a) ==> c.sponsor == AccountId::SponsorAccount(a)
            &&& c.sponsor == s.address()
            &&& c.next_market_id == 1
            &&& c.wf()
        },
{
    let authorized = require_admin(config, caller);
    if let Err(e) = authorized {
        return Err(e);
    }
    let sponsor = Sponsor { authority: caller, name_hash };
    let sponsor_key = match caller {
        AccountId::Wallet(a) => crate::identity::sponsor_address(a),
        _ => AccountId::SponsorAccount(0),
    };
    let counter = SponsorMarketCounter { sponsor: sponsor_key, next_market_id: 1 };
    Ok((sponsor, counter))
}

} // verus!
