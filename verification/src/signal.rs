use vstd::prelude::*;

use crate::config::require_sponsor_authority;
use crate::errors::SuperfanError;
use crate::events::SignalCommitted;
use crate::identity::AccountId;
use crate::state::{Market, SignalCommitment, Sponsor};

verus! {

/// Record the write-once commitment to a market's off-chain oracle signal.
/// Only the sponsor's authority may commit; the record carries the 32-byte
/// commitment root and the recording time. Write-once-ness is enforced where
/// the record is stored: a second commitment finds the address taken.
/// Verifying revealed signal data against the root is outside the settlement
/// core.
pub fn submit_signal_commitment(
    sponsor: &Sponsor,
    market: &Market,
    caller: AccountId,
    commitment_root: [u8; 32],
    now: i64,
) -> (r: Result<(SignalCommitment, SignalCommitted), SuperfanError>)
    requires
        market.sponsor is SponsorAccount,
    ensures
        r is Ok <==> caller == sponsor.authority,
        r is Err ==> r->Err_0 == SuperfanError::Unauthorized,
        r matches Ok((c, ev)) ==> {
            &&& c == (SignalCommitment {
                market: market.address(),
                commitment_root,
                recorded_at: now,
            })
            &&& ev == (SignalCommitted {
                market: market.address(),
                commitment_root,
                recorded_at: now,
            })
        },
{
    let authorized = require_sponsor_authority(sponsor, caller);
    if let Err(e) = authorized {
        return Err(e);
    }
    let market_key = market.derived_address();
    let commitment = SignalCommitment { market: market_key, commitment_root, recorded_at: now };
    let event = SignalCommitted { market: market_key, commitment_root, recorded_at: now };
    Ok((commitment, event))
}

} // verus!
