use vstd::prelude::*;

use crate::config::require_admin;
use crate::errors::SuperfanError;
use crate::events::ReputationUpdated;
use crate::identity::AccountId;
use crate::state::{ScoutRegistry, SuperfanConfig};

verus! {

/// Apply a signed delta to a scout's reputation score. Only the administrator
/// may update reputations; the addition is checked and overflow aborts the
/// update with the registry unchanged. The score is a signed accumulator and
/// may go negative.
pub fn update_reputation(
    config: &SuperfanConfig,
    registry: &mut ScoutRegistry,
    caller: AccountId,
    delta: i64,
) -> (r: Result<ReputationUpdated, SuperfanError>)
    ensures
        r is Ok <==> caller == config.admin && i64::MIN <= old(registry).score + delta
            <= i64::MAX,
        r is Err ==> *final(registry) == *old(registry),
        r is Err ==> r->Err_0 == (if caller != config.admin {
            SuperfanError::Unauthorized
        } else {
            SuperfanError::MathOverflow
        }),
        r matches Ok(ev) ==> {
            &&& *final(registry) == (ScoutRegistry {
                score: (old(registry).score + delta) as i64,
                ..*old(registry)
            })
            &&& ev == (ReputationUpdated {
                user: old(registry).user,
                new_score: (old(registry).score + delta) as i64,
            })
        },
{
    let authorized = require_admin(config, caller);
    if let Err(e) = authorized {
        return Err(e);
    }
    let new_score = match registry.score.checked_add(delta) {
        Some(s) => s,
        None => {
            return Err(SuperfanError::MathOverflow);
        },
    };
    registry.score = new_score;
    let event = ReputationUpdated { user: registry.user, new_score };
    Ok(event)
}

} // verus!
