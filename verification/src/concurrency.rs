//! Optimistic concurrency control: an update names the version it was made
//! from and goes through only if that version is still the current one.

use vstd::prelude::*;
use crate::error::Error;

verus! {

/// The verdict on an update and the version it leads to. A stale token is a
/// conflict. A matching token leads to the next version; the last version
/// that a `u64` can count has no next one, and the update is refused as a
/// failure of the store.
pub open spec fn apply_update_spec(current_version: u64, expected_version: u64) -> Result<
    u64,
    Error,
> {
    if expected_version != current_version {
        Err(Error::Conflict)
    } else if current_version == u64::MAX {
        Err(Error::InfrastructureFailure)
    } else {
        Ok((current_version + 1) as u64)
    }
}

/// Compares the version an update was made from with the current one and
/// gives the version that the update produces.
pub fn apply_update(current_version: u64, expected_version: u64) -> (verdict: Result<u64, Error>)
    ensures
        verdict == apply_update_spec(current_version, expected_version),
        verdict is Ok ==> verdict->Ok_0 == current_version + 1,
        verdict == Err::<u64, Error>(Error::Conflict) <==> expected_version != current_version,
{
    if expected_version != current_version {
        Err(Error::Conflict)
    } else if current_version == u64::MAX {
        Err(Error::InfrastructureFailure)
    } else {
        Ok(current_version + 1)
    }
}

} // verus!
