//! Single-slot instance cache: at most one compiled model and settlement
//! context, keyed by auction id.  The caller must hold one mutual-exclusion
//! region spanning the lookup, any compilation, and the store, so that
//! concurrent solves for the same new auction id compile only once.

use vstd::prelude::*;

verus! {

use crate::model::{BatchAuctionModel, SettlementContext};

/// Data shared between solve attempts for the same auction id.
#[derive(Clone, Debug, PartialEq, Eq)]
pub struct InstanceData {
    pub solve_id: u64,
    pub model: BatchAuctionModel,
    pub context: SettlementContext,
}

/// Checks the slot for an entry with the requested auction id.  A hit is
/// returned exactly when the slot holds an entry for that id; any entry for
/// a different id is reported as a miss, so the caller recompiles.
pub fn cache_lookup<'a>(slot: &'a Option<InstanceData>, solve_id: u64) -> (r: Option<
    &'a InstanceData,
>)
    ensures
        match r {
            Some(d) => *slot == Some(*d) && d.solve_id == solve_id,
            None => match *slot {
                Some(d) => d.solve_id != solve_id,
                None => true,
            },
        },
{
    match slot {
        Some(data) => {
            if data.solve_id == solve_id {
                Some(data)
            } else {
                None
            }
        },
        None => None,
    }
}

/// Stores a freshly compiled entry, replacing any existing entry wholesale
/// — even one for a different, still-in-flight auction id.
pub fn cache_store(slot: &mut Option<InstanceData>, data: InstanceData)
    ensures
        *final(slot) == Some(data),
{
    *slot = Some(data);
}

} // verus!
