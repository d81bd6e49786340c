use solver::cache::{cache_lookup, cache_store, InstanceData};
use solver::compile::compile_model;
use solver::model::{BatchAuctionModel, SettlementContext};
use solver::orders::ExternalPrices;
use solver::rational::Rat;

// Compiles an (empty) auction, counting invocations as the mocked
// token-info and buffer services would observe them.
fn compile_counted(auction_id: u64, compilations: &mut usize) -> (BatchAuctionModel, SettlementContext) {
    *compilations += 1;
    compile_model(
        auction_id,
        vec![],
        vec![],
        &Rat { num: 1, den: 1 },
        &ExternalPrices { entries: vec![] },
        &vec![],
        &vec![],
        "env".to_string(),
        0,
    )
}

// One solve attempt against the shared slot, holding it for the whole
// check-then-store sequence.
fn solve_once(slot: &mut Option<InstanceData>, auction_id: u64, compilations: &mut usize) {
    if cache_lookup(slot, auction_id).is_some() {
        return;
    }
    let (model, context) = compile_counted(auction_id, compilations);
    cache_store(
        slot,
        InstanceData {
            solve_id: auction_id,
            model,
            context,
        },
    );
}

#[test]
fn second_solve_for_same_auction_reuses_the_compilation() {
    let mut slot: Option<InstanceData> = None;
    let mut compilations: usize = 0;
    solve_once(&mut slot, 1, &mut compilations);
    solve_once(&mut slot, 1, &mut compilations);
    assert_eq!(compilations, 1);
    assert_eq!(slot.as_ref().unwrap().solve_id, 1);
}

#[test]
fn different_auction_id_recompiles_and_replaces() {
    let mut slot: Option<InstanceData> = None;
    let mut compilations: usize = 0;
    solve_once(&mut slot, 1, &mut compilations);
    solve_once(&mut slot, 2, &mut compilations);
    assert_eq!(compilations, 2);
    // The entry was replaced wholesale: the first id now misses again.
    assert_eq!(slot.as_ref().unwrap().solve_id, 2);
    assert!(cache_lookup(&slot, 1).is_none());
    assert!(cache_lookup(&slot, 2).is_some());
}

#[test]
fn lookup_on_empty_slot_misses() {
    let slot: Option<InstanceData> = None;
    assert!(cache_lookup(&slot, 1).is_none());
}

#[test]
fn hit_returns_the_stored_entry() {
    let mut slot: Option<InstanceData> = None;
    let mut compilations: usize = 0;
    solve_once(&mut slot, 3, &mut compilations);
    let stored_model = slot.as_ref().unwrap().model.clone();
    let hit = cache_lookup(&slot, 3).unwrap();
    assert_eq!(hit.model, stored_model);
}
