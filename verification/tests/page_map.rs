use state_manager::page_map::{
    check_switch_to_checkpoint, flush_page_maps, get_dirty_pages, BitcoinPageMap,
    BitcoinPageMaps, CanisterPageMaps, DirtyPageMap, ExecutionPageMaps, FileType, PageMapInfo,
    PageMapType, StatePageMaps, SwitchError, TipRequest,
};

fn page_map(base_height: Option<u64>, delta: Vec<u64>) -> PageMapInfo {
    PageMapInfo {
        base_height,
        page_delta_indices: delta,
        round_delta_is_empty: true,
        has_stripped_round_deltas: true,
    }
}

fn canister(id: u64, binary: u8, wasm: PageMapInfo, stable: PageMapInfo) -> CanisterPageMaps {
    CanisterPageMaps {
        canister_id: id,
        execution_state: Some(ExecutionPageMaps {
            wasm_memory: wasm,
            wasm_memory_size: 3,
            stable_memory: stable,
            wasm_binary_hash: vec![binary],
        }),
    }
}

fn bitcoin() -> BitcoinPageMaps {
    BitcoinPageMaps {
        utxos_small: page_map(Some(5), vec![1]),
        utxos_medium: page_map(None, vec![]),
        address_outpoints: page_map(Some(5), vec![]),
    }
}

fn state() -> StatePageMaps {
    StatePageMaps {
        canisters: vec![
            canister(1, 11, page_map(Some(5), vec![0, 2]), page_map(None, vec![7])),
            CanisterPageMaps { canister_id: 2, execution_state: None },
            canister(3, 33, page_map(Some(4), vec![]), page_map(Some(5), vec![9])),
        ],
        bitcoin: bitcoin(),
    }
}

#[test]
fn list_all_names_the_memories_of_running_canisters_and_of_bitcoin() {
    assert_eq!(
        PageMapType::list_all(&state()),
        vec![
            PageMapType::WasmMemory(1),
            PageMapType::StableMemory(1),
            PageMapType::WasmMemory(3),
            PageMapType::StableMemory(3),
            PageMapType::Bitcoin(BitcoinPageMap::UtxosSmall),
            PageMapType::Bitcoin(BitcoinPageMap::UtxosMedium),
            PageMapType::Bitcoin(BitcoinPageMap::AddressOutpoints),
        ]
    );
}

#[test]
fn get_finds_the_memory_that_is_named() {
    let s = state();
    assert_eq!(PageMapType::StableMemory(3).get(&s).unwrap().page_delta_indices, vec![9]);
    assert_eq!(PageMapType::WasmMemory(1).get(&s).unwrap().page_delta_indices, vec![0, 2]);
    assert!(PageMapType::WasmMemory(2).get(&s).is_none());
    assert!(PageMapType::WasmMemory(9).get(&s).is_none());
    assert_eq!(
        PageMapType::Bitcoin(BitcoinPageMap::UtxosSmall).get(&s).unwrap().base_height,
        Some(5)
    );
}

fn dirty(height: u64, file_type: FileType, pages: Vec<u64>) -> DirtyPageMap {
    DirtyPageMap { height, file_type, page_delta_indices: pages }
}

#[test]
fn dirty_pages_without_a_previous_snapshot() {
    let pages = get_dirty_pages(&state(), None);
    assert_eq!(
        pages,
        vec![
            dirty(5, FileType::PageMap(PageMapType::WasmMemory(1)), vec![0, 2]),
            dirty(4, FileType::PageMap(PageMapType::WasmMemory(3)), vec![]),
            dirty(5, FileType::PageMap(PageMapType::StableMemory(3)), vec![9]),
            dirty(5, FileType::PageMap(PageMapType::Bitcoin(BitcoinPageMap::UtxosSmall)), vec![1]),
            dirty(
                5,
                FileType::PageMap(PageMapType::Bitcoin(BitcoinPageMap::AddressOutpoints)),
                vec![]
            ),
        ]
    );
}

#[test]
fn dirty_pages_list_the_unchanged_binaries() {
    let previous = StatePageMaps {
        canisters: vec![
            canister(1, 11, page_map(None, vec![]), page_map(None, vec![])),
            canister(2, 22, page_map(None, vec![]), page_map(None, vec![])),
            canister(3, 99, page_map(None, vec![]), page_map(None, vec![])),
        ],
        bitcoin: bitcoin(),
    };
    let pages = get_dirty_pages(&state(), Some((5, &previous)));
    assert_eq!(pages.len(), 6);
    assert_eq!(pages[5], dirty(5, FileType::WasmBinary(1), vec![]));
}

#[test]
fn flush_truncates_new_memories_and_flushes_round_deltas() {
    let mut s = state();
    {
        let execution = s.canisters[0].execution_state.as_mut().unwrap();
        // A new memory that was never flushed and has pages of this round.
        execution.stable_memory.has_stripped_round_deltas = false;
        execution.stable_memory.round_delta_is_empty = false;
        // An old memory with pages of this round.
        execution.wasm_memory.round_delta_is_empty = false;
    }
    // A new memory without pages of this round.
    s.bitcoin.utxos_medium.has_stripped_round_deltas = false;
    assert_eq!(
        flush_page_maps(&s, 8),
        vec![
            TipRequest::FlushRoundDelta { height: 8, page_map_type: PageMapType::WasmMemory(1) },
            TipRequest::TruncatePageMapsPath {
                height: 8,
                page_map_type: PageMapType::StableMemory(1)
            },
            TipRequest::FlushRoundDelta { height: 8, page_map_type: PageMapType::StableMemory(1) },
            TipRequest::TruncatePageMapsPath {
                height: 8,
                page_map_type: PageMapType::Bitcoin(BitcoinPageMap::UtxosMedium)
            },
        ]
    );
    assert_eq!(flush_page_maps(&state(), 8), vec![]);
}

#[test]
fn the_tip_goes_on_from_a_checkpoint_of_the_same_shape() {
    assert_eq!(check_switch_to_checkpoint(&state(), &state()), Ok(()));
    let mut other = state();
    other.canisters[2].execution_state.as_mut().unwrap().wasm_memory_size = 4;
    assert_eq!(
        check_switch_to_checkpoint(&state(), &other),
        Err(SwitchError::MemorySizeDiffers { canister_id: 3 })
    );
    let mut other = state();
    other.canisters[1].execution_state = state().canisters[0].execution_state.clone();
    assert_eq!(check_switch_to_checkpoint(&state(), &other), Err(SwitchError::PageMapsDiffer));
    let mut other = state();
    other.canisters[1].canister_id = 7;
    assert_eq!(check_switch_to_checkpoint(&state(), &other), Err(SwitchError::CanistersDiffer));
}

#[test]
fn a_canister_must_run_in_both_states_or_in_neither() {
    let running = canister(1, 11, page_map(None, vec![]), page_map(None, vec![]));
    let stopped = CanisterPageMaps { canister_id: 1, execution_state: None };
    let tip = StatePageMaps { canisters: vec![running.clone(), stopped.clone()], bitcoin: bitcoin() };
    let src = StatePageMaps { canisters: vec![stopped, running], bitcoin: bitcoin() };
    assert_eq!(
        check_switch_to_checkpoint(&tip, &src),
        Err(SwitchError::ExecutionStateDiffers { canister_id: 1 })
    );
}
