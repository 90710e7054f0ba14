//! The paged memories of a state and what has changed in them.

use crate::height_map::Height;
use vstd::prelude::*;

verus! {

/// Identifies a canister.
pub type CanisterId = u64;

/// The position of a page in a paged memory.
pub type PageIndex = u64;

/// The paged memories of the Bitcoin state.
#[derive(Copy, Clone, Debug, PartialEq, Eq, Hash, PartialOrd, Ord, Structural)]
pub enum BitcoinPageMap {
    UtxosSmall,
    UtxosMedium,
    AddressOutpoints,
}

/// Names one paged memory of a state.
#[derive(Copy, Clone, Debug, PartialEq, Eq, Hash, PartialOrd, Ord, Structural)]
pub enum PageMapType {
    WasmMemory(CanisterId),
    StableMemory(CanisterId),
    Bitcoin(BitcoinPageMap),
}

/// Names one file of a checkpoint whose changes are tracked.
#[derive(Copy, Clone, Debug, PartialEq, Eq, Hash, PartialOrd, Ord, Structural)]
pub enum FileType {
    PageMap(PageMapType),
    WasmBinary(CanisterId),
}

/// The pages of one file that changed since the checkpoint at `height`.
#[derive(Clone, Debug, PartialEq, Eq, Hash, PartialOrd, Ord)]
pub struct DirtyPageMap {
    pub height: Height,
    pub file_type: FileType,
    pub page_delta_indices: Vec<PageIndex>,
}

/// The changed pages of all files of a state.
pub type DirtyPages = Vec<DirtyPageMap>;

} // verus!

verus! {

impl View for DirtyPageMap {
    type V = (Height, FileType, Seq<PageIndex>);

    /// The height, the file and the changed pages.
    open spec fn view(&self) -> (Height, FileType, Seq<PageIndex>) {
        (self.height, self.file_type, self.page_delta_indices@)
    }
}

/// What the store needs to know of one paged memory.
#[derive(Clone, Debug, PartialEq, Eq)]
pub struct PageMapInfo {
    /// The height of the checkpoint that backs the memory, if one does.
    pub base_height: Option<Height>,
    /// The pages that changed since that checkpoint, in increasing order.
    pub page_delta_indices: Vec<PageIndex>,
    /// Whether no page has changed in the current round.
    pub round_delta_is_empty: bool,
    /// Whether the changes of a round have been flushed before.
    pub has_stripped_round_deltas: bool,
}

/// The paged memories and the Wasm binary of a canister that can run.
#[derive(Clone, Debug, PartialEq, Eq)]
pub struct ExecutionPageMaps {
    pub wasm_memory: PageMapInfo,
    /// The size of the Wasm memory in Wasm pages.
    pub wasm_memory_size: u64,
    pub stable_memory: PageMapInfo,
    /// The hash of the Wasm binary.
    pub wasm_binary_hash: Vec<u8>,
}

/// What the store needs to know of one canister.
#[derive(Clone, Debug, PartialEq, Eq)]
pub struct CanisterPageMaps {
    pub canister_id: CanisterId,
    pub execution_state: Option<ExecutionPageMaps>,
}

/// The paged memories of the Bitcoin state.
#[derive(Clone, Debug, PartialEq, Eq)]
pub struct BitcoinPageMaps {
    pub utxos_small: PageMapInfo,
    pub utxos_medium: PageMapInfo,
    pub address_outpoints: PageMapInfo,
}

/// What the store needs to know of the paged memories of a state: its
/// canisters in the order of the state, and the Bitcoin state.
#[derive(Clone, Debug, PartialEq, Eq)]
pub struct StatePageMaps {
    pub canisters: Vec<CanisterPageMaps>,
    pub bitcoin: BitcoinPageMaps,
}

/// Work for the thread that owns the files of the tip.
#[derive(Clone, Copy, Debug, PartialEq, Eq, Structural)]
pub enum TipRequest {
    /// Truncate the file of the paged memory to size 0: the memory was
    /// replaced by a new one, and what the file holds is stale.
    TruncatePageMapsPath { height: Height, page_map_type: PageMapType },
    /// Write the pages that changed in the last round to the file of the
    /// paged memory.
    FlushRoundDelta { height: Height, page_map_type: PageMapType },
}

/// Why the tip cannot go on from a checkpoint.
#[derive(Clone, Copy, Debug, PartialEq, Eq, Structural)]
pub enum SwitchError {
    /// The two states do not have the same paged memories.
    PageMapsDiffer,
    /// The canisters at the same position are not the same canister.
    CanistersDiffer,
    /// The canister can run in one state and not in the other.
    ExecutionStateDiffers { canister_id: CanisterId },
    /// The Wasm memory of the canister has different sizes in the two states.
    MemorySizeDiffers { canister_id: CanisterId },
}

/// The canister with the id `id`, the last one where several have it.
pub open spec fn find_canister(canisters: Seq<CanisterPageMaps>, id: CanisterId) -> Option<
    CanisterPageMaps,
>
    decreases canisters.len(),
{
    if canisters.len() == 0 {
        None
    } else if canisters.last().canister_id == id {
        Some(canisters.last())
    } else {
        find_canister(canisters.drop_last(), id)
    }
}

/// The paged memories of the canisters: for each canister that can run, in
/// order, its Wasm memory and its stable memory.
pub open spec fn canister_page_maps(canisters: Seq<CanisterPageMaps>) -> Seq<PageMapType>
    decreases canisters.len(),
{
    if canisters.len() == 0 {
        Seq::empty()
    } else {
        let before = canister_page_maps(canisters.drop_last());
        let id = canisters.last().canister_id;
        if canisters.last().execution_state is Some {
            before.push(PageMapType::WasmMemory(id)).push(PageMapType::StableMemory(id))
        } else {
            before
        }
    }
}

/// All paged memories of a state: those of the canisters, then those of the
/// Bitcoin state.
pub open spec fn all_page_maps(state: StatePageMaps) -> Seq<PageMapType> {
    canister_page_maps(state.canisters@).push(
        PageMapType::Bitcoin(BitcoinPageMap::UtxosSmall),
    ).push(PageMapType::Bitcoin(BitcoinPageMap::UtxosMedium)).push(
        PageMapType::Bitcoin(BitcoinPageMap::AddressOutpoints),
    )
}

/// For every paged memory of `entries` that is backed by a checkpoint, the
/// pages that changed since that checkpoint.
pub open spec fn dirty_page_maps(entries: Seq<PageMapType>, state: StatePageMaps) -> Seq<
    (Height, FileType, Seq<PageIndex>),
>
    decreases entries.len(),
{
    if entries.len() == 0 {
        Seq::empty()
    } else {
        let before = dirty_page_maps(entries.drop_last(), state);
        match entries.last().page_map_of(state) {
            Some(page_map) => match page_map.base_height {
                Some(height) => before.push(
                    (height, FileType::PageMap(entries.last()), page_map.page_delta_indices@),
                ),
                None => before,
            },
            None => before,
        }
    }
}

/// Whether the canister can run and has the same Wasm binary in `previous`.
pub open spec fn binary_unchanged(canister: CanisterPageMaps, previous: StatePageMaps) -> bool {
    &&& canister.execution_state matches Some(execution)
        && find_canister(previous.canisters@, canister.canister_id) matches Some(before)
        && before.execution_state matches Some(execution_before)
        && execution.wasm_binary_hash@ == execution_before.wasm_binary_hash@
}

/// For every canister whose Wasm binary has not changed since the state
/// `previous` at `height`: that nothing of the binary has changed.
pub open spec fn unchanged_binaries(
    canisters: Seq<CanisterPageMaps>,
    height: Height,
    previous: StatePageMaps,
) -> Seq<(Height, FileType, Seq<PageIndex>)>
    decreases canisters.len(),
{
    if canisters.len() == 0 {
        Seq::empty()
    } else {
        let before = unchanged_binaries(canisters.drop_last(), height, previous);
        if binary_unchanged(canisters.last(), previous) {
            before.push(
                (height, FileType::WasmBinary(canisters.last().canister_id), Seq::empty()),
            )
        } else {
            before
        }
    }
}

/// What is known to be unchanged in `state` since the earlier checkpoint:
/// the changed pages of every paged memory that is backed by a checkpoint,
/// and the Wasm binaries that are the same as in the previous state. A file
/// that is not listed has to be hashed as a whole.
pub open spec fn dirty_pages_of(state: StatePageMaps, previous: Option<(Height, StatePageMaps)>) -> Seq<
    (Height, FileType, Seq<PageIndex>),
> {
    let memories = dirty_page_maps(all_page_maps(state), state);
    match previous {
        Some((height, before)) => memories + unchanged_binaries(state.canisters@, height, before),
        None => memories,
    }
}

/// What is to be done for the files of the tip so that they hold what
/// `entries` hold after the round that ends at `height`.
pub open spec fn flush_requests(entries: Seq<PageMapType>, state: StatePageMaps, height: Height) -> Seq<
    TipRequest,
>
    decreases entries.len(),
{
    if entries.len() == 0 {
        Seq::empty()
    } else {
        let before = flush_requests(entries.drop_last(), state, height);
        let entry = entries.last();
        match entry.page_map_of(state) {
            Some(page_map) => {
                let truncated = if page_map.base_height is None
                    && !page_map.has_stripped_round_deltas {
                    before.push(TipRequest::TruncatePageMapsPath { height, page_map_type: entry })
                } else {
                    before
                };
                if !page_map.round_delta_is_empty {
                    truncated.push(TipRequest::FlushRoundDelta { height, page_map_type: entry })
                } else {
                    truncated
                }
            },
            None => before,
        }
    }
}

/// Whether two sequences of changed pages hold the same.
pub open spec fn same_dirty_pages(
    pages: Seq<DirtyPageMap>,
    expected: Seq<(Height, FileType, Seq<PageIndex>)>,
) -> bool {
    &&& pages.len() == expected.len()
    &&& forall|i: int| 0 <= i < pages.len() ==> (#[trigger] pages[i])@ == expected[i]
}

impl StatePageMaps {
    /// The canister with the id `id`, the last one where several have it.
    pub fn canister(&self, id: CanisterId) -> (r: Option<&CanisterPageMaps>)
        ensures
            match r {
                Some(canister) => find_canister(self.canisters@, id) == Some(*canister),
                None => find_canister(self.canisters@, id) is None,
            },
    {
        let mut i: usize = self.canisters.len();
        assert(self.canisters@.subrange(0, i as int) =~= self.canisters@);
        while i > 0
            invariant
                i <= self.canisters@.len(),
                find_canister(self.canisters@, id) == find_canister(
                    self.canisters@.subrange(0, i as int),
                    id,
                ),
            decreases i,
        {
            if self.canisters[i - 1].canister_id == id {
                return Some(&self.canisters[i - 1]);
            }
            assert(self.canisters@.subrange(0, i as int).drop_last()
                =~= self.canisters@.subrange(0, i - 1));
            i = i - 1;
        }
        None
    }
}

impl PageMapType {
    /// The paged memory that `self` names in `state`.
    pub open spec fn page_map_of(self, state: StatePageMaps) -> Option<PageMapInfo> {
        match self {
            PageMapType::WasmMemory(id) => match find_canister(state.canisters@, id) {
                Some(canister) => match canister.execution_state {
                    Some(execution) => Some(execution.wasm_memory),
                    None => None,
                },
                None => None,
            },
            PageMapType::StableMemory(id) => match find_canister(state.canisters@, id) {
                Some(canister) => match canister.execution_state {
                    Some(execution) => Some(execution.stable_memory),
                    None => None,
                },
                None => None,
            },
            PageMapType::Bitcoin(BitcoinPageMap::UtxosSmall) => Some(state.bitcoin.utxos_small),
            PageMapType::Bitcoin(BitcoinPageMap::UtxosMedium) => Some(state.bitcoin.utxos_medium),
            PageMapType::Bitcoin(BitcoinPageMap::AddressOutpoints) => Some(
                state.bitcoin.address_outpoints,
            ),
        }
    }

    /// List all paged memories contained in `state`.
    pub fn list_all(state: &StatePageMaps) -> (result: Vec<PageMapType>)
        ensures
            result@ == all_page_maps(*state),
    {
        let mut result: Vec<PageMapType> = Vec::new();
        let mut i: usize = 0;
        assert(state.canisters@.subrange(0, 0) =~= Seq::<CanisterPageMaps>::empty());
        while i < state.canisters.len()
            invariant
                i <= state.canisters@.len(),
                result@ == canister_page_maps(state.canisters@.subrange(0, i as int)),
            decreases state.canisters@.len() - i,
        {
            let canister = &state.canisters[i];
            assert(state.canisters@.subrange(0, i + 1).drop_last()
                =~= state.canisters@.subrange(0, i as int));
            if canister.execution_state.is_some() {
                result.push(PageMapType::WasmMemory(canister.canister_id));
                result.push(PageMapType::StableMemory(canister.canister_id));
            }
            i = i + 1;
        }
        assert(state.canisters@.subrange(0, i as int) =~= state.canisters@);
        result.push(PageMapType::Bitcoin(BitcoinPageMap::UtxosSmall));
        result.push(PageMapType::Bitcoin(BitcoinPageMap::UtxosMedium));
        result.push(PageMapType::Bitcoin(BitcoinPageMap::AddressOutpoints));
        result
    }

    /// Maps a `PageMapType` to the paged memory in `state`.
    pub fn get<'a>(&self, state: &'a StatePageMaps) -> (r: Option<&'a PageMapInfo>)
        ensures
            match r {
                Some(page_map) => self.page_map_of(*state) == Some(*page_map),
                None => self.page_map_of(*state) is None,
            },
    {
        match self {
            PageMapType::WasmMemory(id) => match state.canister(*id) {
                Some(canister) => match &canister.execution_state {
                    Some(execution) => Some(&execution.wasm_memory),
                    None => None,
                },
                None => None,
            },
            PageMapType::StableMemory(id) => match state.canister(*id) {
                Some(canister) => match &canister.execution_state {
                    Some(execution) => Some(&execution.stable_memory),
                    None => None,
                },
                None => None,
            },
            PageMapType::Bitcoin(BitcoinPageMap::UtxosSmall) => Some(&state.bitcoin.utxos_small),
            PageMapType::Bitcoin(BitcoinPageMap::UtxosMedium) => Some(&state.bitcoin.utxos_medium),
            PageMapType::Bitcoin(BitcoinPageMap::AddressOutpoints) => Some(
                &state.bitcoin.address_outpoints,
            ),
        }
    }
}

/// Get dirty pages of all paged memories backed by a checkpoint file, and
/// the Wasm binaries that have not changed since the previous snapshot.
pub fn get_dirty_pages(state: &StatePageMaps, previous_snapshot: Option<(Height, &StatePageMaps)>) -> (result:
    DirtyPages)
    ensures
        same_dirty_pages(
            result@,
            dirty_pages_of(
                *state,
                match previous_snapshot {
                    Some((height, previous)) => Some((height, *previous)),
                    None => None,
                },
            ),
        ),
{
    let entries = PageMapType::list_all(state);
    let mut result: DirtyPages = Vec::new();
    let mut i: usize = 0;
    assert(entries@.subrange(0, 0) =~= Seq::<PageMapType>::empty());
    while i < entries.len()
        invariant
            i <= entries@.len(),
            same_dirty_pages(result@, dirty_page_maps(entries@.subrange(0, i as int), *state)),
        decreases entries@.len() - i,
    {
        let entry = entries[i];
        assert(entries@.subrange(0, i + 1).drop_last() =~= entries@.subrange(0, i as int));
        if let Some(page_map) = entry.get(state) {
            if let Some(height) = page_map.base_height {
                result.push(
                    DirtyPageMap {
                        height,
                        file_type: FileType::PageMap(entry),
                        page_delta_indices: page_map.page_delta_indices.clone(),
                    },
                );
            }
        }
        i = i + 1;
    }
    assert(entries@.subrange(0, i as int) =~= entries@);

    // Collect all canisters whose wasm binaries have not changed since the
    // last checkpoint. The others are not listed, so that they are treated as
    // requiring hashing.
    if let Some((height, previous)) = previous_snapshot {
        let ghost memories = result@;
        let mut j: usize = 0;
        assert(state.canisters@.subrange(0, 0) =~= Seq::<CanisterPageMaps>::empty());
        while j < state.canisters.len()
            invariant
                j <= state.canisters@.len(),
                same_dirty_pages(
                    result@,
                    dirty_page_maps(all_page_maps(*state), *state) + unchanged_binaries(
                        state.canisters@.subrange(0, j as int),
                        height,
                        *previous,
                    ),
                ),
            decreases state.canisters@.len() - j,
        {
            let canister = &state.canisters[j];
            assert(state.canisters@.subrange(0, j + 1).drop_last()
                =~= state.canisters@.subrange(0, j as int));
            let unchanged = match &canister.execution_state {
                Some(execution) => match previous.canister(canister.canister_id) {
                    Some(before) => match &before.execution_state {
                        Some(execution_before) => crate::types::hash_eq(
                            &execution.wasm_binary_hash,
                            &execution_before.wasm_binary_hash,
                        ),
                        None => false,
                    },
                    None => false,
                },
                None => false,
            };
            if unchanged {
                // No page is listed: the whole file is unchanged.
                result.push(
                    DirtyPageMap {
                        height,
                        file_type: FileType::WasmBinary(canister.canister_id),
                        page_delta_indices: Vec::new(),
                    },
                );
            }
            j = j + 1;
        }
        assert(state.canisters@.subrange(0, j as int) =~= state.canisters@);
    }
    result
}

/// Names what has to be written to the files of the tip after the round
/// that ends at `height`: for each paged memory of `tip_state`, in the order
/// of `PageMapType::list_all`, a truncation if the memory is new and nothing
/// of it was flushed before, then a flush of the pages that changed in the
/// round if there are any.
pub fn flush_page_maps(tip_state: &StatePageMaps, height: Height) -> (requests: Vec<TipRequest>)
    ensures
        requests@ == flush_requests(all_page_maps(*tip_state), *tip_state, height),
{
    let entries = PageMapType::list_all(tip_state);
    let mut requests: Vec<TipRequest> = Vec::new();
    let mut i: usize = 0;
    assert(entries@.subrange(0, 0) =~= Seq::<PageMapType>::empty());
    while i < entries.len()
        invariant
            i <= entries@.len(),
            requests@ == flush_requests(entries@.subrange(0, i as int), *tip_state, height),
        decreases entries@.len() - i,
    {
        let entry = entries[i];
        assert(entries@.subrange(0, i + 1).drop_last() =~= entries@.subrange(0, i as int));
        if let Some(page_map) = entry.get(tip_state) {
            // Where a memory was wiped, execution has replaced it with a new
            // one, which has no base height. Before the first round delta of
            // the new memory is written, the file on disk is emptied.
            if page_map.base_height.is_none() && !page_map.has_stripped_round_deltas {
                requests.push(TipRequest::TruncatePageMapsPath { height, page_map_type: entry });
            }
            if !page_map.round_delta_is_empty {
                requests.push(TipRequest::FlushRoundDelta { height, page_map_type: entry });
            }
        }
        i = i + 1;
    }
    assert(entries@.subrange(0, i as int) =~= entries@);
    requests
}

/// What keeps the canister `a` of the tip from going on as the canister
/// `b` of a checkpoint: they are not the same canister, or only one of them
/// can run, or their Wasm memories have different sizes.
pub open spec fn canister_switch_error(a: CanisterPageMaps, b: CanisterPageMaps) -> Option<
    SwitchError,
> {
    if a.canister_id != b.canister_id {
        Some(SwitchError::CanistersDiffer)
    } else {
        match (a.execution_state, b.execution_state) {
            (Some(tip_state), Some(src_state)) => if tip_state.wasm_memory_size
                != src_state.wasm_memory_size {
                Some(SwitchError::MemorySizeDiffers { canister_id: a.canister_id })
            } else {
                None
            },
            (None, None) => None,
            _ => Some(SwitchError::ExecutionStateDiffers { canister_id: a.canister_id }),
        }
    }
}

/// Whether the tip can go on from the checkpoint `src`: both states have
/// the same paged memories, and the canisters at the same position in both
/// are the same canister, which can run in both or in neither and whose Wasm
/// memory has the same size in both.
pub open spec fn switchable(tip: StatePageMaps, src: StatePageMaps) -> bool {
    &&& all_page_maps(src) == all_page_maps(tip)
    &&& forall|i: int|
        0 <= i < tip.canisters@.len() && i < src.canisters@.len() ==> canister_switch_error(
            #[trigger] tip.canisters@[i],
            src.canisters@[i],
        ) is None
}

/// Tells whether the tip can go on from the checkpoint `src`, and if not,
/// what differs first: the paged memories, or else the first pair of
/// canisters that do not go together.
pub fn check_switch_to_checkpoint(tip: &StatePageMaps, src: &StatePageMaps) -> (r: Result<
    (),
    SwitchError,
>)
    ensures
        match r {
            Ok(()) => switchable(*tip, *src),
            Err(SwitchError::PageMapsDiffer) => all_page_maps(*src) != all_page_maps(*tip),
            Err(e) => {
                &&& all_page_maps(*src) == all_page_maps(*tip)
                &&& exists|i: int|
                    {
                        &&& 0 <= i < tip.canisters@.len() && i < src.canisters@.len()
                        &&& canister_switch_error(#[trigger] tip.canisters@[i], src.canisters@[i])
                            == Some(e)
                        &&& forall|k: int|
                            0 <= k < i ==> canister_switch_error(
                                #[trigger] tip.canisters@[k],
                                src.canisters@[k],
                            ) is None
                    }
            },
        },
{
    let maps = PageMapType::list_all(src);
    let tip_maps = PageMapType::list_all(tip);
    if !same_page_maps(&maps, &tip_maps) {
        return Err(SwitchError::PageMapsDiffer);
    }
    let n = if tip.canisters.len() <= src.canisters.len() {
        tip.canisters.len()
    } else {
        src.canisters.len()
    };
    let mut i: usize = 0;
    while i < n
        invariant
            i <= n,
            n <= tip.canisters@.len(),
            n <= src.canisters@.len(),
            n == tip.canisters@.len() || n == src.canisters@.len(),
            all_page_maps(*src) == all_page_maps(*tip),
            forall|k: int|
                0 <= k < i ==> canister_switch_error(
                    #[trigger] tip.canisters@[k],
                    src.canisters@[k],
                ) is None,
        decreases n - i,
    {
        let tip_canister = &tip.canisters[i];
        let src_canister = &src.canisters[i];
        let ghost found = canister_switch_error(tip.canisters@[i as int], src.canisters@[i as int]);
        if tip_canister.canister_id != src_canister.canister_id {
            assert(found == Some(SwitchError::CanistersDiffer));
            return Err(SwitchError::CanistersDiffer);
        }
        match (&tip_canister.execution_state, &src_canister.execution_state) {
            (Some(tip_state), Some(src_state)) => {
                if tip_state.wasm_memory_size != src_state.wasm_memory_size {
                    assert(found == Some(
                        SwitchError::MemorySizeDiffers { canister_id: tip_canister.canister_id },
                    ));
                    return Err(
                        SwitchError::MemorySizeDiffers { canister_id: tip_canister.canister_id },
                    );
                }
            },
            (None, None) => {},
            _ => {
                assert(found == Some(
                    SwitchError::ExecutionStateDiffers { canister_id: tip_canister.canister_id },
                ));
                return Err(
                    SwitchError::ExecutionStateDiffers { canister_id: tip_canister.canister_id },
                );
            },
        }
        assert(found is None);
        i = i + 1;
    }
    Ok(())
}

/// Whether two lists name the same paged memories in the same order.
pub fn same_page_maps(a: &Vec<PageMapType>, b: &Vec<PageMapType>) -> (same: bool)
    ensures
        same == (a@ == b@),
{
    if a.len() != b.len() {
        return false;
    }
    let mut i: usize = 0;
    while i < a.len()
        invariant
            i <= a@.len(),
            a@.len() == b@.len(),
            forall|k: int| 0 <= k < i ==> a@[k] == b@[k],
        decreases a@.len() - i,
    {
        if a[i] != b[i] {
            return false;
        }
        i = i + 1;
    }
    assert(a@ =~= b@);
    true
}

} // verus!
