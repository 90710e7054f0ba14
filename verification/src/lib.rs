//! A checkpointed replicated state store and the queues around it.
//!
//! The store (`state_manager`) keeps the states of successive heights: the
//! snapshots that are resident in memory, the metadata of the checkpoints on
//! disk and the certification metadata, the tip that execution works on, and
//! the state that is being fetched from peers. Its operations commit a state,
//! deliver a certification, take the tip, set the state to fetch and evict old
//! states. Each of them is a transition of the store that is proved to keep
//! the store well formed; what has to be done on disk or on other threads is
//! named in the result and left to the caller.
//!
//! Around it: the maps by height that the store is built of (`height_map`),
//! the tokens of checkpoints (`checkpoint`), manifests (`manifest`), the paged
//! memories of a state and what has changed in them (`page_map`), the work
//! for the background threads (`worker`), slices of streams (`stream`), the
//! states that were set aside after a divergence (`diverged`), the bounded
//! message queues of canisters (`queue`, `messages`), and the gossip layer:
//! its messages (`p2p`) and its list of downloads (`download_list`).

pub mod checkpoint;
pub mod diverged;
pub mod download_list;
pub mod height_map;
pub mod manifest;
pub mod messages;
pub mod metadata;
pub mod p2p;
pub mod page_map;
pub mod queue;
pub mod state_manager;
pub mod state_sync;
pub mod stream;
pub mod types;
pub mod worker;
