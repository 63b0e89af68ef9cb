// Turns a pull-based sequence of collection snapshots into a pull-based sequence
// of membership changes: an `Add` for each element that appears and a `Remove`
// for each element that disappears between consecutive snapshots.
//
// `engine` holds the membership and the queue of undelivered actions, `adapter`
// the decisions of one pull, and `laws` what holds across snapshots.

mod adapter;
mod engine;
mod laws;

pub use adapter::{delivers, emitted, Step, StreamDiff, StreamDiffExt, Upstream};
pub use engine::{batch, dedup, removes_first, Action, DiffEngine};
pub use laws::{
    added, apply, before, concat_batches, lemma_batch_exclusive, lemma_reorder_same_batch,
    lemma_replay_batch, lemma_replay_concat, lemma_replay_reconstructs,
    lemma_unchanged_gives_nothing, removed, replay,
};
