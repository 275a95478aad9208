//! Plain data of the memory system.
use vstd::prelude::*;

verus! {

/// Dimension of the embedding vectors.
pub const EMBEDDING_DIM: usize = 384;

#[derive(Debug, Clone, Copy, PartialEq, Eq, Structural)]
pub enum StoreKind {
    Knowledge,
    Errors,
    Session,
}

#[derive(Debug)]
pub enum EmbeddingError {
    Ort(String),
    ModelNotFound(String),
    BadShape,
    Lock,
}

/// How many entries a store must evict to get back within its capacity.
pub fn eviction_count(count: usize, capacity: usize) -> (r: usize)
    ensures
        r == if count > capacity {
            count - capacity
        } else {
            0
        },
{
    if count <= capacity {
        0
    } else {
        count - capacity
    }
}

/// Whether the session buffer is flushed after turn number `turn_count`:
/// every `flush_interval`-th turn.
pub fn flush_due(turn_count: usize, flush_interval: usize) -> (r: bool)
    requires
        flush_interval > 0,
    ensures
        r == (turn_count % flush_interval == 0),
{
    turn_count % flush_interval == 0
}

} // verus!
