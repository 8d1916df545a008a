//! The chunk scheduler: partitioning the requested count into disjoint,
//! dense index ranges, one per worker task.
//!
//! Chunks carry a fixed size, except the final chunk, which absorbs the
//! remainder. Their union is exactly the id range `[1, count]`.

use vstd::prelude::*;

verus! {

/// How many records one worker encodes per task. Sized so a chunk's
/// output stays in the tens of kilobytes for typical record lengths.
pub const CHUNK_SIZE: u64 = 5000;

/// A half-open contiguous id range `[start_id, start_id + size)`, consumed
/// by exactly one worker.
#[derive(PartialEq, Eq, Structural, Clone, Copy, Debug)]
pub struct Chunk {
    pub start_id: u64,
    pub size: u64,
}

/// A valid plan for `count` records: chunk `i` starts at `1 + CHUNK_SIZE * i`,
/// every chunk but the last has exactly `CHUNK_SIZE` records, no chunk is
/// empty, and the last chunk ends exactly at id `count`.
pub open spec fn plan_ok(v: Seq<Chunk>, count: nat) -> bool {
    &&& forall|i: int| 0 <= i < v.len() ==> 1 <= (#[trigger] v[i]).size <= CHUNK_SIZE
    &&& forall|i: int| 0 <= i < v.len() - 1 ==> (#[trigger] v[i]).size == CHUNK_SIZE
    &&& forall|i: int| 0 <= i < v.len() ==> (#[trigger] v[i]).start_id == 1 + CHUNK_SIZE * i
    &&& (count == 0 ==> v.len() == 0)
    &&& (count > 0 ==> v.len() > 0 && v.last().start_id + v.last().size == count + 1)
}

/// Splits `count` into the chunk plan: full chunks of `CHUNK_SIZE`, the
/// final chunk absorbing the remainder.
pub fn plan_chunks(count: u64) -> (v: Vec<Chunk>)
    ensures
        plan_ok(v@, count as nat),
{
    let mut v: Vec<Chunk> = Vec::new();
    let mut done: u64 = 0;
    while done < count
        invariant
            done <= count,
            forall|i: int| 0 <= i < v@.len() ==> 1 <= (#[trigger] v@[i]).size <= CHUNK_SIZE,
            forall|i: int| 0 <= i < v@.len() - 1 ==> (#[trigger] v@[i]).size == CHUNK_SIZE,
            forall|i: int|
                0 <= i < v@.len() ==> (#[trigger] v@[i]).start_id == 1 + CHUNK_SIZE * i,
            v@.len() == 0 ==> done == 0,
            v@.len() > 0 ==> done + 1 == v@.last().start_id + v@.last().size,
            done < count ==> (v@.len() == 0 || v@.last().size == CHUNK_SIZE),
        decreases count - done,
    {
        let left: u64 = count - done;
        let size: u64 = if left > CHUNK_SIZE {
            CHUNK_SIZE
        } else {
            left
        };
        proof {
            if v@.len() > 0 {
                assert(v@.last().start_id == 1 + CHUNK_SIZE * (v@.len() - 1));
                assert(done == CHUNK_SIZE * v@.len());
            }
        }
        let start_id: u64 = done + 1;
        v.push(Chunk { start_id, size });
        done = done + size;
        proof {
            if done < count {
                assert(v@.last().size == CHUNK_SIZE);
            }
        }
    }
    proof {
        assert(done == count);
    }
    v
}

} // verus!
