//! Reads over a conversation's ledger that only the block headers answer.

use vstd::prelude::*;

use crate::block::Block;
use crate::kind::{is_named, names_kind};

verus! {

/// The newest block past a run of read-through kinds, by id.
pub open spec fn newest_block_id_past_spec(blocks: Seq<Block>, read_through: Seq<&str>) -> Option<i64>
    decreases blocks.len(),
{
    if blocks.len() == 0 {
        None
    } else if names_kind(read_through, blocks.last().block_type@) {
        newest_block_id_past_spec(blocks.drop_last(), read_through)
    } else {
        Some(blocks.last().id)
    }
}

/// The newest block of a conversation's ledger, read in ledger order, that
/// is not of one of the given kinds; an empty kind list reads the newest
/// block plainly, and a conversation holding nothing else answers `None`.
pub fn newest_block_id_past(blocks: &[Block], read_through: &[&str]) -> (newest: Option<i64>)
    ensures
        newest == newest_block_id_past_spec(blocks@, read_through@),
{
    let mut n: usize = blocks.len();
    assert(blocks@.subrange(0, n as int) =~= blocks@);
    while n > 0
        invariant
            n <= blocks@.len(),
            newest_block_id_past_spec(blocks@, read_through@) == newest_block_id_past_spec(
                blocks@.subrange(0, n as int),
                read_through@,
            ),
        decreases n,
    {
        let ghost prefix = blocks@.subrange(0, n as int);
        assert(prefix.drop_last() =~= blocks@.subrange(0, n - 1));
        assert(prefix.last() == blocks@[n - 1]);
        if !is_named(read_through, blocks[n - 1].block_type.as_str()) {
            return Some(blocks[n - 1].id);
        }
        n = n - 1;
    }
    None
}

} // verus!
