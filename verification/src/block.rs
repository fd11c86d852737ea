//! One stored ledger block as the assistant reads it back: its header and
//! its content row.

use vstd::prelude::*;

use crate::fields::Fields;

verus! {

/// The voice a block speaks in.
#[derive(Debug, Clone, Copy, PartialEq, Eq, Structural)]
pub enum Role {
    /// The system voice: prompts and stated facts.
    System,
    /// A person's voice.
    User,
    /// The assistant's own voice.
    Assistant,
    /// A tool's result.
    Tool,
}

/// One stored block: the immutable header and the content row's columns.
#[derive(Debug)]
pub struct Block {
    /// The block's id, monotonic across the whole store.
    pub id: i64,
    /// The block's voice, where it has one.
    pub role: Option<Role>,
    /// The stored type string of the block's kind.
    pub block_type: String,
    /// When the store inserted the block.
    pub created_at: String,
    /// The summoning frontier a turn's blocks carry.
    pub dispatch_anchor: Option<i64>,
    /// The content row, by column name.
    pub fields: Fields,
}

} // verus!
