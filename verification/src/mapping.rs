//! The channel mapping's stored vocabulary: which adapter channel a
//! conversation serves, and what kind of channel it is.

use vstd::prelude::*;

use crate::error::StoreFailure;
use crate::message::ChannelKind;
use crate::strings::concat3;

verus! {

/// One mapped channel as the mapping table stores it.
#[derive(Debug, Clone)]
pub struct ChannelRecord {
    /// The adapter's registered name.
    pub adapter: String,
    /// What the channel is.
    pub kind: ChannelKind,
    /// The conversation the channel is served by.
    pub conversation_id: i64,
}

/// The refusal a stored kind outside the vocabulary reads as.
pub open spec fn unknown_kind_message(stored: Seq<char>) -> Seq<char> {
    "stored channel kind '"@ + stored + "' falls outside the closed vocabulary"@
}

/// A stored channel kind read back: the closed vocabulary's kind, or the
/// store's refusal naming the value outside it.
pub fn parse_kind(stored: &str) -> (kind: Result<ChannelKind, StoreFailure>)
    ensures
        kind matches Ok(k) ==> k.encoding() == stored@,
        kind is Err ==> forall|k: ChannelKind| k.encoding() != stored@,
        kind matches Err(e) ==> (e matches StoreFailure::Other(message) && message@
            == unknown_kind_message(stored@)),
{
    match ChannelKind::parse(stored) {
        Some(kind) => Ok(kind),
        None => Err(
            StoreFailure::Other(
                concat3("stored channel kind '", stored, "' falls outside the closed vocabulary"),
            ),
        ),
    }
}

} // verus!
