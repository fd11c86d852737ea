//! The identity tables' decisions: when a sender's principal row is reused
//! as it stands, and what the erasure leaves of it.

use vstd::prelude::*;

use crate::kind::opt_view;

verus! {

/// The column that records a person's opt-out.
pub const COLUMN_OPTED_OUT: &'static str = "opted_out";

/// A sender's stored standing: their principal, and whether they opted out.
#[derive(Debug, Clone, Copy, PartialEq, Eq, Structural)]
pub struct Standing {
    /// The principal id.
    pub principal_id: i64,
    /// Whether the person opted out of processing.
    pub opted_out: bool,
}

/// What resolving a sender to a principal does.
#[derive(Debug, Clone, Copy, PartialEq, Eq, Structural)]
pub enum Resolution {
    /// The stored row already says what was delivered: its id, untouched.
    Reuse(i64),
    /// The row is created, or its username refreshed to the delivered one.
    Upsert,
}

/// One sender, one principal: a stored row whose username matches the
/// delivered one is reused without a write; anything else is upserted.
pub fn resolution(existing: Option<(i64, Option<String>)>, delivered: Option<&str>) -> (resolved: Resolution)
    ensures
        resolved == (match existing {
            Some((id, stored)) => if opt_view(stored) == (match delivered {
                Some(d) => Some(d@),
                None => None,
            }) {
                Resolution::Reuse(id)
            } else {
                Resolution::Upsert
            },
            None => Resolution::Upsert,
        }),
{
    match existing {
        Some((id, stored)) => {
            let same = match (&stored, delivered) {
                (Some(s), Some(d)) => crate::strings::str_eq(s.as_str(), d),
                (None, None) => true,
                _ => false,
            };
            if same {
                Resolution::Reuse(id)
            } else {
                Resolution::Upsert
            }
        },
        None => Resolution::Upsert,
    }
}

/// What an erasure leaves of a principal row.
#[derive(Debug, Clone, Copy, PartialEq, Eq, Structural)]
pub enum Conclusion {
    /// The row stays, its username emptied, so the opt-out keeps holding.
    KeepSuppressed,
    /// The row is deleted whole.
    Delete,
}

/// The erasure's last step: an opted-out person's row stays, emptied, so
/// their suppression outlives the erasure; anyone else's is deleted.
pub fn conclusion(opted_out: bool) -> (concluded: Conclusion)
    ensures
        concluded == (if opted_out {
            Conclusion::KeepSuppressed
        } else {
            Conclusion::Delete
        }),
{
    if opted_out {
        Conclusion::KeepSuppressed
    } else {
        Conclusion::Delete
    }
}

} // verus!
