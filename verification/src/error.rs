//! The core's refusals, and how each is classified: terminal for the one
//! message, transient and worth a redelivery, or fatal to the process.

use vstd::prelude::*;

use crate::message::ChannelKind;

verus! {

/// What a storage failure was, by the class the store reported it in.
#[derive(Debug, Clone, PartialEq, Eq)]
pub enum StoreFailure {
    /// The store refused a statement by its own rules: a constraint or a
    /// trigger. Asking again asks the same thing.
    Rejected(String),
    /// Another writer held the store.
    Contended(String),
    /// Any other database failure.
    Sqlite(String),
    /// The store's file cannot serve.
    Unusable(String),
    /// The store's actor has stopped.
    ActorStopped,
    /// A value read back outside its closed vocabulary, or another failure
    /// the store named in words.
    Other(String),
}

/// Why the core refused.
#[derive(Debug, Clone, PartialEq, Eq)]
pub enum CoreError {
    /// Storage failed.
    Store(StoreFailure),
    /// The binding's vendor matches no registered provider module.
    UnknownVendor { vendor: String },
    /// The store lacks the message kind's content table.
    MissingContentTable { table: String },
    /// The channel is mapped as one kind and the message claims the other.
    ChannelKindMismatch { stored: ChannelKind, claimed: ChannelKind },
    /// The sender's authority is unresolved; nothing was recorded.
    AuthorityUnresolved,
    /// The channel mapping vanished mid-claim; nothing was recorded.
    ClaimLost,
    /// An open stream did not settle before the bound; nothing changed.
    StreamUnsettled { conversation_id: i64 },
    /// A compaction captured no summary; nothing changed.
    CompactionUnsummarized { conversation_id: i64 },
    /// A compacted thread's opening names no conversation it continues.
    AncestorUnnamed { block_id: i64, block_type: String },
}

/// How a refusal should be handled.
#[derive(Debug, Clone, Copy, PartialEq, Eq, Structural)]
pub enum FailureKind {
    /// Deterministic for the message: acknowledge it and move on.
    Terminal,
    /// Not provably deterministic: redeliver.
    Transient,
    /// The process cannot serve: end it for a restart.
    Fatal,
}

/// The classification: the kind mismatch is the one terminal refusal; a
/// store that refused by its own rules, cannot serve or has stopped, and a
/// thread opening that names no ancestor, are fatal; everything else is
/// transient.
pub open spec fn failure_kind_spec(error: CoreError) -> FailureKind {
    match error {
        CoreError::ChannelKindMismatch { .. } => FailureKind::Terminal,
        CoreError::Store(StoreFailure::Rejected(_)) => FailureKind::Fatal,
        CoreError::Store(StoreFailure::Unusable(_)) => FailureKind::Fatal,
        CoreError::Store(StoreFailure::ActorStopped) => FailureKind::Fatal,
        CoreError::AncestorUnnamed { .. } => FailureKind::Fatal,
        _ => FailureKind::Transient,
    }
}

impl CoreError {
    /// How this refusal should be handled.
    pub fn failure_kind(&self) -> (kind: FailureKind)
        ensures
            kind == failure_kind_spec(*self),
    {
        match self {
            CoreError::ChannelKindMismatch { .. } => FailureKind::Terminal,
            CoreError::Store(StoreFailure::Rejected(_)) => FailureKind::Fatal,
            CoreError::Store(StoreFailure::Unusable(_)) => FailureKind::Fatal,
            CoreError::Store(StoreFailure::ActorStopped) => FailureKind::Fatal,
            CoreError::AncestorUnnamed { .. } => FailureKind::Fatal,
            _ => FailureKind::Transient,
        }
    }
}

/// The signal an unattended path raises when the whole process cannot
/// serve: raised once, and never lowered.
#[derive(Debug)]
pub struct FatalSignal {
    raised: bool,
}

impl FatalSignal {
    /// Whether the signal stands.
    pub closed spec fn raised_spec(&self) -> bool {
        self.raised
    }

    /// A signal not yet raised.
    pub fn new() -> (signal: FatalSignal)
        ensures
            !signal.raised_spec(),
    {
        FatalSignal { raised: false }
    }

    /// Raise the signal; answers whether this raise was the first, which
    /// is the one that logs and wakes the waiters.
    pub fn raise(&mut self) -> (first: bool)
        ensures
            first == !old(self).raised_spec(),
            final(self).raised_spec(),
    {
        if self.raised {
            false
        } else {
            self.raised = true;
            true
        }
    }

    /// Whether the signal stands.
    pub fn is_raised(&self) -> (raised: bool)
        ensures
            raised == self.raised_spec(),
    {
        self.raised
    }
}

} // verus!
