//! Platform-neutral core of the halogenOS Group Assistant: the message
//! vocabulary, the command catalogue, the write-time stamp and its debt
//! spine, the compaction policy, the composing cue, and the recorded kinds,
//! each stated over a mathematical model and proved.

pub mod strings;
pub mod sql;
pub mod abstention;
pub mod clock;
pub mod message;
pub mod commands;
pub mod authorization;
pub mod mirror;
pub mod fields;
pub mod block;
pub mod kind;
pub mod error;
pub mod compaction;
pub mod composing;
pub mod disclosure;
pub mod join;
pub mod contract;
pub mod delivery;
pub mod lineage;
pub mod mapping;
pub mod ledger;
pub mod erasure;
pub mod identity;
pub mod acknowledgment;
pub mod assembly;

pub use assembly::{AnsweringMode, Budget, DirectChats, ModelBinding, OperatorConfig, ProtectionConfig};
pub use composing::COMPOSING_SIGNAL_LIFETIME_MS;
pub use disclosure::{composed_disclosure_line, Disclosure};
pub use erasure::ErasureOutcome;
pub use error::{CoreError, FailureKind};
pub use message::{
    Authority, ChannelKey, ChannelKind, ChannelReset, ComposingState, ComposingUpdate,
    DeliveryHandle, DeliveryItem, InboundMessage, IngestOutcome, IngestReceipt, InvokedCommand,
    JoinedMember, Observation, ObserveOutcome, ObservedDelivery, ObservedFact, Outbound,
    OutboundMark, OutboundReply, QuotedExcerpt, ReplyKind, ReplyTarget, ReplyThread,
    SenderIdentity,
};
