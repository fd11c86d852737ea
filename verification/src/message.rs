//! The core's own message vocabulary: one inbound message, one outbound
//! reply, and the outcomes the core answers with.
//!
//! Adapters translate their platform's types into this model at the
//! boundary and never past it. Every identifier from the platform's side is
//! opaque here: compared for equality, never interpreted.

use vstd::prelude::*;

use crate::clock::Timestamp;
use crate::strings::str_eq;

verus! {

/// Where a message lives: one conversation surface on one adapter, an
/// opaque pair compared only for equality.
#[derive(Debug, Clone, PartialEq, Eq, Hash)]
pub struct ChannelKey {
    /// The adapter's registered name.
    pub adapter: String,
    /// The adapter's own identifier for the conversation surface.
    pub channel: String,
}

/// What a channel's key names: a person, or a group.
#[derive(Debug, Clone, Copy, PartialEq, Eq, Structural)]
pub enum ChannelKind {
    /// A one-on-one channel; its key identifies a person.
    Direct,
    /// A group channel; its key names the group.
    Group,
}

impl ChannelKind {
    /// Every variant, in stored-encoding order.
    pub const ALL: [ChannelKind; 2] = [ChannelKind::Direct, ChannelKind::Group];

    /// The stored encoding of a kind, a closed vocabulary.
    pub open spec fn encoding(self) -> Seq<char> {
        match self {
            ChannelKind::Direct => "direct"@,
            ChannelKind::Group => "group"@,
        }
    }

    /// The stored encoding, a closed vocabulary.
    pub fn as_str(self) -> (s: &'static str)
        ensures
            s@ == self.encoding(),
    {
        match self {
            ChannelKind::Direct => "direct",
            ChannelKind::Group => "group",
        }
    }

    /// Parse the stored encoding back, `None` for anything outside the
    /// vocabulary.
    pub fn parse(stored: &str) -> (kind: Option<ChannelKind>)
        ensures
            kind matches Some(k) ==> k.encoding() == stored@,
            kind is None ==> forall|k: ChannelKind| k.encoding() != stored@,
    {
        proof {
            reveal_strlit("direct");
            reveal_strlit("group");
        }
        if str_eq(stored, "direct") {
            Some(ChannelKind::Direct)
        } else if str_eq(stored, "group") {
            Some(ChannelKind::Group)
        } else {
            proof {
                assert forall|k: ChannelKind| k.encoding() != stored@ by {
                    match k {
                        ChannelKind::Direct => {},
                        ChannelKind::Group => {},
                    }
                }
            }
            None
        }
    }
}

/// Who sent a message, as the adapter saw them.
#[derive(Debug, Clone, PartialEq, Eq)]
pub struct SenderIdentity {
    /// The sender's opaque external id on the adapter's platform.
    pub external_id: String,
    /// The sender's username, where the platform has one.
    pub username: Option<String>,
    /// Whether the account that sent the message is automated instead of
    /// a person — the platform's own fact about the account, stored
    /// nowhere and read while the message is decided.
    pub bot: bool,
}

/// The sender's standing in the channel, resolved live by the adapter at
/// receipt. Ordered: `Member` < `Moderator` < `Admin`.
#[derive(Debug, Clone, Copy, PartialEq, Eq, PartialOrd, Ord, Hash, Structural)]
pub enum Authority {
    /// An ordinary member.
    Member,
    /// A moderator of the channel.
    Moderator,
    /// An administrator of the channel.
    Admin,
}

impl Authority {
    /// Every variant, in ascending order of standing.
    pub const ALL: [Authority; 3] = [Authority::Member, Authority::Moderator, Authority::Admin];

    /// The position of a standing in the order.
    pub open spec fn rank(self) -> nat {
        match self {
            Authority::Member => 0,
            Authority::Moderator => 1,
            Authority::Admin => 2,
        }
    }

    /// The stored encoding of a standing.
    pub open spec fn encoding(self) -> Seq<char> {
        match self {
            Authority::Member => "member"@,
            Authority::Moderator => "moderator"@,
            Authority::Admin => "admin"@,
        }
    }

    /// The lower of two standings.
    pub open spec fn lower(self, other: Authority) -> Authority {
        if self.rank() <= other.rank() {
            self
        } else {
            other
        }
    }

    /// Whether this standing reaches the given floor.
    pub fn at_least(self, floor: Authority) -> (b: bool)
        ensures
            b == (self.rank() >= floor.rank()),
    {
        self.position() >= floor.position()
    }

    /// The position of a standing in the order, executable.
    pub fn position(self) -> (n: u8)
        ensures
            n == self.rank(),
    {
        match self {
            Authority::Member => 0,
            Authority::Moderator => 1,
            Authority::Admin => 2,
        }
    }

    /// The lower of two standings, executable.
    pub fn min_with(self, other: Authority) -> (m: Authority)
        ensures
            m == self.lower(other),
    {
        if self.position() <= other.position() {
            self
        } else {
            other
        }
    }

    /// The stored encoding, a closed vocabulary.
    pub fn as_str(self) -> (s: &'static str)
        ensures
            s@ == self.encoding(),
    {
        match self {
            Authority::Member => "member",
            Authority::Moderator => "moderator",
            Authority::Admin => "admin",
        }
    }

    /// Parse the stored encoding back, `None` for anything outside the
    /// vocabulary.
    pub fn parse(stored: &str) -> (authority: Option<Authority>)
        ensures
            authority matches Some(a) ==> a.encoding() == stored@,
            authority is None ==> forall|a: Authority| a.encoding() != stored@,
    {
        proof {
            reveal_strlit("member");
            reveal_strlit("moderator");
            reveal_strlit("admin");
        }
        if str_eq(stored, "member") {
            Some(Authority::Member)
        } else if str_eq(stored, "moderator") {
            Some(Authority::Moderator)
        } else if str_eq(stored, "admin") {
            Some(Authority::Admin)
        } else {
            proof {
                assert forall|a: Authority| a.encoding() != stored@ by {
                    match a {
                        Authority::Member => {},
                        Authority::Moderator => {},
                        Authority::Admin => {},
                    }
                }
            }
            None
        }
    }
}

/// The command a message invokes, as the adapter translated it: the
/// leading command token of the text as sent, with a self-directed handle
/// suffix normalized away.
#[derive(Debug, Clone, PartialEq, Eq)]
pub struct InvokedCommand(String);

impl InvokedCommand {
    /// The token this report carries.
    pub closed spec fn token(&self) -> Seq<char> {
        self.0@
    }

    /// The reported invocation, by its bare command token.
    pub fn new(name: &str) -> (command: InvokedCommand)
        ensures
            command.token() == name@,
    {
        InvokedCommand(name.to_owned())
    }

    /// The bare command token, the assistant's own handle already stripped.
    pub fn name(&self) -> (name: &str)
        ensures
            name@ == self.token(),
    {
        self.0.as_str()
    }
}

/// What a message replies to, as the adapter resolved it at the boundary.
#[derive(Debug, Clone, PartialEq, Eq)]
#[allow(inconsistent_fields)]
pub enum ReplyTarget {
    /// A reply to a message that is not the assistant's own, named by that
    /// message's origin.
    Message {
        /// The platform's own id for the replied-to message, opaque.
        origin: String,
    },
    /// A reply to one of the assistant's own messages, named by that
    /// message's origin where the platform carried one.
    AssistantMessage {
        /// The platform's own id for the replied-to message of hers.
        origin: Option<String>,
    },
}

/// The excerpt a reply quotes of the message it replies to.
#[derive(Debug, Clone, PartialEq, Eq)]
pub struct QuotedExcerpt {
    /// The quoted words as the platform delivered them.
    pub text: String,
    /// Whether the member chose the excerpt by hand.
    pub manual: bool,
}

/// One message on its way into the core.
#[derive(Debug, Clone)]
pub struct InboundMessage {
    /// Where the message was said.
    pub channel: ChannelKey,
    /// Whether the channel names a person or a group.
    pub channel_kind: ChannelKind,
    /// Who said it, as the adapter saw them.
    pub sender: SenderIdentity,
    /// The sender's standing in the channel at receipt; `None` when the
    /// adapter's authority source failed.
    pub authority: Option<Authority>,
    /// Whether the message literally addresses the assistant.
    pub addressed: bool,
    /// What the message replies to, where the platform carries a usable
    /// reply.
    pub reply_target: Option<ReplyTarget>,
    /// The part of the replied-to message this reply quotes.
    pub quoted: Option<QuotedExcerpt>,
    /// The command the message invokes, as the adapter reports it.
    pub command: Option<InvokedCommand>,
    /// What was said, verbatim.
    pub text: String,
    /// The platform's own id for the message, opaque.
    pub origin: Option<String>,
    /// The opaque origin of the message this one supersedes, as first
    /// known; `None` for an ordinary message.
    pub revises: Option<String>,
    /// When the platform says the message was sent.
    pub timestamp: Timestamp,
}

/// One platform-neutral observation on its way into the core: a fact about
/// a channel, read from the channel itself.
#[derive(Debug, Clone)]
pub struct Observation {
    /// The channel the fact is about.
    pub channel: ChannelKey,
    /// Whether the channel names a person or a group.
    pub channel_kind: ChannelKind,
    /// The observed fact itself.
    pub fact: ObservedFact,
}

/// One person as a join notice showed them.
#[derive(Debug, Clone, PartialEq, Eq)]
pub struct JoinedMember {
    /// Who joined, as the adapter saw them.
    pub identity: SenderIdentity,
    /// The name the platform displayed for the joiner; empty when it
    /// showed none.
    pub name: String,
}

/// What one observation reports.
#[derive(Debug, Clone)]
pub enum ObservedFact {
    /// The channel's title, as the platform shows it.
    Title(String),
    /// The text of the channel's pinned announcement.
    PinnedAnnouncement(String),
    /// The assistant itself entered the channel's member set.
    Added {
        /// Who admitted the assistant; absence fails closed.
        by: Option<SenderIdentity>,
    },
    /// People entered the channel's member set, as one platform service
    /// message reported them.
    MembersJoined {
        /// The joiners the event named, in the platform's own order.
        joiners: Vec<JoinedMember>,
        /// The service message's own id, opaque.
        origin: String,
        /// When the platform says the service message was sent.
        timestamp: Timestamp,
    },
}

/// One deterministic item a call returns for the adapter to deliver on
/// the channel, typed by what it is.
#[derive(Debug, Clone, PartialEq, Eq)]
pub enum DeliveryItem {
    /// The rules acknowledgment.
    Acknowledgment(String),
    /// A command's fixed answer.
    CommandAnswer(String),
}

impl DeliveryItem {
    /// The text an item carries, whichever kind it is.
    pub open spec fn carried(&self) -> Seq<char> {
        match self {
            DeliveryItem::Acknowledgment(text) => text@,
            DeliveryItem::CommandAnswer(text) => text@,
        }
    }

    /// The delivered text, whichever kind carries it.
    pub fn text(&self) -> (text: &str)
        ensures
            text@ == self.carried(),
    {
        match self {
            DeliveryItem::Acknowledgment(text) => text.as_str(),
            DeliveryItem::CommandAnswer(text) => text.as_str(),
        }
    }
}

/// Where one of the assistant's own sends is recorded: the conversation
/// the sent message belongs to, and the stored block a reply to that
/// message quotes. Opaque to adapters.
#[derive(Debug, Clone, Copy, PartialEq, Eq, Structural)]
pub struct DeliveryHandle {
    /// The conversation the sent message belongs to.
    pub(crate) conversation_id: i64,
    /// The stored block a reply to this send quotes, where there is one.
    pub(crate) quotable_block: Option<i64>,
}

impl DeliveryHandle {
    /// The conversation a handle records into.
    pub closed spec fn recorded_in(self) -> i64 {
        self.conversation_id
    }

    /// The block a reply to the handle's send quotes.
    pub closed spec fn quotes(self) -> Option<i64> {
        self.quotable_block
    }

    /// The handle of a send that carries no quotable block of the
    /// assistant's own.
    pub fn in_conversation(conversation_id: i64) -> (handle: DeliveryHandle)
        ensures
            handle.recorded_in() == conversation_id,
            handle.quotes() is None,
    {
        DeliveryHandle { conversation_id, quotable_block: None }
    }

    /// The same handle, naming the stored block a reply to this send
    /// quotes.
    pub fn quoting(self, quotable_block: Option<i64>) -> (handle: DeliveryHandle)
        ensures
            handle.recorded_in() == self.recorded_in(),
            handle.quotes() == quotable_block,
    {
        DeliveryHandle { quotable_block, ..self }
    }

    /// The conversation the delivery record is appended to.
    pub fn conversation_id(self) -> (id: i64)
        ensures
            id == self.recorded_in(),
    {
        self.conversation_id
    }

    /// The block a reply to this send quotes, where there is one.
    pub fn quotable_block(self) -> (block: Option<i64>)
        ensures
            block == self.quotes(),
    {
        self.quotable_block
    }
}

/// One deterministic item an observation returns, with the handle its send
/// is recorded under.
#[derive(Debug, Clone, PartialEq, Eq)]
pub struct ObservedDelivery {
    /// Where the send is recorded.
    pub delivery: DeliveryHandle,
    /// What the adapter delivers on the channel.
    pub item: DeliveryItem,
}

/// What one observation call comes to.
#[derive(Debug, Clone, PartialEq, Eq)]
pub enum ObserveOutcome {
    /// The observation was judged against the stored facts.
    Observed {
        /// The item the adapter delivers on the channel, if any.
        deliver: Option<ObservedDelivery>,
    },
    /// Refused fail-closed; the adapter performs the withdrawal.
    Withdraw,
}

/// What the write did to the channel's session, and therefore what the
/// adapter must forget about the channel.
#[derive(Debug, Clone, Copy, PartialEq, Eq, Structural)]
pub enum ChannelReset {
    /// The channel keeps the session it had.
    Kept,
    /// The channel's session was replaced with an empty one.
    Replaced,
}

impl Default for ChannelReset {
    fn default() -> (reset: ChannelReset)
        ensures
            reset == ChannelReset::Kept,
    {
        ChannelReset::Kept
    }
}

/// What one ingestion call comes to.
#[derive(Debug, Clone, PartialEq, Eq)]
pub enum IngestOutcome {
    /// The message was recorded on the ledger.
    Recorded {
        /// The ids the write resolved on the way in.
        receipt: IngestReceipt,
        /// The item the adapter delivers on the channel, if any.
        deliver: Option<DeliveryItem>,
        /// What the write did to the channel's session.
        reset: ChannelReset,
    },
    /// Refused fail-closed: an unadmitted group.
    Withdraw,
    /// Refused without effect: direct chats are off, or the sender's
    /// suppression flag stands.
    Disregarded,
}

/// What one accepted ingestion reports back: the ids the core resolved on
/// the way in.
#[derive(Debug, Clone, Copy, PartialEq, Eq, Structural)]
pub struct IngestReceipt {
    /// The principal the sender resolved or created.
    pub principal_id: i64,
    /// The conversation the message was recorded in.
    pub conversation_id: i64,
}

impl IngestReceipt {
    /// Where a deterministic item returned beside this receipt has its
    /// send recorded: this ingestion's own conversation, carrying no
    /// quotable block.
    pub fn delivery(&self) -> (handle: DeliveryHandle)
        ensures
            handle.recorded_in() == self.conversation_id,
            handle.quotes() is None,
    {
        DeliveryHandle::in_conversation(self.conversation_id)
    }
}

/// What one outbound item is: the assistant's own prose, or a filed
/// report's machinery line.
#[derive(Debug, Clone, Copy, PartialEq, Eq, Structural)]
pub enum ReplyKind {
    /// A finalized answer from the model.
    Answer,
    /// A filed report's fixed line.
    Report,
}

/// Whether the assistant is composing an answer on a channel right now.
#[derive(Debug, Clone, Copy, PartialEq, Eq, Structural)]
pub enum ComposingState {
    /// The assistant is composing an answer on the channel.
    Composing,
    /// The composing ended.
    Stopped,
}

/// One change of the composing signal, bound to the channel it is about.
#[derive(Debug, Clone, PartialEq, Eq)]
pub struct ComposingUpdate {
    /// The channel the signal is about.
    pub channel: ChannelKey,
    /// The new state.
    pub state: ComposingState,
}

/// Where one outbound reply threads, and what the core wants done when the
/// platform refuses that threaded send.
#[derive(Debug, Clone, PartialEq, Eq)]
pub enum ReplyThread {
    /// Threaded onto this origin; refused, the same text goes out plainly.
    OntoOrPlainly(String),
    /// Threaded onto this origin or not delivered at all.
    OntoOnly(String),
}

impl ReplyThread {
    /// The origin a thread names.
    pub open spec fn origin(&self) -> Seq<char> {
        match self {
            ReplyThread::OntoOrPlainly(origin) => origin@,
            ReplyThread::OntoOnly(origin) => origin@,
        }
    }

    /// The platform origin the reply threads onto.
    pub fn target(&self) -> (origin: &str)
        ensures
            origin@ == self.origin(),
    {
        match self {
            ReplyThread::OntoOrPlainly(origin) => origin.as_str(),
            ReplyThread::OntoOnly(origin) => origin.as_str(),
        }
    }

    /// Whether the same text goes out once more without the target when
    /// the platform refuses the threaded send.
    pub fn plain_when_refused(&self) -> (plain: bool)
        ensures
            plain == (self is OntoOrPlainly),
    {
        match self {
            ReplyThread::OntoOrPlainly(_) => true,
            ReplyThread::OntoOnly(_) => false,
        }
    }
}

/// One item on the assistant's outbound edge.
#[derive(Debug, Clone, PartialEq, Eq)]
pub enum Outbound {
    /// Words to send: an answer, or a filed report's line.
    Reply(OutboundReply),
    /// One emoji to put on a message.
    Mark(OutboundMark),
}

/// One reaction on its way out of the core.
#[derive(Debug, Clone, PartialEq, Eq)]
pub struct OutboundMark {
    /// The channel the marked message is on.
    pub channel: ChannelKey,
    /// The emoji the model chose, exactly as it was stored.
    pub emoji: String,
    /// The message the reaction goes on.
    pub target_origin: String,
}

/// One reply on its way out of the core, bound to the channel it answers.
#[derive(Debug, Clone, PartialEq, Eq)]
pub struct OutboundReply {
    /// The channel the reply belongs on.
    pub channel: ChannelKey,
    /// What the assistant says.
    pub text: String,
    /// Whether this is the assistant's answer or a filed report's line.
    pub kind: ReplyKind,
    /// The message this reply threads onto, and how a refused thread is
    /// recovered, where it threads at all.
    pub reply_target: Option<ReplyThread>,
    /// Where this reply's send is recorded.
    pub delivery: DeliveryHandle,
}

/// Every stored encoding names one channel kind and one standing, and
/// parsing an encoding gives that value back.
pub proof fn encodings_are_injective()
    ensures
        forall|a: ChannelKind, b: ChannelKind| a.encoding() == b.encoding() ==> a == b,
        forall|a: Authority, b: Authority| a.encoding() == b.encoding() ==> a == b,
{
    reveal_strlit("direct");
    reveal_strlit("group");
    reveal_strlit("member");
    reveal_strlit("moderator");
    reveal_strlit("admin");
    assert forall|a: ChannelKind, b: ChannelKind| a.encoding() == b.encoding() implies a == b by {
        if a != b {
            assert(a.encoding().len() != b.encoding().len());
        }
    }
    assert forall|a: Authority, b: Authority| a.encoding() == b.encoding() implies a == b by {
        if a != b {
            assert(a.encoding().len() != b.encoding().len());
        }
    }
}

/// The standings form a chain: the rank order is total and strict between
/// distinct standings, member below moderator below admin.
pub proof fn authority_is_a_chain()
    ensures
        Authority::Member.rank() < Authority::Moderator.rank(),
        Authority::Moderator.rank() < Authority::Admin.rank(),
        forall|a: Authority, b: Authority| a.rank() == b.rank() ==> a == b,
{
}

} // verus!
