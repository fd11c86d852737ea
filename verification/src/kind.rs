//! The assistant's recorded channel message: its stored columns, the
//! write-time stamp that decides whether it owes the model a turn, and its
//! projection for the model.
//!
//! The acting policy is record all, answer some: a message awaits a turn
//! exactly when its stored answer-due stamp says one is owed, and the stamp
//! is decided once, at the write.

use vstd::prelude::*;

use crate::block::{Block, Role};
use crate::fields::{boolean_spec, integer_spec, text_spec, Fields, Stored};
use crate::message::{Authority, ReplyTarget};
use crate::sql::{column_texts, null_assignments, null_clause};
use crate::strings::{concat3, contains_char, contains_white_space, decimal, decimal_spec, str_eq, white_space};

verus! {

/// The stored type string of the assistant's message kind.
pub const CHAT_MESSAGE_KIND: &'static str = "chat_message";

/// The content table the kind's descriptor owns.
pub const CHAT_MESSAGE_TABLE: &'static str = "block_chat_message";

/// The block's voice.
pub const COLUMN_ROLE: &'static str = "role";
/// What was said. NULL is the one legal absence and means erased.
pub const COLUMN_TEXT: &'static str = "text";
/// The sender's principal id in the identity tables.
pub const COLUMN_PRINCIPAL_ID: &'static str = "principal_id";
/// The sender's standing at receipt.
pub const COLUMN_AUTHORITY: &'static str = "authority";
/// The platform's own id for the message, opaque.
pub const COLUMN_ORIGIN: &'static str = "origin";
/// When the platform says the message was sent, RFC 3339.
pub const COLUMN_SENT_AT: &'static str = "sent_at";
/// Whether the message summoned the assistant, answering mode folded in.
pub const COLUMN_ADDRESSED: &'static str = "addressed";
/// Whether the user literally addressed the assistant.
pub const COLUMN_LITERAL_ADDRESSED: &'static str = "literal_addressed";
/// Whether the message owes the model a turn, stamped at the write.
pub const COLUMN_ANSWER_DUE: &'static str = "answer_due";
/// Which budget refused this message's own debt.
pub const COLUMN_LIMITED: &'static str = "limited";
/// The authority of the debt this message carries.
pub const COLUMN_DEBT_AUTHORITY: &'static str = "debt_authority";
/// The sender's public username as the platform delivered it at receipt.
pub const COLUMN_SPEAKER: &'static str = "speaker";
/// The platform's own id for the message this one replies to.
pub const COLUMN_REPLY_TARGET: &'static str = "reply_target";
/// Whether the message replies to one of the assistant's own messages.
pub const COLUMN_REPLY_TO_ASSISTANT: &'static str = "reply_to_assistant";
/// The platform's own id for the message this one is a new version of.
pub const COLUMN_REVISES: &'static str = "revises";

/// What an erased message contributes to a projected request in place of
/// its nulled prose.
pub const ERASED_MARKER: &'static str = "[message erased]";

/// What a revision carries at the head of its text, so the model reads the
/// line as the same message, said differently.
pub const EDITED_MARKER: &'static str = "(edited)";

/// Whether a delivered handle may be stored as the speaker: non-empty,
/// free of the prefix separator, and free of white space.
pub open spec fn storable_speaker_spec(handle: Seq<char>) -> bool {
    &&& handle.len() > 0
    &&& !handle.contains(':')
    &&& forall|i: int| 0 <= i < handle.len() ==> !white_space(#[trigger] handle[i])
}

/// Whether a delivered handle may be stored as the speaker. The stored
/// handle becomes the projected prefix `speaker: text`, so the prefix must
/// be unambiguous: an empty handle, one carrying ':' and one carrying white
/// space are refused, and a refused handle stores NULL.
pub fn storable_speaker(handle: &str) -> (storable: bool)
    ensures
        storable == storable_speaker_spec(handle@),
{
    handle.unicode_len() > 0 && !contains_char(handle, ':') && !contains_white_space(handle)
}

/// The projected id mark of one recorded message: the stored origin in
/// brackets.
pub open spec fn origin_mark(origin: Seq<char>) -> Seq<char> {
    "["@ + origin + "]"@
}

/// The projected id mark of one recorded message: the stored origin in
/// brackets, ahead of the speaker prefix and the text.
pub fn projected_origin_mark(origin: &str) -> (mark: String)
    ensures
        mark@ == origin_mark(origin@),
{
    concat3("[", origin, "]")
}

/// Why a message's own debt was never taken — the stored vocabulary of the
/// limited stamp.
#[derive(Debug, Clone, Copy, PartialEq, Eq, Structural)]
pub enum LimitedBy {
    /// The sender's own budget refused, counted globally across
    /// conversations.
    Principal,
    /// The conversation's budget refused.
    Channel,
    /// The message is a command with a deterministic answer: it opens no
    /// debt.
    Command,
}

impl LimitedBy {
    /// Every variant, in stored-encoding order.
    pub const ALL: [LimitedBy; 3] = [LimitedBy::Principal, LimitedBy::Channel, LimitedBy::Command];

    /// The stored encoding of a refusal.
    pub open spec fn encoding(self) -> Seq<char> {
        match self {
            LimitedBy::Principal => "principal"@,
            LimitedBy::Channel => "channel"@,
            LimitedBy::Command => "command"@,
        }
    }

    /// The stored encoding, a closed vocabulary.
    pub fn as_str(self) -> (s: &'static str)
        ensures
            s@ == self.encoding(),
    {
        match self {
            LimitedBy::Principal => "principal",
            LimitedBy::Channel => "channel",
            LimitedBy::Command => "command",
        }
    }

    /// Parse the stored encoding back, `None` for anything outside the
    /// vocabulary.
    pub fn parse(stored: &str) -> (limited: Option<LimitedBy>)
        ensures
            limited matches Some(l) ==> l.encoding() == stored@,
            limited is None ==> forall|l: LimitedBy| l.encoding() != stored@,
    {
        proof {
            reveal_strlit("principal");
            reveal_strlit("channel");
            reveal_strlit("command");
        }
        if str_eq(stored, "principal") {
            Some(LimitedBy::Principal)
        } else if str_eq(stored, "channel") {
            Some(LimitedBy::Channel)
        } else if str_eq(stored, "command") {
            Some(LimitedBy::Command)
        } else {
            proof {
                assert forall|l: LimitedBy| l.encoding() != stored@ by {
                    match l {
                        LimitedBy::Principal => {},
                        LimitedBy::Channel => {},
                        LimitedBy::Command => {},
                    }
                }
            }
            None
        }
    }
}

/// The debt an owing tail hands the next message's stamp: the authority
/// its unanswered answer-due carries, already folded.
#[derive(Debug, Clone, Copy, PartialEq, Eq, Structural)]
pub struct TailDebt {
    /// The carried debt's authority, folded.
    pub authority: Option<Authority>,
}

/// The sender as one write records them.
#[derive(Debug, Clone, Copy)]
pub struct RecordedSender<'a> {
    /// The resolved principal id.
    pub principal_id: i64,
    /// The sender's standing at receipt.
    pub authority: Authority,
    /// The sender's public username at receipt; `None` stores NULL, and a
    /// handle outside [`storable_speaker`]'s bound stores NULL the same way.
    pub speaker: Option<&'a str>,
}

/// The two platform identifiers one write records.
#[derive(Debug, Clone, Copy, Default)]
pub struct RecordedOrigin<'a> {
    /// This version's own identifier.
    pub origin: Option<&'a str>,
    /// The identifier of the message this one is a new version of.
    pub revises: Option<&'a str>,
}

/// The summons resolution's two facts, decided together.
#[derive(Debug, Clone, Copy, PartialEq, Eq, Structural)]
pub struct Summons {
    /// Whether the message summoned the assistant, mode folded in.
    pub summoned: bool,
    /// Whether the user literally addressed the assistant.
    pub literal_addressed: bool,
}

/// The write-time stamp: the facts the entry point decides once at the
/// insert.
#[derive(Debug, Clone, Copy, PartialEq, Eq, Structural)]
pub struct Stamp {
    /// Whether the message summoned the assistant.
    pub addressed: bool,
    /// Whether the user literally addressed the assistant.
    pub literal_addressed: bool,
    /// Which budget refused the message's own debt, if any.
    pub limited: Option<LimitedBy>,
    /// Whether the message owes the model a turn.
    pub answer_due: bool,
    /// The authority of the debt the message carries.
    pub debt_authority: Option<Authority>,
}

/// The stamp the composition and minimum rules give: answer-due is
/// (summoned and not limited) or tail-owes; a carried debt takes the lowest
/// authority that contributed to it, and a fresh taken debt opens at its
/// sender's own authority.
pub open spec fn composed_stamp(
    summons: Summons,
    sender: Authority,
    limited: Option<LimitedBy>,
    owing_tail: Option<TailDebt>,
) -> Stamp {
    let own_debt_taken = summons.summoned && limited is None;
    Stamp {
        addressed: summons.summoned,
        literal_addressed: summons.literal_addressed,
        limited,
        answer_due: own_debt_taken || owing_tail is Some,
        debt_authority: match owing_tail {
            Some(tail) => Some(
                match tail.authority {
                    Some(carried) => carried.lower(sender),
                    None => sender,
                },
            ),
            None => if own_debt_taken {
                Some(sender)
            } else {
                None
            },
        },
    }
}

impl Stamp {
    /// Compose the stamp from the write's inputs: the resolved summons,
    /// the sender's authority, the first refusing budget, and the owing
    /// tail's debt if the conversation carries one.
    pub fn compose(
        summons: Summons,
        sender: Authority,
        limited: Option<LimitedBy>,
        owing_tail: Option<TailDebt>,
    ) -> (stamp: Stamp)
        ensures
            stamp == composed_stamp(summons, sender, limited, owing_tail),
    {
        let own_debt_taken = summons.summoned && limited.is_none();
        Stamp {
            addressed: summons.summoned,
            literal_addressed: summons.literal_addressed,
            limited,
            answer_due: own_debt_taken || owing_tail.is_some(),
            debt_authority: match owing_tail {
                Some(tail) => Some(
                    match tail.authority {
                        Some(carried) => carried.min_with(sender),
                        None => sender,
                    },
                ),
                None => if own_debt_taken {
                    Some(sender)
                } else {
                    None
                },
            },
        }
    }

    /// Whether a stamp's own debt was taken — summoned and no budget
    /// refused.
    pub open spec fn own_debt_taken_spec(self) -> bool {
        self.addressed && self.limited is None
    }

    /// Whether this message's own debt was taken — summoned and no budget
    /// refused.
    pub fn own_debt_taken(&self) -> (taken: bool)
        ensures
            taken == self.own_debt_taken_spec(),
    {
        self.addressed && self.limited.is_none()
    }
}

/// A propagated debt is never cancelled: whatever refused the message's
/// own debt, a conversation whose tail owes an answer hands that debt on,
/// and the carried authority is no higher than either contributor's.
pub proof fn a_tail_debt_always_propagates(
    summons: Summons,
    sender: Authority,
    limited: Option<LimitedBy>,
    tail: TailDebt,
)
    ensures
        composed_stamp(summons, sender, limited, Some(tail)).answer_due,
        composed_stamp(summons, sender, limited, Some(tail)).debt_authority.unwrap().rank()
            <= sender.rank(),
        tail.authority matches Some(carried) ==> composed_stamp(
            summons,
            sender,
            limited,
            Some(tail),
        ).debt_authority.unwrap().rank() <= carried.rank(),
{
}

/// With no debt behind it, a message owes a turn exactly when it summoned
/// the assistant and no budget refused it, and then at its sender's own
/// authority; a message that owes nothing carries no debt authority.
pub proof fn a_fresh_debt_is_the_senders_own(
    summons: Summons,
    sender: Authority,
    limited: Option<LimitedBy>,
)
    ensures
        composed_stamp(summons, sender, limited, None).answer_due == (summons.summoned
            && limited is None),
        composed_stamp(summons, sender, limited, None).answer_due ==> composed_stamp(
            summons,
            sender,
            limited,
            None,
        ).debt_authority == Some(sender),
        !composed_stamp(summons, sender, limited, None).answer_due ==> composed_stamp(
            summons,
            sender,
            limited,
            None,
        ).debt_authority is None,
{
}

/// One loaded chat message as a mathematical record.
pub struct ChatRecord {
    /// The block's voice.
    pub role: Option<Role>,
    /// What was said; `None` is an erased message.
    pub text: Option<Seq<char>>,
    /// The sender's principal id.
    pub principal_id: Option<i64>,
    /// The sender's standing at receipt.
    pub authority: Option<Authority>,
    /// The sender's public username at receipt.
    pub speaker: Option<Seq<char>>,
    /// The platform's own id for the message.
    pub origin: Option<Seq<char>>,
    /// The origin of the message this one is a new version of.
    pub revises: Option<Seq<char>>,
    /// The platform's send time.
    pub sent_at: Option<Seq<char>>,
    /// Whether the message summoned the assistant.
    pub addressed: Option<bool>,
    /// Whether the user literally addressed the assistant.
    pub literal_addressed: Option<bool>,
    /// Whether the message owes the model a turn.
    pub answer_due: Option<bool>,
    /// Which budget refused this message's own debt.
    pub limited: Option<LimitedBy>,
    /// The authority of the debt this message carries.
    pub debt_authority: Option<Authority>,
    /// The origin of the message this one replies to.
    pub reply_target: Option<Seq<char>>,
    /// Whether the reply points at one of the assistant's own messages.
    pub reply_to_assistant: Option<bool>,
}

/// The characters an optional string holds.
pub open spec fn opt_view(s: Option<String>) -> Option<Seq<char>> {
    match s {
        Some(s) => Some(s@),
        None => None,
    }
}

/// The characters an optional borrowed string holds.
pub open spec fn opt_str_view(s: Option<&str>) -> Option<Seq<char>> {
    match s {
        Some(s) => Some(s@),
        None => None,
    }
}

/// A standing read back from its stored encoding.
pub open spec fn authority_of(stored: Option<Seq<char>>) -> Option<Authority> {
    match stored {
        Some(s) => if s == Authority::Member.encoding() {
            Some(Authority::Member)
        } else if s == Authority::Moderator.encoding() {
            Some(Authority::Moderator)
        } else if s == Authority::Admin.encoding() {
            Some(Authority::Admin)
        } else {
            None
        },
        None => None,
    }
}

/// A refusal read back from its stored encoding.
pub open spec fn limited_of(stored: Option<Seq<char>>) -> Option<LimitedBy> {
    match stored {
        Some(s) => if s == LimitedBy::Principal.encoding() {
            Some(LimitedBy::Principal)
        } else if s == LimitedBy::Channel.encoding() {
            Some(LimitedBy::Channel)
        } else if s == LimitedBy::Command.encoding() {
            Some(LimitedBy::Command)
        } else {
            None
        },
        None => None,
    }
}

/// The record a stored row reads back as: every column by its own name,
/// and every absence kept an absence.
pub open spec fn chat_record_of(role: Option<Role>, row: Map<Seq<char>, Stored>) -> ChatRecord {
    ChatRecord {
        role,
        text: text_spec(row, COLUMN_TEXT@),
        principal_id: integer_spec(row, COLUMN_PRINCIPAL_ID@),
        authority: authority_of(text_spec(row, COLUMN_AUTHORITY@)),
        speaker: text_spec(row, COLUMN_SPEAKER@),
        origin: text_spec(row, COLUMN_ORIGIN@),
        revises: text_spec(row, COLUMN_REVISES@),
        sent_at: text_spec(row, COLUMN_SENT_AT@),
        addressed: boolean_spec(row, COLUMN_ADDRESSED@),
        literal_addressed: boolean_spec(row, COLUMN_LITERAL_ADDRESSED@),
        answer_due: boolean_spec(row, COLUMN_ANSWER_DUE@),
        limited: limited_of(text_spec(row, COLUMN_LIMITED@)),
        debt_authority: authority_of(text_spec(row, COLUMN_DEBT_AUTHORITY@)),
        reply_target: text_spec(row, COLUMN_REPLY_TARGET@),
        reply_to_assistant: boolean_spec(row, COLUMN_REPLY_TO_ASSISTANT@),
    }
}

/// The row one write stores: every column the write carries, under its
/// own name, and nothing else. The speaker is stored only when storable;
/// a reply's target origin is stored only for a reply to somebody else's
/// message, and a reply to the assistant's own message stores the flag
/// alone.
pub open spec fn chat_row(
    text: Seq<char>,
    principal_id: i64,
    authority: Authority,
    speaker: Option<Seq<char>>,
    origin: Option<Seq<char>>,
    revises: Option<Seq<char>>,
    reply_target: Option<ReplyTarget>,
    sent_at: Seq<char>,
    stamp: Stamp,
) -> Map<Seq<char>, Stored> {
    let base = Map::<Seq<char>, Stored>::empty().insert(COLUMN_TEXT@, Stored::Text(text)).insert(
        COLUMN_PRINCIPAL_ID@,
        Stored::Integer(principal_id),
    ).insert(COLUMN_AUTHORITY@, Stored::Text(authority.encoding()));
    let with_speaker = match speaker {
        Some(s) => if storable_speaker_spec(s) {
            base.insert(COLUMN_SPEAKER@, Stored::Text(s))
        } else {
            base
        },
        None => base,
    };
    let with_origin = match origin {
        Some(o) => with_speaker.insert(COLUMN_ORIGIN@, Stored::Text(o)),
        None => with_speaker,
    };
    let with_revises = match revises {
        Some(r) => with_origin.insert(COLUMN_REVISES@, Stored::Text(r)),
        None => with_origin,
    };
    let with_reply = match reply_target {
        Some(ReplyTarget::Message { origin }) => with_revises.insert(
            COLUMN_REPLY_TARGET@,
            Stored::Text(origin@),
        ),
        Some(ReplyTarget::AssistantMessage { .. }) => with_revises.insert(
            COLUMN_REPLY_TO_ASSISTANT@,
            Stored::Boolean(true),
        ),
        None => with_revises,
    };
    let stamped = with_reply.insert(COLUMN_SENT_AT@, Stored::Text(sent_at)).insert(
        COLUMN_ADDRESSED@,
        Stored::Boolean(stamp.addressed),
    ).insert(COLUMN_LITERAL_ADDRESSED@, Stored::Boolean(stamp.literal_addressed)).insert(
        COLUMN_ANSWER_DUE@,
        Stored::Boolean(stamp.answer_due),
    );
    let with_limited = match stamp.limited {
        Some(l) => stamped.insert(COLUMN_LIMITED@, Stored::Text(l.encoding())),
        None => stamped,
    };
    match stamp.debt_authority {
        Some(a) => with_limited.insert(COLUMN_DEBT_AUTHORITY@, Stored::Text(a.encoding())),
        None => with_limited,
    }
}

/// What the closed vocabulary's parse promises pins the stored standing.
proof fn lemma_parsed_authority(stored: Seq<char>, parsed: Option<Authority>)
    requires
        parsed matches Some(a) ==> a.encoding() == stored,
        parsed is None ==> forall|a: Authority| a.encoding() != stored,
    ensures
        parsed == authority_of(Some(stored)),
{
    reveal_strlit("member");
    reveal_strlit("moderator");
    reveal_strlit("admin");
    match parsed {
        Some(a) => {
            assert("member"@.len() == 6 && "moderator"@.len() == 9 && "admin"@.len() == 5);
            assert(a.encoding() == stored);
        },
        None => {
            assert(Authority::Member.encoding() != stored);
            assert(Authority::Moderator.encoding() != stored);
            assert(Authority::Admin.encoding() != stored);
        },
    }
}

/// What the closed vocabulary's parse promises pins the stored refusal.
proof fn lemma_parsed_limited(stored: Seq<char>, parsed: Option<LimitedBy>)
    requires
        parsed matches Some(l) ==> l.encoding() == stored,
        parsed is None ==> forall|l: LimitedBy| l.encoding() != stored,
    ensures
        parsed == limited_of(Some(stored)),
{
    reveal_strlit("principal");
    reveal_strlit("channel");
    reveal_strlit("command");
    match parsed {
        Some(l) => {
            assert("principal"@.len() == 9 && "channel"@[1] == 'h' && "command"@[1] == 'o');
            assert(l.encoding() == stored);
        },
        None => {
            assert(LimitedBy::Principal.encoding() != stored);
            assert(LimitedBy::Channel.encoding() != stored);
            assert(LimitedBy::Command.encoding() != stored);
        },
    }
}

/// A standing column read back through the closed vocabulary.
fn stored_authority(fields: &Fields, column: &str) -> (authority: Option<Authority>)
    ensures
        authority == authority_of(text_spec(fields.view(), column@)),
{
    match fields.text(column) {
        Some(stored) => {
            let parsed = Authority::parse(stored.as_str());
            proof {
                lemma_parsed_authority(stored@, parsed);
            }
            parsed
        },
        None => None,
    }
}

/// A refusal column read back through the closed vocabulary.
fn stored_limited(fields: &Fields, column: &str) -> (limited: Option<LimitedBy>)
    ensures
        limited == limited_of(text_spec(fields.view(), column@)),
{
    match fields.text(column) {
        Some(stored) => {
            let parsed = LimitedBy::parse(stored.as_str());
            proof {
                lemma_parsed_limited(stored@, parsed);
            }
            parsed
        },
        None => None,
    }
}

/// One recorded channel message: who said it (by principal id only), with
/// what standing, and what was said. Every absence stays an absence; `text`
/// is the one absence with stored meaning — erased.
#[derive(Debug, Clone)]
pub struct ChatMessage {
    /// The block's voice, read back from the stored row.
    pub role: Option<Role>,
    /// What was said. `None` is an erased message.
    pub text: Option<String>,
    /// The sender's principal id in the identity tables.
    pub principal_id: Option<i64>,
    /// The sender's standing at receipt.
    pub authority: Option<Authority>,
    /// The sender's public username at receipt.
    pub speaker: Option<String>,
    /// The platform's own id for the message, opaque.
    pub origin: Option<String>,
    /// The origin of the message this one is a new version of.
    pub revises: Option<String>,
    /// The platform's send time, RFC 3339.
    pub sent_at: Option<String>,
    /// Whether the message summoned the assistant.
    pub addressed: Option<bool>,
    /// Whether the user literally addressed the assistant.
    pub literal_addressed: Option<bool>,
    /// Whether the message owes the model a turn, stamped at the write.
    pub answer_due: Option<bool>,
    /// Which budget refused this message's own debt.
    pub limited: Option<LimitedBy>,
    /// The authority of the debt this message carries.
    pub debt_authority: Option<Authority>,
    /// The origin of the message this one replies to.
    pub reply_target: Option<String>,
    /// Whether the reply points at one of the assistant's own messages.
    pub reply_to_assistant: Option<bool>,
}

/// Whether a record owes the model a turn: user-voiced, stamped
/// answer-due, and not erased.
pub open spec fn owes_answer_spec(r: ChatRecord) -> bool {
    r.role == Some(Role::User) && r.text is Some && r.answer_due == Some(true)
}

/// Whether the owing-tail walk reads through a record: erased, or stamped
/// false.
pub open spec fn transparent_spec(r: ChatRecord) -> bool {
    r.text is None || r.answer_due == Some(false)
}

/// The authority of the debt an owing record hands on, folded to the
/// sender's own where the row predates the debt stamp.
pub open spec fn carried_debt_authority_spec(r: ChatRecord) -> Option<Authority> {
    match r.debt_authority {
        Some(a) => Some(a),
        None => r.authority,
    }
}

/// The text a record projects to the model: the erased marker for an
/// erased row; otherwise the text, opened by the edited marker for a
/// revision, prefixed by the speaker for a user-voiced row with a stored
/// speaker, and opened by the id mark — the revised message's id for a
/// revision — for a user-voiced row with a stored origin.
pub open spec fn projected_text_spec(r: ChatRecord) -> Seq<char> {
    match r.text {
        None => ERASED_MARKER@,
        Some(text) => {
            let said = if r.revises is Some {
                EDITED_MARKER@ + " "@ + text
            } else {
                text
            };
            let line = if r.speaker is Some && r.role == Some(Role::User) {
                r.speaker.unwrap() + ": "@ + said
            } else {
                said
            };
            let named = if r.revises is Some {
                r.revises
            } else {
                r.origin
            };
            if named is Some && r.role == Some(Role::User) {
                origin_mark(named.unwrap()) + " "@ + line
            } else {
                line
            }
        },
    }
}

impl ChatMessage {
    /// The message as a mathematical record.
    pub open spec fn record(&self) -> ChatRecord {
        ChatRecord {
            role: self.role,
            text: opt_view(self.text),
            principal_id: self.principal_id,
            authority: self.authority,
            speaker: opt_view(self.speaker),
            origin: opt_view(self.origin),
            revises: opt_view(self.revises),
            sent_at: opt_view(self.sent_at),
            addressed: self.addressed,
            literal_addressed: self.literal_addressed,
            answer_due: self.answer_due,
            limited: self.limited,
            debt_authority: self.debt_authority,
            reply_target: opt_view(self.reply_target),
            reply_to_assistant: self.reply_to_assistant,
        }
    }

    /// The stored shape of one recorded message: the columns the append
    /// carries, named by the same columns [`ChatMessage::parse`] reads back.
    pub fn stored_fields(
        text: &str,
        sender: RecordedSender<'_>,
        identifiers: RecordedOrigin<'_>,
        reply_target: Option<&ReplyTarget>,
        sent_at: &str,
        stamp: Stamp,
    ) -> (fields: Fields)
        ensures
            fields.view() == chat_row(
                text@,
                sender.principal_id,
                sender.authority,
                opt_str_view(sender.speaker),
                opt_str_view(identifiers.origin),
                opt_str_view(identifiers.revises),
                match reply_target {
                    Some(t) => Some(*t),
                    None => None,
                },
                sent_at@,
                stamp,
            ),
    {
        let mut fields = Fields::new();
        fields.insert_text(COLUMN_TEXT, text);
        fields.insert_integer(COLUMN_PRINCIPAL_ID, sender.principal_id);
        fields.insert_text(COLUMN_AUTHORITY, sender.authority.as_str());
        match sender.speaker {
            Some(speaker) => {
                if storable_speaker(speaker) {
                    fields.insert_text(COLUMN_SPEAKER, speaker);
                }
            },
            None => {},
        }
        match identifiers.origin {
            Some(origin) => fields.insert_text(COLUMN_ORIGIN, origin),
            None => {},
        }
        match identifiers.revises {
            Some(revises) => fields.insert_text(COLUMN_REVISES, revises),
            None => {},
        }
        match reply_target {
            Some(ReplyTarget::Message { origin }) => fields.insert_text(
                COLUMN_REPLY_TARGET,
                origin.as_str(),
            ),
            Some(ReplyTarget::AssistantMessage { .. }) => fields.insert_boolean(
                COLUMN_REPLY_TO_ASSISTANT,
                true,
            ),
            None => {},
        }
        fields.insert_text(COLUMN_SENT_AT, sent_at);
        fields.insert_boolean(COLUMN_ADDRESSED, stamp.addressed);
        fields.insert_boolean(COLUMN_LITERAL_ADDRESSED, stamp.literal_addressed);
        fields.insert_boolean(COLUMN_ANSWER_DUE, stamp.answer_due);
        match stamp.limited {
            Some(limited) => fields.insert_text(COLUMN_LIMITED, limited.as_str()),
            None => {},
        }
        match stamp.debt_authority {
            Some(debt_authority) => fields.insert_text(
                COLUMN_DEBT_AUTHORITY,
                debt_authority.as_str(),
            ),
            None => {},
        }
        fields
    }

    /// One loaded block read as a chat message: every column by its own
    /// name, every absence kept an absence.
    pub fn parse(block: &Block) -> (message: ChatMessage)
        ensures
            message.record() == chat_record_of(block.role, block.fields.view()),
    {
        let fields = &block.fields;
        let authority = stored_authority(fields, COLUMN_AUTHORITY);
        let limited = stored_limited(fields, COLUMN_LIMITED);
        let debt_authority = stored_authority(fields, COLUMN_DEBT_AUTHORITY);
        ChatMessage {
            role: block.role,
            text: fields.text(COLUMN_TEXT),
            principal_id: fields.integer(COLUMN_PRINCIPAL_ID),
            authority,
            speaker: fields.text(COLUMN_SPEAKER),
            origin: fields.text(COLUMN_ORIGIN),
            revises: fields.text(COLUMN_REVISES),
            sent_at: fields.text(COLUMN_SENT_AT),
            addressed: fields.boolean(COLUMN_ADDRESSED),
            literal_addressed: fields.boolean(COLUMN_LITERAL_ADDRESSED),
            answer_due: fields.boolean(COLUMN_ANSWER_DUE),
            limited,
            debt_authority,
            reply_target: fields.text(COLUMN_REPLY_TARGET),
            reply_to_assistant: fields.boolean(COLUMN_REPLY_TO_ASSISTANT),
        }
    }

    /// Whether this message still owes the model a turn: user-voiced,
    /// stamped answer-due, and still holding its text.
    pub fn owes_answer(&self) -> (owes: bool)
        ensures
            owes == owes_answer_spec(self.record()),
    {
        let user = match self.role {
            Some(Role::User) => true,
            _ => false,
        };
        user && self.text.is_some() && match self.answer_due {
            Some(due) => due,
            None => false,
        }
    }

    /// Whether erasure emptied this message.
    pub fn erased(&self) -> (erased: bool)
        ensures
            erased == (self.record().text is None),
    {
        self.text.is_none()
    }

    /// Whether the owing-tail walk reads through this row instead of
    /// settling on it: an erased row, or a row whose stamp is false.
    pub fn transparent_to_the_walk(&self) -> (transparent: bool)
        ensures
            transparent == transparent_spec(self.record()),
    {
        self.erased() || match self.answer_due {
            Some(due) => !due,
            None => false,
        }
    }

    /// The authority of the debt an owing tail hands the next message —
    /// the stored debt authority, folded to the row's sender authority
    /// where the row carries none.
    pub fn carried_debt_authority(&self) -> (authority: Option<Authority>)
        ensures
            authority == carried_debt_authority_spec(self.record()),
    {
        match self.debt_authority {
            Some(a) => Some(a),
            None => self.authority,
        }
    }

    /// Whether this message's own debt was taken — summoned, and no budget
    /// refused.
    pub fn own_debt_taken(&self) -> (taken: bool)
        ensures
            taken == (self.record().addressed == Some(true) && self.record().limited is None),
    {
        let summoned = match self.addressed {
            Some(a) => a,
            None => false,
        };
        summoned && self.limited.is_none()
    }

    /// The message's projected contribution for the model.
    pub fn llm_text(&self) -> (text: String)
        ensures
            text@ == projected_text_spec(self.record()),
    {
        let text = match &self.text {
            Some(text) => text,
            None => return ERASED_MARKER.to_owned(),
        };
        let said = match &self.revises {
            Some(_) => concat3(EDITED_MARKER, " ", text.as_str()),
            None => text.clone(),
        };
        let user = match self.role {
            Some(Role::User) => true,
            _ => false,
        };
        let line = match &self.speaker {
            Some(speaker) => if user {
                concat3(speaker.as_str(), ": ", said.as_str())
            } else {
                said
            },
            None => said,
        };
        let named = match &self.revises {
            Some(revises) => Some(revises),
            None => match &self.origin {
                Some(origin) => Some(origin),
                None => None,
            },
        };
        match named {
            Some(named) => if user {
                let mark = projected_origin_mark(named.as_str());
                concat3(mark.as_str(), " ", line.as_str())
            } else {
                line
            },
            None => line,
        }
    }
}

/// The record one write reads back as: every fact the write carried under
/// its own column, the speaker only when storable, the reply's origin only
/// for a reply to somebody else's message, and the flag alone for a reply
/// to the assistant's own.
pub open spec fn written_record(
    role: Option<Role>,
    text: Seq<char>,
    principal_id: i64,
    authority: Authority,
    speaker: Option<Seq<char>>,
    origin: Option<Seq<char>>,
    revises: Option<Seq<char>>,
    reply_target: Option<ReplyTarget>,
    sent_at: Seq<char>,
    stamp: Stamp,
) -> ChatRecord {
    ChatRecord {
        role,
        text: Some(text),
        principal_id: Some(principal_id),
        authority: Some(authority),
        speaker: match speaker {
            Some(s) => if storable_speaker_spec(s) {
                Some(s)
            } else {
                None
            },
            None => None,
        },
        origin,
        revises,
        sent_at: Some(sent_at),
        addressed: Some(stamp.addressed),
        literal_addressed: Some(stamp.literal_addressed),
        answer_due: Some(stamp.answer_due),
        limited: stamp.limited,
        debt_authority: stamp.debt_authority,
        reply_target: match reply_target {
            Some(ReplyTarget::Message { origin }) => Some(origin@),
            _ => None,
        },
        reply_to_assistant: match reply_target {
            Some(ReplyTarget::AssistantMessage { .. }) => Some(true),
            _ => None,
        },
    }
}

/// The stored shape and the parse are one encoding: a row written by
/// [`ChatMessage::stored_fields`] reads back through [`ChatMessage::parse`]
/// as exactly the facts the write carried, whatever voice the block has.
pub proof fn a_written_message_reads_back_as_written(
    role: Option<Role>,
    text: Seq<char>,
    principal_id: i64,
    authority: Authority,
    speaker: Option<Seq<char>>,
    origin: Option<Seq<char>>,
    revises: Option<Seq<char>>,
    reply_target: Option<ReplyTarget>,
    sent_at: Seq<char>,
    stamp: Stamp,
)
    ensures
        chat_record_of(
            role,
            chat_row(
                text,
                principal_id,
                authority,
                speaker,
                origin,
                revises,
                reply_target,
                sent_at,
                stamp,
            ),
        ) == written_record(
            role,
            text,
            principal_id,
            authority,
            speaker,
            origin,
            revises,
            reply_target,
            sent_at,
            stamp,
        ),
{
    lemma_columns_distinct();
    lemma_vocabularies_read_back();
    let row = chat_row(
        text,
        principal_id,
        authority,
        speaker,
        origin,
        revises,
        reply_target,
        sent_at,
        stamp,
    );
    let expected = written_record(
        role,
        text,
        principal_id,
        authority,
        speaker,
        origin,
        revises,
        reply_target,
        sent_at,
        stamp,
    );
    assert(text_spec(row, COLUMN_TEXT@) == expected.text);
    assert(integer_spec(row, COLUMN_PRINCIPAL_ID@) == expected.principal_id);
    assert(text_spec(row, COLUMN_AUTHORITY@) == Some(authority.encoding()));
    assert(text_spec(row, COLUMN_SPEAKER@) == expected.speaker);
    assert(text_spec(row, COLUMN_ORIGIN@) == expected.origin);
    assert(text_spec(row, COLUMN_REVISES@) == expected.revises);
    assert(text_spec(row, COLUMN_SENT_AT@) == expected.sent_at);
    assert(boolean_spec(row, COLUMN_ADDRESSED@) == expected.addressed);
    assert(boolean_spec(row, COLUMN_LITERAL_ADDRESSED@) == expected.literal_addressed);
    assert(boolean_spec(row, COLUMN_ANSWER_DUE@) == expected.answer_due);
    assert(limited_of(text_spec(row, COLUMN_LIMITED@)) == expected.limited);
    assert(authority_of(text_spec(row, COLUMN_DEBT_AUTHORITY@)) == expected.debt_authority);
    assert(text_spec(row, COLUMN_REPLY_TARGET@) == expected.reply_target);
    assert(boolean_spec(row, COLUMN_REPLY_TO_ASSISTANT@) == expected.reply_to_assistant);
}

/// The columns are pairwise distinct names.
proof fn lemma_columns_distinct()
    ensures
        COLUMN_TEXT@.len() == 4,
        COLUMN_PRINCIPAL_ID@.len() == 12,
        COLUMN_AUTHORITY@.len() == 9,
        COLUMN_SPEAKER@.len() == 7,
        COLUMN_ORIGIN@.len() == 6,
        COLUMN_REVISES@.len() == 7,
        COLUMN_SENT_AT@.len() == 7,
        COLUMN_ADDRESSED@.len() == 9,
        COLUMN_LITERAL_ADDRESSED@.len() == 17,
        COLUMN_ANSWER_DUE@.len() == 10,
        COLUMN_LIMITED@.len() == 7,
        COLUMN_DEBT_AUTHORITY@.len() == 14,
        COLUMN_REPLY_TARGET@.len() == 12,
        COLUMN_REPLY_TO_ASSISTANT@.len() == 18,
        COLUMN_SPEAKER@[0] == 's' && COLUMN_SPEAKER@[1] == 'p',
        COLUMN_REVISES@[0] == 'r' && COLUMN_REVISES@[1] == 'e',
        COLUMN_SENT_AT@[0] == 's' && COLUMN_SENT_AT@[1] == 'e',
        COLUMN_LIMITED@[0] == 'l' && COLUMN_LIMITED@[1] == 'i',
        COLUMN_AUTHORITY@[0] == 'a' && COLUMN_AUTHORITY@[1] == 'u',
        COLUMN_ADDRESSED@[0] == 'a' && COLUMN_ADDRESSED@[1] == 'd',
        COLUMN_PRINCIPAL_ID@[0] == 'p',
        COLUMN_REPLY_TARGET@[0] == 'r',
{
    reveal_strlit("text");
    reveal_strlit("principal_id");
    reveal_strlit("authority");
    reveal_strlit("speaker");
    reveal_strlit("origin");
    reveal_strlit("revises");
    reveal_strlit("sent_at");
    reveal_strlit("addressed");
    reveal_strlit("literal_addressed");
    reveal_strlit("answer_due");
    reveal_strlit("limited");
    reveal_strlit("debt_authority");
    reveal_strlit("reply_target");
    reveal_strlit("reply_to_assistant");
}

/// Every standing and every refusal reads back as itself.
proof fn lemma_vocabularies_read_back()
    ensures
        forall|a: Authority| authority_of(Some(#[trigger] a.encoding())) == Some(a),
        forall|l: LimitedBy| limited_of(Some(#[trigger] l.encoding())) == Some(l),
{
    assert forall|a: Authority| authority_of(Some(#[trigger] a.encoding())) == Some(a) by {
        lemma_parsed_authority(a.encoding(), Some(a));
    }
    assert forall|l: LimitedBy| limited_of(Some(#[trigger] l.encoding())) == Some(l) by {
        lemma_parsed_limited(l.encoding(), Some(l));
    }
}

/// Whether a list of stored kind strings names one kind.
pub open spec fn names_kind(kinds: Seq<&str>, kind: Seq<char>) -> bool {
    exists|i: int| 0 <= i < kinds.len() && (#[trigger] kinds[i])@ == kind
}

/// Whether a list of stored kind strings names one kind.
pub fn is_named(kinds: &[&str], kind: &str) -> (named: bool)
    ensures
        named == names_kind(kinds@, kind@),
{
    let mut i: usize = 0;
    while i < kinds.len()
        invariant
            i <= kinds@.len(),
            forall|j: int| 0 <= j < i ==> (#[trigger] kinds@[j])@ != kind@,
        decreases kinds@.len() - i,
    {
        if str_eq(kinds[i], kind) {
            return true;
        }
        i = i + 1;
    }
    false
}

/// The chat record a stored block reads as, when it is a chat message.
pub open spec fn block_record(block: Block) -> ChatRecord {
    chat_record_of(block.role, block.fields.view())
}

/// Whether a stored block is one of the assistant's chat messages.
pub open spec fn is_chat_block(block: Block) -> bool {
    block.block_type@ == CHAT_MESSAGE_KIND@
}

/// Whether the owing-tail walk reads through a block: a kind the caller
/// reads through, a kind no answer is ever owed from, or a chat row the
/// kind calls transparent — erased, or stamped false.
pub open spec fn read_through_spec(
    block: Block,
    read_through: Seq<&str>,
    never_answerable: Seq<&str>,
) -> bool {
    ||| names_kind(read_through, block.block_type@)
    ||| names_kind(never_answerable, block.block_type@)
    ||| (is_chat_block(block) && transparent_spec(block_record(block)))
}

/// The debt a block settles the walk with: a chat message that still owes
/// hands on its carried authority; anything else owes nothing.
pub open spec fn settled_debt(block: Block) -> Option<TailDebt> {
    if is_chat_block(block) && owes_answer_spec(block_record(block)) {
        Some(TailDebt { authority: carried_debt_authority_spec(block_record(block)) })
    } else {
        None
    }
}

/// The owing tail of a conversation's blocks, oldest first: the newest
/// block the walk does not read through settles it, and a conversation
/// with no such block owes nothing.
pub open spec fn owing_tail_spec(
    blocks: Seq<Block>,
    read_through: Seq<&str>,
    never_answerable: Seq<&str>,
) -> Option<TailDebt>
    decreases blocks.len(),
{
    if blocks.len() == 0 {
        None
    } else if read_through_spec(blocks.last(), read_through, never_answerable) {
        owing_tail_spec(blocks.drop_last(), read_through, never_answerable)
    } else {
        settled_debt(blocks.last())
    }
}

/// The debt already owed at the end of a conversation, read from its
/// blocks in ledger order: past every block of a read-through kind, every
/// block of a kind no answer is owed from, and every erased or false-stamped
/// chat row, the newest remaining block decides — an owing chat message
/// hands on its carried authority, anything else owes nothing.
pub fn owing_tail(
    blocks: &[Block],
    read_through: &[&str],
    never_answerable: &[&str],
) -> (debt: Option<TailDebt>)
    ensures
        debt == owing_tail_spec(blocks@, read_through@, never_answerable@),
{
    let mut n: usize = blocks.len();
    assert(blocks@.subrange(0, n as int) =~= blocks@);
    while n > 0
        invariant
            n <= blocks@.len(),
            owing_tail_spec(blocks@, read_through@, never_answerable@) == owing_tail_spec(
                blocks@.subrange(0, n as int),
                read_through@,
                never_answerable@,
            ),
        decreases n,
    {
        let block = &blocks[n - 1];
        let prefix = Ghost(blocks@.subrange(0, n as int));
        assert(prefix@.last() == *block);
        assert(prefix@.drop_last() =~= blocks@.subrange(0, n - 1));
        let chat = str_eq(block.block_type.as_str(), CHAT_MESSAGE_KIND);
        let skipped = if is_named(read_through, block.block_type.as_str()) || is_named(
            never_answerable,
            block.block_type.as_str(),
        ) {
            true
        } else if chat {
            ChatMessage::parse(block).transparent_to_the_walk()
        } else {
            false
        };
        if !skipped {
            if chat {
                let message = ChatMessage::parse(block);
                if message.owes_answer() {
                    return Some(TailDebt { authority: message.carried_debt_authority() });
                }
            }
            return None;
        }
        n = n - 1;
    }
    assert(blocks@.subrange(0, 0) =~= Seq::<Block>::empty());
    None
}

/// A block the walk reads through never changes what the conversation
/// owes: a debt behind a run of them still owes, and a conversation that
/// owed nothing still owes nothing.
pub proof fn a_read_through_block_leaves_the_debt_standing(
    blocks: Seq<Block>,
    block: Block,
    read_through: Seq<&str>,
    never_answerable: Seq<&str>,
)
    requires
        read_through_spec(block, read_through, never_answerable),
    ensures
        owing_tail_spec(blocks.push(block), read_through, never_answerable) == owing_tail_spec(
            blocks,
            read_through,
            never_answerable,
        ),
{
    assert(blocks.push(block).drop_last() =~= blocks);
}

/// A message that still owes, appended at the end, is the conversation's
/// owing tail, whatever stood behind it.
pub proof fn an_owing_message_is_the_owing_tail(
    blocks: Seq<Block>,
    block: Block,
    read_through: Seq<&str>,
    never_answerable: Seq<&str>,
)
    requires
        !names_kind(read_through, block.block_type@),
        !names_kind(never_answerable, block.block_type@),
        is_chat_block(block),
        owes_answer_spec(block_record(block)),
    ensures
        owing_tail_spec(blocks.push(block), read_through, never_answerable) == Some(
            TailDebt { authority: carried_debt_authority_spec(block_record(block)) },
        ),
{
    assert(blocks.push(block).last() == block);
}

/// The budget window as the count's `datetime` modifier: the window's whole
/// seconds, subtracted from the count's own present.
pub open spec fn window_modifier_spec(window_seconds: nat) -> Seq<char> {
    "-"@ + decimal_spec(window_seconds) + " seconds"@
}

/// The budget window as the count's `datetime` modifier, `-N seconds`.
/// Whole seconds by the budget's own contract, so no finer value exists to
/// lose here.
pub fn window_modifier(window_seconds: u64) -> (modifier: String)
    requires
        window_seconds > 0,
    ensures
        modifier@ == window_modifier_spec(window_seconds as nat),
{
    let digits = decimal(window_seconds);
    concat3("-", digits.as_str(), " seconds")
}

/// The rest of the counted-debt predicate, past the two column tests: the
/// debt is younger than the window whose modifier arrives as the second
/// parameter, and no empty answer of the assistant settled it.
pub const COUNTED_DEBT_TAIL: &'static str = " IS NULL AND datetime(b.created_at) > datetime('now', ?2) AND NOT EXISTS (SELECT 1 FROM blocks ab JOIN block_text at ON at.block_id = ab.id WHERE ab.dispatch_anchor = m.block_id AND at.role = 'assistant' AND trim(at.content, ' ' || char(9) || char(10) || char(13)) = '')";

/// The counted-debt predicate both budget counts share, over the message
/// alias `m` and the block-header alias `b`: an opened debt — summoned and
/// not limited — younger than the window, and not answered by an empty
/// answer.
pub open spec fn counted_debt_spec() -> Seq<char> {
    "m."@ + COLUMN_ADDRESSED@ + " = 1 AND m."@ + COLUMN_LIMITED@ + COUNTED_DEBT_TAIL@
}

/// The counted-debt predicate, built once from the kind's own column
/// names.
pub fn counted_debt_clause() -> (clause: String)
    ensures
        clause@ == counted_debt_spec(),
{
    let mut clause = concat3("m.", COLUMN_ADDRESSED, " = 1 AND m.");
    let ghost head = clause@;
    clause.append(COLUMN_LIMITED);
    clause.append(COUNTED_DEBT_TAIL);
    assert(clause@ =~= head + COLUMN_LIMITED@ + COUNTED_DEBT_TAIL@);
    clause
}

/// The count of debts one principal opened inside the window, across every
/// conversation, bound to the principal id and then the window modifier.
pub open spec fn opened_debts_by_principal_spec() -> Seq<char> {
    "SELECT COUNT(*) FROM "@ + CHAT_MESSAGE_TABLE@ + " m JOIN blocks b ON b.id = m.block_id WHERE m."@
        + COLUMN_PRINCIPAL_ID@ + " = ?1 AND "@ + counted_debt_spec()
}

/// The count of debts one principal opened inside the window.
pub fn opened_debts_by_principal_statement() -> (statement: String)
    ensures
        statement@ == opened_debts_by_principal_spec(),
{
    let counted = counted_debt_clause();
    let mut statement = concat3(
        "SELECT COUNT(*) FROM ",
        CHAT_MESSAGE_TABLE,
        " m JOIN blocks b ON b.id = m.block_id WHERE m.",
    );
    let ghost head = statement@;
    statement.append(COLUMN_PRINCIPAL_ID);
    statement.append(" = ?1 AND ");
    statement.append(counted.as_str());
    assert(statement@ =~= head + COLUMN_PRINCIPAL_ID@ + " = ?1 AND "@ + counted_debt_spec());
    statement
}

/// The count of debts opened inside the window in one conversation, by any
/// sender, bound to the conversation id and then the window modifier.
pub open spec fn opened_debts_in_conversation_spec() -> Seq<char> {
    "SELECT COUNT(*) FROM conversation_blocks cb JOIN "@ + CHAT_MESSAGE_TABLE@
        + " m ON m.block_id = cb.block_id JOIN blocks b ON b.id = m.block_id WHERE cb.conversation_id = ?1 AND "@
        + counted_debt_spec()
}

/// The count of debts opened inside the window in one conversation.
pub fn opened_debts_in_conversation_statement() -> (statement: String)
    ensures
        statement@ == opened_debts_in_conversation_spec(),
{
    let counted = counted_debt_clause();
    let mut statement = concat3(
        "SELECT COUNT(*) FROM conversation_blocks cb JOIN ",
        CHAT_MESSAGE_TABLE,
        " m ON m.block_id = cb.block_id JOIN blocks b ON b.id = m.block_id WHERE cb.conversation_id = ?1 AND ",
    );
    let ghost head = statement@;
    statement.append(counted.as_str());
    assert(statement@ =~= head + counted_debt_spec());
    statement
}

/// One header line of a projected envelope: the key and the value, or
/// nothing where the value is absent.
pub open spec fn header_line(key: Seq<char>, value: Option<Seq<char>>) -> Seq<char> {
    match value {
        Some(v) => key + v + "\n"@,
        None => Seq::empty(),
    }
}

/// A statement inside its envelope: the opening rule, the author's handle,
/// the date and the message id — each only where it is known — the closing
/// rule, then the statement.
pub open spec fn envelope_spec(
    from: Option<Seq<char>>,
    date: Option<Seq<char>>,
    msgid: Option<Seq<char>>,
    statement: Seq<char>,
) -> Seq<char> {
    "---\n"@ + header_line("from: @"@, from) + header_line("date: "@, date) + header_line(
        "msgid: "@,
        msgid,
    ) + "---\n"@ + statement
}

/// The envelope a system-voiced record's statement is projected in.
#[derive(Debug, Clone, Copy)]
pub struct Envelope<'a> {
    /// The author's handle, where one is stored.
    pub from: Option<&'a str>,
    /// When the event happened, where known.
    pub date: Option<&'a str>,
    /// The platform's id for the event, where known.
    pub msgid: Option<&'a str>,
}

fn append_header(text: &mut String, key: &str, value: Option<&str>)
    ensures
        final(text)@ == old(text)@ + header_line(key@, opt_str_view(value)),
{
    match value {
        Some(v) => {
            let ghost before = text@;
            text.append(key);
            text.append(v);
            text.append("\n");
            assert(text@ =~= before + (key@ + v@ + "\n"@));
        },
        None => {
            assert(text@ =~= text@ + Seq::<char>::empty());
        },
    }
}

/// A statement inside its envelope.
pub fn enveloped(envelope: Envelope<'_>, statement: &str) -> (text: String)
    ensures
        text@ == envelope_spec(
            opt_str_view(envelope.from),
            opt_str_view(envelope.date),
            opt_str_view(envelope.msgid),
            statement@,
        ),
{
    let mut text = "---\n".to_owned();
    append_header(&mut text, "from: @", envelope.from);
    append_header(&mut text, "date: ", envelope.date);
    append_header(&mut text, "msgid: ", envelope.msgid);
    text.append("---\n");
    text.append(statement);
    text
}

/// The newest block of a conversation's blocks, oldest first, that can
/// settle the owing-tail walk: past every block the walk reads through.
pub open spec fn newest_past_transparent_spec(
    blocks: Seq<Block>,
    read_through: Seq<&str>,
    never_answerable: Seq<&str>,
) -> Option<i64>
    decreases blocks.len(),
{
    if blocks.len() == 0 {
        None
    } else if read_through_spec(blocks.last(), read_through, never_answerable) {
        newest_past_transparent_spec(blocks.drop_last(), read_through, never_answerable)
    } else {
        Some(blocks.last().id)
    }
}

fn walks_through(block: &Block, read_through: &[&str], never_answerable: &[&str]) -> (through: bool)
    ensures
        through == read_through_spec(*block, read_through@, never_answerable@),
{
    if is_named(read_through, block.block_type.as_str()) || is_named(
        never_answerable,
        block.block_type.as_str(),
    ) {
        true
    } else if str_eq(block.block_type.as_str(), CHAT_MESSAGE_KIND) {
        ChatMessage::parse(block).transparent_to_the_walk()
    } else {
        false
    }
}

/// The id of the newest block that can settle the owing-tail walk: past
/// every block of a read-through kind, of a kind no answer is owed from,
/// and every erased or false-stamped chat row; `None` when nothing is
/// left.
pub fn newest_block_id_past_transparent(
    blocks: &[Block],
    read_through: &[&str],
    never_answerable: &[&str],
) -> (newest: Option<i64>)
    ensures
        newest == newest_past_transparent_spec(blocks@, read_through@, never_answerable@),
{
    let mut n: usize = blocks.len();
    assert(blocks@.subrange(0, n as int) =~= blocks@);
    while n > 0
        invariant
            n <= blocks@.len(),
            newest_past_transparent_spec(blocks@, read_through@, never_answerable@)
                == newest_past_transparent_spec(
                blocks@.subrange(0, n as int),
                read_through@,
                never_answerable@,
            ),
        decreases n,
    {
        let ghost prefix = blocks@.subrange(0, n as int);
        assert(prefix.drop_last() =~= blocks@.subrange(0, n - 1));
        assert(prefix.last() == blocks@[n - 1]);
        if !walks_through(&blocks[n - 1], read_through, never_answerable) {
            return Some(blocks[n - 1].id);
        }
        n = n - 1;
    }
    assert(blocks@.subrange(0, 0) =~= Seq::<Block>::empty());
    None
}

/// The columns erasure empties on a chat row: everything personal — the
/// words, the message's id and send time, the reply reference, the speaker
/// and the revision reference — and nothing structural.
pub const PERSONAL_COLUMNS: [&'static str; 6] = [
    COLUMN_TEXT,
    COLUMN_ORIGIN,
    COLUMN_SENT_AT,
    COLUMN_REPLY_TARGET,
    COLUMN_SPEAKER,
    COLUMN_REVISES,
];

/// The personal columns as texts.
pub open spec fn personal_columns() -> Seq<Seq<char>> {
    seq![COLUMN_TEXT@, COLUMN_ORIGIN@, COLUMN_SENT_AT@, COLUMN_REPLY_TARGET@, COLUMN_SPEAKER@, COLUMN_REVISES@]
}

/// A chat row once erasure emptied it: every personal column gone, every
/// other column as it was.
pub open spec fn erased_row(row: Map<Seq<char>, Stored>) -> Map<Seq<char>, Stored> {
    row.remove(COLUMN_TEXT@).remove(COLUMN_ORIGIN@).remove(COLUMN_SENT_AT@).remove(COLUMN_REPLY_TARGET@).remove(
        COLUMN_SPEAKER@,
    ).remove(COLUMN_REVISES@)
}

/// The update that empties every personal column of every message a
/// principal wrote.
pub open spec fn erase_principal_content_spec() -> Seq<char> {
    "UPDATE "@ + CHAT_MESSAGE_TABLE@ + " SET "@ + null_clause(personal_columns()) + " WHERE "@
        + COLUMN_PRINCIPAL_ID@ + " = ?1"@
}

/// The update that empties every personal column of every message a
/// principal wrote, bound to the principal id as its one parameter.
pub fn erase_principal_content_statement() -> (statement: String)
    ensures
        statement@ == erase_principal_content_spec(),
{
    let columns = PERSONAL_COLUMNS;
    let nulls = null_assignments(&columns);
    assert(column_texts(columns@) =~= personal_columns());
    let mut statement = concat3("UPDATE ", CHAT_MESSAGE_TABLE, " SET ");
    let ghost head = statement@;
    statement.append(nulls.as_str());
    statement.append(" WHERE ");
    statement.append(COLUMN_PRINCIPAL_ID);
    statement.append(" = ?1");
    assert(statement@ =~= head + null_clause(personal_columns()) + " WHERE "@ + COLUMN_PRINCIPAL_ID@
        + " = ?1"@);
    statement
}

/// The update that empties every version of one named message in one
/// conversation: its own row and every row revising it.
pub open spec fn erase_message_named_spec() -> Seq<char> {
    "UPDATE "@ + CHAT_MESSAGE_TABLE@ + " SET "@ + null_clause(personal_columns()) + " WHERE ("@
        + COLUMN_ORIGIN@ + " = ?1 OR "@ + COLUMN_REVISES@
        + " = ?1) AND EXISTS (SELECT 1 FROM conversation_blocks cb WHERE cb.block_id = "@
        + CHAT_MESSAGE_TABLE@ + ".block_id AND cb.conversation_id = ?2)"@
}

/// The update that empties every version of one named message, bound to
/// the named origin and then the conversation id.
pub fn erase_message_named_statement() -> (statement: String)
    ensures
        statement@ == erase_message_named_spec(),
{
    let columns = PERSONAL_COLUMNS;
    let nulls = null_assignments(&columns);
    assert(column_texts(columns@) =~= personal_columns());
    let mut statement = concat3("UPDATE ", CHAT_MESSAGE_TABLE, " SET ");
    let ghost head = statement@;
    statement.append(nulls.as_str());
    statement.append(" WHERE (");
    statement.append(COLUMN_ORIGIN);
    statement.append(" = ?1 OR ");
    statement.append(COLUMN_REVISES);
    statement.append(" = ?1) AND EXISTS (SELECT 1 FROM conversation_blocks cb WHERE cb.block_id = ");
    statement.append(CHAT_MESSAGE_TABLE);
    statement.append(".block_id AND cb.conversation_id = ?2)");
    assert(statement@ =~= head + null_clause(personal_columns()) + " WHERE ("@ + COLUMN_ORIGIN@
        + " = ?1 OR "@ + COLUMN_REVISES@
        + " = ?1) AND EXISTS (SELECT 1 FROM conversation_blocks cb WHERE cb.block_id = "@
        + CHAT_MESSAGE_TABLE@ + ".block_id AND cb.conversation_id = ?2)"@);
    statement
}

/// Erasure keeps a message's place and takes its words: an erased row
/// reads back erased, with no speaker, id, send time, reply reference or
/// revision reference; it projects the fixed marker alone, owes no turn,
/// and the owing-tail walk reads through it — while every structural fact,
/// the stamp included, stays as it was.
pub proof fn an_erased_message_keeps_its_place_and_loses_its_words(
    role: Option<Role>,
    row: Map<Seq<char>, Stored>,
)
    ensures
        ({
            let before = chat_record_of(role, row);
            let after = chat_record_of(role, erased_row(row));
            &&& after.text is None
            &&& after.speaker is None
            &&& after.origin is None
            &&& after.sent_at is None
            &&& after.reply_target is None
            &&& after.revises is None
            &&& projected_text_spec(after) == ERASED_MARKER@
            &&& !owes_answer_spec(after)
            &&& transparent_spec(after)
            &&& after.role == before.role
            &&& after.principal_id == before.principal_id
            &&& after.authority == before.authority
            &&& after.addressed == before.addressed
            &&& after.literal_addressed == before.literal_addressed
            &&& after.answer_due == before.answer_due
            &&& after.limited == before.limited
            &&& after.debt_authority == before.debt_authority
            &&& after.reply_to_assistant == before.reply_to_assistant
        }),
{
    lemma_columns_distinct();
    let erased = erased_row(row);
    assert(!erased.dom().contains(COLUMN_TEXT@));
    assert(!erased.dom().contains(COLUMN_SPEAKER@));
    assert(!erased.dom().contains(COLUMN_ORIGIN@));
    assert(!erased.dom().contains(COLUMN_SENT_AT@));
    assert(!erased.dom().contains(COLUMN_REPLY_TARGET@));
    assert(!erased.dom().contains(COLUMN_REVISES@));
    assert(text_spec(erased, COLUMN_AUTHORITY@) == text_spec(row, COLUMN_AUTHORITY@));
    assert(integer_spec(erased, COLUMN_PRINCIPAL_ID@) == integer_spec(row, COLUMN_PRINCIPAL_ID@));
    assert(boolean_spec(erased, COLUMN_ADDRESSED@) == boolean_spec(row, COLUMN_ADDRESSED@));
    assert(boolean_spec(erased, COLUMN_LITERAL_ADDRESSED@) == boolean_spec(row, COLUMN_LITERAL_ADDRESSED@));
    assert(boolean_spec(erased, COLUMN_ANSWER_DUE@) == boolean_spec(row, COLUMN_ANSWER_DUE@));
    assert(text_spec(erased, COLUMN_LIMITED@) == text_spec(row, COLUMN_LIMITED@));
    assert(text_spec(erased, COLUMN_DEBT_AUTHORITY@) == text_spec(row, COLUMN_DEBT_AUTHORITY@));
    assert(boolean_spec(erased, COLUMN_REPLY_TO_ASSISTANT@) == boolean_spec(row, COLUMN_REPLY_TO_ASSISTANT@));
}

/// Someone's deletion empties one ask, never the standing question behind
/// it: an erased chat row owes nothing itself, and the conversation owes
/// exactly what it owed before the row was appended.
pub proof fn an_erased_message_neither_owes_nor_buries_a_debt(
    blocks: Seq<Block>,
    block: Block,
    row: Map<Seq<char>, Stored>,
    read_through: Seq<&str>,
    never_answerable: Seq<&str>,
)
    requires
        is_chat_block(block),
        block.fields.view() == erased_row(row),
    ensures
        !owes_answer_spec(block_record(block)),
        owing_tail_spec(blocks.push(block), read_through, never_answerable) == owing_tail_spec(
            blocks,
            read_through,
            never_answerable,
        ),
{
    an_erased_message_keeps_its_place_and_loses_its_words(block.role, row);
    a_read_through_block_leaves_the_debt_standing(blocks, block, read_through, never_answerable);
}

/// The refusal vocabulary is closed and its encodings tell every refusal
/// apart, so a stored refusal reads back as itself.
pub proof fn refusal_encodings_are_injective()
    ensures
        forall|a: LimitedBy, b: LimitedBy| a.encoding() == b.encoding() ==> a == b,
        forall|l: LimitedBy| limited_of(Some(#[trigger] l.encoding())) == Some(l),
{
    lemma_vocabularies_read_back();
    assert forall|a: LimitedBy, b: LimitedBy| a.encoding() == b.encoding() implies a == b by {
        assert(limited_of(Some(a.encoding())) == Some(a));
        assert(limited_of(Some(b.encoding())) == Some(b));
    }
}

/// One recorded message a quote can reference: the block a span points
/// at, and the stored text a span is measured against.
#[derive(Debug, Clone, PartialEq, Eq)]
pub struct QuotableMessage {
    /// The block the span's endpoints name.
    pub block_id: i64,
    /// The message's stored text.
    pub text: String,
}

} // verus!
