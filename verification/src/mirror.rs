//! The deletion mirror: the moderation bot's reply deletion command,
//! mirrored into the store.
//!
//! Recognising the command and acting on it are two readings:
//! [`recognized_deletion`] answers "is this the other bot's deletion
//! command, and what does it name", which the write's command stamp reads,
//! and [`performed_deletion`] answers "does the assistant act on it", which
//! narrows it: a message revising another one acts on nothing.

use vstd::prelude::*;

use crate::message::{Authority, ChannelKind, InboundMessage, ReplyTarget};
use crate::strings::str_eq;

verus! {

/// The moderation bot's own deletion command, exactly as its
/// administrators type it in a reply.
pub const DELETION_COMMAND: &'static str = "/del";

/// The least standing the mirror accepts — the lower edge of the group's
/// administrator set.
pub const ADMINISTRATOR_FLOOR: Authority = Authority::Moderator;

/// What a recognized deletion command names, in the two shapes a reply can
/// take.
#[derive(Debug, Clone, Copy, PartialEq, Eq)]
#[allow(inconsistent_fields)]
pub enum DeletionAsk<'a> {
    /// A reply naming a message that is not the assistant's own.
    Message {
        /// The replied-to message's origin.
        origin: &'a str,
    },
    /// A reply naming one of the assistant's own messages.
    AssistantMessage {
        /// The replied-to message's origin, where the platform carried one.
        origin: Option<&'a str>,
    },
}

/// What a deletion ask names, as a value: the replied-to origin and
/// whether it is one of the assistant's own messages.
pub open spec fn ask_names(ask: DeletionAsk, target: ReplyTarget) -> bool {
    match (ask, target) {
        (DeletionAsk::Message { origin: a }, ReplyTarget::Message { origin: t }) => a@ == t@,
        (
            DeletionAsk::AssistantMessage { origin: a },
            ReplyTarget::AssistantMessage { origin: t },
        ) => match (a, t) {
            (Some(a), Some(t)) => a@ == t@,
            (None, None) => true,
            _ => false,
        },
        _ => false,
    }
}

/// Whether a message is the moderation bot's deletion command, sent by a
/// sender of this standing: the deletion token reported as the invoked
/// command, on a group channel, replying to a message, at or above the
/// administrator floor.
pub open spec fn is_deletion_command(message: InboundMessage, authority: Authority) -> bool {
    &&& message.command is Some
    &&& message.command.unwrap().token() == DELETION_COMMAND@
    &&& message.channel_kind == ChannelKind::Group
    &&& authority.rank() >= ADMINISTRATOR_FLOOR.rank()
    &&& message.reply_target is Some
}

/// What the message names as a deletion command's ask, exactly when the
/// message is the moderation bot's deletion command; `None` says the
/// message is ordinary.
pub fn recognized_deletion(message: &InboundMessage, authority: Authority) -> (ask: Option<
    DeletionAsk<'_>,
>)
    ensures
        ask is Some <==> is_deletion_command(*message, authority),
        ask matches Some(a) ==> ask_names(a, message.reply_target.unwrap()),
{
    let command = match &message.command {
        Some(command) => command,
        None => return None,
    };
    let in_group = match message.channel_kind {
        ChannelKind::Group => true,
        ChannelKind::Direct => false,
    };
    if !in_group || !authority.at_least(ADMINISTRATOR_FLOOR) || !str_eq(
        command.name(),
        DELETION_COMMAND,
    ) {
        return None;
    }
    match &message.reply_target {
        Some(ReplyTarget::Message { origin }) => Some(
            DeletionAsk::Message { origin: origin.as_str() },
        ),
        Some(ReplyTarget::AssistantMessage { origin }) => Some(
            DeletionAsk::AssistantMessage {
                origin: match origin {
                    Some(o) => Some(o.as_str()),
                    None => None,
                },
            },
        ),
        None => None,
    }
}

/// What the assistant performs of a recognized ask: the ask itself,
/// unless the message carrying it revises another one.
pub open spec fn performed_spec<'a>(
    message: InboundMessage,
    recognized: Option<DeletionAsk<'a>>,
) -> Option<DeletionAsk<'a>> {
    if message.revises is None {
        recognized
    } else {
        None
    }
}

/// What the assistant performs: the recognized ask, unless the message
/// revising another one carried it. A revision acts on nothing.
pub fn performed_deletion<'a>(
    message: &InboundMessage,
    recognized: Option<DeletionAsk<'a>>,
) -> (performed: Option<DeletionAsk<'a>>)
    ensures
        performed == performed_spec(*message, recognized),
{
    match message.revises {
        None => recognized,
        Some(_) => None,
    }
}

/// What the mirror acts on is always something recognition named, and a
/// revision acts on nothing: the performed ask is the recognized one or
/// nothing.
pub proof fn performed_is_within_recognized(message: InboundMessage, recognized: Option<DeletionAsk>)
    ensures
        performed_spec(message, recognized) matches Some(p) ==> recognized == Some(p),
        message.revises is Some ==> performed_spec(message, recognized) is None,
{
}

/// A performed deletion is always the moderation bot's own command, sent
/// by an administrator in a group and replying to a message, and never
/// carried by a revision.
pub proof fn a_performed_deletion_is_an_administrators_command(
    message: InboundMessage,
    authority: Authority,
    recognized: Option<DeletionAsk>,
)
    requires
        recognized is Some <==> is_deletion_command(message, authority),
    ensures
        performed_spec(message, recognized) is Some ==> {
            &&& is_deletion_command(message, authority)
            &&& message.revises is None
        },
{
}

} // verus!
