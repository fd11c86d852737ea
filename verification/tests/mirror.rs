use assistant_core::clock::Timestamp;
use assistant_core::message::{
    Authority, ChannelKey, ChannelKind, InboundMessage, InvokedCommand, ReplyTarget, SenderIdentity,
};
use assistant_core::mirror::{performed_deletion, recognized_deletion, DeletionAsk, DELETION_COMMAND};

fn deletion_reply() -> InboundMessage {
    InboundMessage {
        channel: ChannelKey {
            adapter: "test".into(),
            channel: "room".into(),
        },
        channel_kind: ChannelKind::Group,
        sender: SenderIdentity {
            external_id: "admin-1".into(),
            username: None,
            bot: false,
        },
        authority: Some(Authority::Admin),
        addressed: false,
        reply_target: Some(ReplyTarget::Message {
            origin: "origin-7".into(),
        }),
        quoted: None,
        command: Some(InvokedCommand::new(DELETION_COMMAND)),
        text: DELETION_COMMAND.into(),
        origin: Some("del-1".into()),
        revises: None,
        timestamp: Timestamp::from_unix(1_788_000_000, 0).expect("a representable instant"),
    }
}

fn acted(message: &InboundMessage, authority: Authority) -> Option<DeletionAsk<'_>> {
    performed_deletion(message, recognized_deletion(message, authority))
}

#[test]
fn the_administrator_sets_reply_deletion_names_its_target() {
    let message = deletion_reply();
    for standing in [Authority::Moderator, Authority::Admin] {
        assert_eq!(
            acted(&message, standing),
            Some(DeletionAsk::Message { origin: "origin-7" }),
            "{standing:?} is in the administrator set"
        );
    }
}

#[test]
fn a_reply_to_her_own_message_names_her_message() {
    let mut to_assistant = deletion_reply();
    to_assistant.reply_target = Some(ReplyTarget::AssistantMessage {
        origin: Some("19".into()),
    });
    assert_eq!(
        acted(&to_assistant, Authority::Admin),
        Some(DeletionAsk::AssistantMessage { origin: Some("19") }),
        "her own message is named, and no person's row is"
    );

    let mut unnamed = deletion_reply();
    unnamed.reply_target = Some(ReplyTarget::AssistantMessage { origin: None });
    assert_eq!(
        acted(&unnamed, Authority::Admin),
        Some(DeletionAsk::AssistantMessage { origin: None }),
        "a reply the platform carried no id for is still the command"
    );
}

#[test]
fn an_edited_deletion_command_is_recognized_and_acts_on_nothing() {
    let mut revised = deletion_reply();
    revised.revises = Some("del-1".into());
    assert_eq!(
        recognized_deletion(&revised, Authority::Admin),
        Some(DeletionAsk::Message { origin: "origin-7" }),
        "the recognition is unchanged: this is the other bot's command"
    );
    assert_eq!(
        acted(&revised, Authority::Admin),
        None,
        "a message revising another one mirrors nothing"
    );

    let mut to_assistant = revised;
    to_assistant.reply_target = Some(ReplyTarget::AssistantMessage {
        origin: Some("19".into()),
    });
    assert_eq!(acted(&to_assistant, Authority::Admin), None, "and it retracts nothing either");
}

#[test]
fn every_non_triggering_shape_acts_on_nothing() {
    let message = deletion_reply();
    assert_eq!(acted(&message, Authority::Member), None, "a member's deletion command is ordinary");

    let mut no_reply = deletion_reply();
    no_reply.reply_target = None;
    assert_eq!(acted(&no_reply, Authority::Admin), None, "a deletion command without a reply names nothing");

    let mut other_command = deletion_reply();
    other_command.command = Some(InvokedCommand::new("/help"));
    assert_eq!(acted(&other_command, Authority::Admin), None);

    let mut no_command = deletion_reply();
    no_command.command = None;
    no_command.text = "just prose".into();
    assert_eq!(
        acted(&no_command, Authority::Admin),
        None,
        "the stored text is never matched, only the reported command"
    );

    let mut direct = deletion_reply();
    direct.channel_kind = ChannelKind::Direct;
    assert_eq!(
        acted(&direct, Authority::Admin),
        None,
        "the mirror belongs to groups, where the moderation bot is"
    );
}

#[test]
fn the_deletion_token_is_the_moderation_bots_own() {
    assert_eq!(DELETION_COMMAND, "/del");
}
