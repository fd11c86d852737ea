use assistant_core::message::{
    Authority, ChannelKind, DeliveryHandle, DeliveryItem, IngestReceipt, ReplyThread,
};

#[test]
fn authority_orders_member_below_moderator_below_admin() {
    assert!(Authority::Member < Authority::Moderator);
    assert!(Authority::Moderator < Authority::Admin);
}

#[test]
fn stored_vocabularies_round_trip_and_reject_strangers() {
    for authority in Authority::ALL {
        assert_eq!(Authority::parse(authority.as_str()), Some(authority));
    }
    assert_eq!(Authority::parse("owner"), None);

    for kind in ChannelKind::ALL {
        assert_eq!(ChannelKind::parse(kind.as_str()), Some(kind));
    }
    assert_eq!(ChannelKind::parse("broadcast"), None);
}

#[test]
fn the_stored_encodings_are_the_closed_vocabulary() {
    assert_eq!(Authority::Member.as_str(), "member");
    assert_eq!(Authority::Moderator.as_str(), "moderator");
    assert_eq!(Authority::Admin.as_str(), "admin");
    assert_eq!(ChannelKind::Direct.as_str(), "direct");
    assert_eq!(ChannelKind::Group.as_str(), "group");
    assert_eq!(Authority::Admin.min_with(Authority::Member), Authority::Member);
    assert_eq!(Authority::Moderator.min_with(Authority::Admin), Authority::Moderator);
}

#[test]
fn a_receipt_hands_back_its_own_conversation_quoting_nothing() {
    let receipt = IngestReceipt {
        principal_id: 3,
        conversation_id: 41,
    };
    let handle = receipt.delivery();
    assert_eq!(handle.conversation_id(), 41);
    assert_eq!(handle.quotable_block(), None);
    let quoting = DeliveryHandle::in_conversation(41).quoting(Some(88));
    assert_eq!(quoting.conversation_id(), 41);
    assert_eq!(quoting.quotable_block(), Some(88));
}

#[test]
fn a_delivery_item_carries_its_text_whatever_its_kind() {
    assert_eq!(DeliveryItem::Acknowledgment("noted".into()).text(), "noted");
    assert_eq!(DeliveryItem::CommandAnswer("done".into()).text(), "done");
}

#[test]
fn a_reply_thread_names_its_target_and_its_refusal_recovery() {
    let plain = ReplyThread::OntoOrPlainly("m-1".into());
    assert_eq!(plain.target(), "m-1");
    assert!(plain.plain_when_refused());
    let only = ReplyThread::OntoOnly("m-2".into());
    assert_eq!(only.target(), "m-2");
    assert!(!only.plain_when_refused());
}
