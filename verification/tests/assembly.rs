use assistant_core::assembly::{
    admit_channel, answer_route, consults_budgets, limiting_fact, names_the_same_set,
    names_the_sending_tools, notice_admitted, recorded_fields, refusing_budget, resolved_summons,
    tail_for_stamp, under_lock_reading, writing_sender, AnswerRoute, AnsweringMode, Budget,
    DirectChats, OperatorConfig, PrincipalSource, ProtectionConfig, RecordedVersion, RevisionLink,
    UnderLock,
};
use assistant_core::clock::Timestamp;
use assistant_core::commands::{Command, PrivacyCommand, RightsCommand};
use assistant_core::error::CoreError;
use assistant_core::identity::Standing;
use assistant_core::kind::{LimitedBy, Stamp, Summons, TailDebt};
use assistant_core::message::{
    Authority, ChannelKey, ChannelKind, InboundMessage, IngestOutcome, SenderIdentity,
};
use assistant_core::assembly::wiring_refusal;
use assistant_core::assembly::{reconcile_choice, ChoiceReconciliation};
use assistant_core::assembly::{ReconciledMemory, CHOICE_MEMORY_CAP};
use assistant_core::assembly::{retirement, InheritedRows};
use assistant_core::assembly::{observation_step, ObservationStep};
use assistant_core::message::{JoinedMember, ObservedFact};
use assistant_core::assembly::{records_joiner, records_note, rights_line, RightsLine};

fn names(list: &[&str]) -> Vec<String> {
    list.iter().map(|name| (*name).to_owned()).collect()
}

fn message(addressed: bool, bot: bool) -> InboundMessage {
    InboundMessage {
        channel: ChannelKey {
            adapter: "a".into(),
            channel: "room".into(),
        },
        channel_kind: ChannelKind::Group,
        sender: SenderIdentity {
            external_id: "u-1".into(),
            username: Some("ada".into()),
            bot,
        },
        authority: Some(Authority::Member),
        addressed,
        reply_target: None,
        quoted: None,
        command: None,
        text: "hello".into(),
        origin: Some("m-1".into()),
        revises: Some("m-0".into()),
        timestamp: Timestamp::from_unix(0, 0).expect("the epoch is representable"),
    }
}

#[test]
fn the_protection_defaults_are_the_stated_knobs() {
    let defaults = ProtectionConfig::default();
    assert_eq!(
        defaults.principal,
        Some(Budget {
            answers: 6,
            window_seconds: 600
        })
    );
    assert_eq!(
        defaults.channel,
        Some(Budget {
            answers: 20,
            window_seconds: 600
        })
    );
    assert_eq!(AnsweringMode::default(), AnsweringMode::Helpful);
    assert_eq!(DirectChats::default(), DirectChats::On);
}

#[test]
fn a_recorded_choice_is_read_as_a_set_with_multiplicity() {
    assert!(names_the_same_set(&names(&["b", "a"]), &names(&["a", "b"])));
    assert!(!names_the_same_set(&names(&["a", "a"]), &names(&["a"])));
    assert!(!names_the_same_set(&names(&["a", "a", "b"]), &names(&["a", "b", "b"])));
    assert!(names_the_same_set(&names(&[]), &names(&[])));
    assert!(!names_the_same_set(&names(&["a"]), &names(&["b"])));
}

#[test]
fn only_both_sending_tools_mark_a_conversation_under_the_contract() {
    assert!(names_the_sending_tools(&names(&["web_search", "reply_message", "send_message"])));
    assert!(!names_the_sending_tools(&names(&["send_message"])));
    assert!(!names_the_sending_tools(&names(&[])));
}

#[test]
fn the_summons_folds_the_mode_in_for_people_only() {
    let helpful = AnsweringMode::Helpful;
    let addressed = AnsweringMode::Addressed;
    assert_eq!(
        resolved_summons(helpful, &message(false, false)),
        Summons {
            summoned: true,
            literal_addressed: false
        }
    );
    assert!(!resolved_summons(helpful, &message(false, true)).summoned, "a bot is not summoned by the mode");
    assert!(resolved_summons(helpful, &message(true, true)).summoned);
    assert!(!resolved_summons(addressed, &message(false, false)).summoned);
    assert!(resolved_summons(addressed, &message(true, false)).literal_addressed);
}

#[test]
fn an_unsummoned_bot_composes_against_no_tail() {
    let owing = Some(TailDebt {
        authority: Some(Authority::Member),
    });
    let quiet = Summons {
        summoned: false,
        literal_addressed: false,
    };
    assert_eq!(tail_for_stamp(true, quiet, owing), None);
    assert_eq!(tail_for_stamp(false, quiet, owing), owing);
    let stamp = Stamp::compose(quiet, Authority::Member, None, tail_for_stamp(true, quiet, owing));
    assert!(!stamp.answer_due);
}

#[test]
fn the_limit_is_the_command_first_then_the_refusing_budget() {
    let summoned = Summons {
        summoned: true,
        literal_addressed: true,
    };
    let quiet = Summons {
        summoned: false,
        literal_addressed: false,
    };
    assert_eq!(limiting_fact(true, summoned, Some(LimitedBy::Principal)), Some(LimitedBy::Command));
    assert_eq!(limiting_fact(false, summoned, Some(LimitedBy::Channel)), Some(LimitedBy::Channel));
    assert_eq!(limiting_fact(false, quiet, Some(LimitedBy::Channel)), None);
    assert!(consults_budgets(false, summoned));
    assert!(!consults_budgets(true, summoned));
    assert!(!consults_budgets(false, quiet));
}

#[test]
fn the_principal_budget_refuses_before_the_channel_budget() {
    let protection = ProtectionConfig::default();
    assert_eq!(refusing_budget(&protection, 5, 19), None);
    assert_eq!(refusing_budget(&protection, 6, 19), Some(LimitedBy::Principal));
    assert_eq!(refusing_budget(&protection, 6, 20), Some(LimitedBy::Principal));
    assert_eq!(refusing_budget(&protection, 0, 20), Some(LimitedBy::Channel));
    let open = ProtectionConfig {
        principal: None,
        channel: None,
    };
    assert_eq!(refusing_budget(&open, 1_000, 1_000), None, "a disabled budget admits every debt");
}

#[test]
fn the_channel_admission_refuses_in_its_stated_order() {
    assert_eq!(
        admit_channel(Some(ChannelKind::Direct), ChannelKind::Group, true, DirectChats::On),
        Err(CoreError::ChannelKindMismatch {
            stored: ChannelKind::Direct,
            claimed: ChannelKind::Group
        })
    );
    assert_eq!(
        admit_channel(None, ChannelKind::Group, false, DirectChats::On),
        Ok(Some(IngestOutcome::Withdraw))
    );
    assert_eq!(
        admit_channel(Some(ChannelKind::Direct), ChannelKind::Direct, false, DirectChats::Off),
        Ok(Some(IngestOutcome::Disregarded))
    );
    assert_eq!(admit_channel(None, ChannelKind::Direct, false, DirectChats::On), Ok(None));
    assert_eq!(admit_channel(Some(ChannelKind::Group), ChannelKind::Group, true, DirectChats::Off), Ok(None));
}

#[test]
fn a_suppressed_sender_is_heard_only_through_a_right() {
    let flagged = Some(Standing {
        principal_id: 5,
        opted_out: true,
    });
    assert_eq!(writing_sender(flagged, None, Some(Authority::Member)), Ok(None));
    assert_eq!(writing_sender(flagged, Some(Command::Wipe), Some(Authority::Admin)), Ok(None));
    let exempt = writing_sender(flagged, Some(Command::PrivacyIn), Some(Authority::Member))
        .expect("the right is answered")
        .expect("the right is recorded");
    assert_eq!(exempt.principal, PrincipalSource::Standing(5));
    assert!(exempt.suppressed);
    assert_eq!(
        exempt.family,
        Some(PrivacyCommand::SelfService(RightsCommand::OptIn))
    );
    assert_eq!(
        writing_sender(None, None, None),
        Err(CoreError::AuthorityUnresolved),
        "an unresolved authority is never defaulted"
    );
    let plain = writing_sender(None, None, Some(Authority::Member))
        .expect("admitted")
        .expect("recorded");
    assert_eq!(plain.principal, PrincipalSource::Resolve);
    assert!(!plain.suppressed);
}

#[test]
fn the_revision_reading_guards_erasure_authorship_and_redelivery() {
    let mine = RecordedVersion {
        text: "old words".into(),
        principal_id: 3,
    };
    assert_eq!(
        under_lock_reading(None, false, false, None, 3, "x"),
        UnderLock::Recorded(RevisionLink::Kept)
    );
    assert_eq!(under_lock_reading(None, true, false, None, 3, "x"), UnderLock::Disregarded);
    assert_eq!(
        under_lock_reading(None, false, true, None, 3, "x"),
        UnderLock::Disregarded,
        "an edit of an erased message records nothing"
    );
    assert_eq!(
        under_lock_reading(Some(PrivacyCommand::Notice), true, true, None, 3, "x"),
        UnderLock::Recorded(RevisionLink::Kept)
    );
    assert_eq!(
        under_lock_reading(None, false, true, Some(&mine), 4, "new words"),
        UnderLock::Recorded(RevisionLink::Dropped)
    );
    assert_eq!(
        under_lock_reading(None, false, true, Some(&mine), 3, "old words"),
        UnderLock::Disregarded,
        "a redelivery of the stored text is idempotent"
    );
    assert_eq!(
        under_lock_reading(None, false, true, Some(&mine), 3, "new words"),
        UnderLock::Recorded(RevisionLink::Kept)
    );
}

#[test]
fn the_recorded_row_freezes_a_suppressed_speaker_and_drops_an_unkept_link() {
    let stamp = Stamp::compose(
        Summons {
            summoned: true,
            literal_addressed: false,
        },
        Authority::Member,
        None,
        None,
    );
    let inbound = message(false, false);
    let kept = recorded_fields(&inbound, 5, Authority::Member, false, stamp, RevisionLink::Kept);
    assert_eq!(kept.text("speaker").as_deref(), Some("ada"));
    assert_eq!(kept.text("revises").as_deref(), Some("m-0"));
    assert_eq!(kept.text("origin").as_deref(), Some("m-1"));
    assert_eq!(kept.text("sent_at").as_deref(), Some("1970-01-01T00:00:00+00:00"));
    let frozen = recorded_fields(&inbound, 5, Authority::Member, true, stamp, RevisionLink::Dropped);
    assert_eq!(frozen.text("speaker"), None);
    assert_eq!(frozen.text("revises"), None);
}

#[test]
fn the_answer_route_follows_the_audience_reading() {
    assert_eq!(
        answer_route(true, Some(Command::Wipe), ChannelKind::Group, Authority::Admin, false),
        AnswerRoute::Retraction
    );
    assert_eq!(
        answer_route(false, Some(Command::Wipe), ChannelKind::Group, Authority::Member, false),
        AnswerRoute::Silent,
        "below the floor a reset is answered with silence"
    );
    assert_eq!(
        answer_route(false, Some(Command::Wipe), ChannelKind::Group, Authority::Moderator, false),
        AnswerRoute::Wipe
    );
    assert_eq!(
        answer_route(false, Some(Command::Compact), ChannelKind::Direct, Authority::Admin, false),
        AnswerRoute::Silent
    );
    assert_eq!(
        answer_route(false, Some(Command::Compact), ChannelKind::Group, Authority::Admin, false),
        AnswerRoute::Compact
    );
    assert_eq!(
        answer_route(false, Some(Command::Privacy), ChannelKind::Direct, Authority::Member, true),
        AnswerRoute::Notice
    );
    assert_eq!(
        answer_route(false, Some(Command::Privacy), ChannelKind::Direct, Authority::Member, false),
        AnswerRoute::Silent
    );
    assert_eq!(
        answer_route(false, Some(Command::ConfirmDelete), ChannelKind::Group, Authority::Member, false),
        AnswerRoute::Rights(RightsCommand::Confirm)
    );
    assert_eq!(
        answer_route(false, None, ChannelKind::Group, Authority::Admin, true),
        AnswerRoute::Silent
    );
    assert!(notice_admitted(Some(PrivacyCommand::Notice), None));
    assert!(!notice_admitted(Some(PrivacyCommand::Notice), Some(LimitedBy::Principal)));
    assert!(!notice_admitted(None, None));
}

#[test]
fn the_operator_is_looked_up_by_adapter() {
    let operators = OperatorConfig {
        by_adapter: vec![("tg".into(), "op-1".into()), ("mx".into(), "op-2".into())],
    };
    assert_eq!(operators.operator_for("mx"), Some("op-2"));
    assert_eq!(operators.operator_for("irc"), None);
    assert_eq!(OperatorConfig::default().operator_for("tg"), None);
}

#[test]
fn the_wiring_is_refused_table_first_then_vendor() {
    assert_eq!(
        wiring_refusal(false, false, "v"),
        Some(CoreError::MissingContentTable {
            table: "block_chat_message".into()
        })
    );
    assert_eq!(
        wiring_refusal(true, false, "v"),
        Some(CoreError::UnknownVendor { vendor: "v".into() })
    );
    assert_eq!(wiring_refusal(true, true, "v"), None);
}

#[test]
fn a_choice_is_superseded_on_delta_and_a_crossing_is_told() {
    let registered = names(&["reply_message", "send_message", "web_search"]);
    let current = names(&["web_search", "send_message", "reply_message"]);
    assert_eq!(
        reconcile_choice(Some(&current), &registered),
        ChoiceReconciliation {
            supersede: false,
            notice_unless_held: false
        }
    );
    let before_the_contract = names(&["web_search"]);
    assert_eq!(
        reconcile_choice(Some(&before_the_contract), &registered),
        ChoiceReconciliation {
            supersede: true,
            notice_unless_held: true
        }
    );
    let half = names(&["send_message"]);
    assert!(reconcile_choice(Some(&half), &registered).notice_unless_held);
    assert_eq!(
        reconcile_choice(None, &registered),
        ChoiceReconciliation {
            supersede: true,
            notice_unless_held: false
        },
        "no record is no evidence of a crossing"
    );
    let dropped_a_lookup = names(&["reply_message", "send_message", "web_search", "mark"]);
    assert_eq!(
        reconcile_choice(Some(&dropped_a_lookup), &registered),
        ChoiceReconciliation {
            supersede: true,
            notice_unless_held: false
        }
    );
}

#[test]
fn the_reconciliation_memory_is_cleared_whole_at_its_cap() {
    let mut memory = ReconciledMemory::new();
    assert!(!memory.contains(1));
    for id in 0..CHOICE_MEMORY_CAP as i64 {
        memory.remember(id);
    }
    assert!(memory.contains(0));
    memory.remember(-1);
    assert!(memory.contains(-1));
    assert!(!memory.contains(0), "past the cap the memory starts over");
}

#[test]
fn a_stale_channel_forks_with_the_rows_behind_its_prompt() {
    let ids = [10, 11, 12];
    assert_eq!(retirement(Some((0, "now")), "now", true, &ids), None);
    assert_eq!(
        retirement(Some((0, "then")), "now", true, &ids),
        Some(InheritedRows::After(10))
    );
    assert_eq!(
        retirement(Some((0, "now")), "now", false, &ids),
        Some(InheritedRows::After(10)),
        "a stale model retires the channel too"
    );
    assert_eq!(
        retirement(Some((2, "now")), "now", true, &ids),
        Some(InheritedRows::UpTo(11)),
        "a prompt anywhere but the head retires, carrying the rows ahead of it"
    );
    assert_eq!(retirement(None, "now", true, &ids), Some(InheritedRows::UpTo(12)));
    assert_eq!(retirement(None, "now", true, &[]), None, "an empty ledger keeps its mapping");
}

#[test]
fn an_observation_is_judged_in_its_stated_order() {
    let operator = SenderIdentity {
        external_id: "op-1".into(),
        username: None,
        bot: false,
    };
    let added = ObservedFact::Added {
        by: Some(operator.clone()),
    };
    assert_eq!(
        observation_step(Some(ChannelKind::Direct), ChannelKind::Group, &added, Some("op-1"), false),
        Err(CoreError::ChannelKindMismatch {
            stored: ChannelKind::Direct,
            claimed: ChannelKind::Group
        })
    );
    assert_eq!(
        observation_step(None, ChannelKind::Direct, &added, Some("op-1"), false),
        Ok(ObservationStep::Nothing)
    );
    assert_eq!(
        observation_step(None, ChannelKind::Group, &added, Some("op-1"), false),
        Ok(ObservationStep::Authorize)
    );
    assert_eq!(
        observation_step(None, ChannelKind::Group, &added, Some("op-2"), true),
        Ok(ObservationStep::Withdraw)
    );
    let joined = ObservedFact::MembersJoined {
        joiners: vec![JoinedMember {
            identity: operator,
            name: "Ada".into(),
        }],
        origin: "j-1".into(),
        timestamp: Timestamp::from_unix(0, 0).expect("the epoch"),
    };
    assert_eq!(
        observation_step(None, ChannelKind::Group, &joined, None, true),
        Ok(ObservationStep::RecordJoins)
    );
    assert_eq!(
        observation_step(None, ChannelKind::Group, &joined, None, false),
        Ok(ObservationStep::Withdraw)
    );
    let title = ObservedFact::Title("The group".into());
    assert_eq!(
        observation_step(Some(ChannelKind::Group), ChannelKind::Group, &title, None, true),
        Ok(ObservationStep::ConsultNote)
    );
}

#[test]
fn notes_joins_and_rights_take_their_stated_lines() {
    assert!(records_note(None, "rules"));
    assert!(!records_note(Some("rules"), "rules"));
    assert!(records_note(Some("old rules"), "rules"));
    assert!(records_joiner(None));
    assert!(!records_joiner(Some(Standing {
        principal_id: 1,
        opted_out: true
    })));
    assert_eq!(rights_line(RightsCommand::OptOut, true), RightsLine::OptOutDone);
    assert_eq!(rights_line(RightsCommand::OptOut, false), RightsLine::OptOutAlready);
    assert_eq!(rights_line(RightsCommand::OptIn, true), RightsLine::OptInDone);
    assert_eq!(rights_line(RightsCommand::OptIn, false), RightsLine::OptInAlready);
    assert_eq!(rights_line(RightsCommand::Delete, false), RightsLine::ConfirmInstruction);
    assert_eq!(rights_line(RightsCommand::Confirm, true), RightsLine::DeletionStarted);
    assert_eq!(rights_line(RightsCommand::Confirm, false), RightsLine::NothingPending);
}

#[test]
fn a_zero_answer_count_or_window_is_refused_at_start() {
    assert_eq!(Budget::new(0, 600), None);
    assert_eq!(Budget::new(6, 0), None);
    assert_eq!(
        Budget::new(6, 600),
        Some(Budget {
            answers: 6,
            window_seconds: 600
        })
    );
}

#[test]
fn a_valid_budget_admits_the_first_debt_and_refuses_at_its_count() {
    let protection = ProtectionConfig {
        principal: Budget::new(1, 60),
        channel: Budget::new(2, 60),
    };
    assert_eq!(refusing_budget(&protection, 0, 0), None);
    assert_eq!(refusing_budget(&protection, 1, 0), Some(LimitedBy::Principal));
    assert_eq!(refusing_budget(&protection, 0, 1), None);
    assert_eq!(refusing_budget(&protection, 0, 2), Some(LimitedBy::Channel));
}

#[test]
fn remembering_a_conversation_again_does_not_fill_the_memory() {
    let mut memory = ReconciledMemory::new();
    for _ in 0..=CHOICE_MEMORY_CAP {
        memory.remember(7);
    }
    memory.remember(8);
    assert!(memory.contains(7), "one conversation is one entry, however often");
    assert!(memory.contains(8));
}
