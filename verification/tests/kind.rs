use assistant_core::block::{Block, Role};
use assistant_core::fields::Fields;
use assistant_core::kind::{
    counted_debt_clause, opened_debts_by_principal_statement, opened_debts_in_conversation_statement,
    enveloped, newest_block_id_past_transparent, owing_tail, projected_origin_mark,
    storable_speaker, window_modifier, ChatMessage, Envelope, LimitedBy, RecordedOrigin,
    RecordedSender, Stamp, Summons, TailDebt, CHAT_MESSAGE_KIND, COLUMN_ADDRESSED,
    COLUMN_LITERAL_ADDRESSED, COLUMN_ORIGIN, COLUMN_SPEAKER, COLUMN_TEXT, ERASED_MARKER,
};
use assistant_core::message::{Authority, ReplyTarget};

fn chat_block(id: i64, role: Option<Role>, fields: Fields) -> Block {
    Block {
        id,
        role,
        block_type: CHAT_MESSAGE_KIND.into(),
        created_at: String::new(),
        dispatch_anchor: None,
        fields,
    }
}

fn other_block(id: i64, block_type: &str) -> Block {
    Block {
        id,
        role: None,
        block_type: block_type.into(),
        created_at: String::new(),
        dispatch_anchor: None,
        fields: Fields::new(),
    }
}

fn chat_row(id: i64, text: &str, origin: &str, summoned: bool, authority: Authority, tail: Option<TailDebt>) -> Block {
    chat_block(
        id,
        Some(Role::User),
        ChatMessage::stored_fields(
            text,
            RecordedSender {
                principal_id: 7,
                authority,
                speaker: None,
            },
            RecordedOrigin {
                origin: Some(origin),
                revises: None,
            },
            None,
            "2026-08-23T00:00:00Z",
            Stamp::compose(
                Summons {
                    summoned,
                    literal_addressed: summoned,
                },
                authority,
                None,
                tail,
            ),
        ),
    )
}

fn erased(block: Block) -> Block {
    let mut fields = Fields::new();
    for (name, value) in block.fields.columns() {
        if name != COLUMN_TEXT && name != COLUMN_ORIGIN {
            fields.insert(name, value.clone());
        }
    }
    Block { fields, ..block }
}

#[test]
fn the_projection_marks_exactly_the_user_voiced_messages_with_an_origin() {
    assert_eq!(projected_origin_mark("id-9"), "[id-9]");

    let row = |role: Option<Role>, text: Option<&str>, speaker: Option<&str>, origin: Option<&str>| {
        let mut fields = Fields::new();
        if let Some(text) = text {
            fields.insert_text(COLUMN_TEXT, text);
        }
        if let Some(speaker) = speaker {
            fields.insert_text(COLUMN_SPEAKER, speaker);
        }
        if let Some(origin) = origin {
            fields.insert_text(COLUMN_ORIGIN, origin);
        }
        ChatMessage::parse(&chat_block(1, role, fields))
    };

    assert_eq!(
        row(Some(Role::User), Some("the ask"), Some("ada"), Some("id-9")).llm_text(),
        "[id-9] ada: the ask",
        "the mark leads, then the speaker prefix, then the text"
    );
    assert_eq!(
        row(Some(Role::User), Some("the ask"), None, Some("id-9")).llm_text(),
        "[id-9] the ask",
        "a handleless message still shows its id"
    );
    assert_eq!(
        row(Some(Role::User), Some("the ask"), None, None).llm_text(),
        "the ask",
        "no stored origin, no mark"
    );
    assert_eq!(
        row(Some(Role::Assistant), Some("the answer"), None, Some("id-9")).llm_text(),
        "the answer",
        "only the user's voice carries the mark"
    );
    assert_eq!(
        row(Some(Role::User), None, None, Some("id-9")).llm_text(),
        ERASED_MARKER,
        "the erased placeholder projects unmarked"
    );
}

#[test]
fn a_revision_projects_under_the_revised_id_with_the_edited_marker() {
    let mut fields = Fields::new();
    fields.insert_text(COLUMN_TEXT, "the fixed ask");
    fields.insert_text(COLUMN_SPEAKER, "ada");
    fields.insert_text(COLUMN_ORIGIN, "id-10");
    fields.insert_text("revises", "id-9");
    let message = ChatMessage::parse(&chat_block(1, Some(Role::User), fields));
    assert_eq!(message.llm_text(), "[id-9] ada: (edited) the fixed ask");
}

#[test]
fn the_literal_fact_is_stored_beside_the_undisturbed_summons() {
    let unaddressed_helpful = Stamp::compose(
        Summons {
            summoned: true,
            literal_addressed: false,
        },
        Authority::Member,
        None,
        None,
    );
    assert!(unaddressed_helpful.addressed, "the summons stands");
    assert!(!unaddressed_helpful.literal_addressed);
    assert!(unaddressed_helpful.own_debt_taken());
    assert!(unaddressed_helpful.answer_due, "the debt opens");

    let addressed = Stamp::compose(
        Summons {
            summoned: true,
            literal_addressed: true,
        },
        Authority::Member,
        None,
        None,
    );
    assert!(addressed.addressed && addressed.literal_addressed);

    let fields = ChatMessage::stored_fields(
        "the ask",
        RecordedSender {
            principal_id: 7,
            authority: Authority::Member,
            speaker: None,
        },
        RecordedOrigin::default(),
        None,
        "2026-08-24T00:00:00Z",
        unaddressed_helpful,
    );
    assert_eq!(fields.boolean(COLUMN_ADDRESSED), Some(true));
    assert_eq!(fields.boolean(COLUMN_LITERAL_ADDRESSED), Some(false));

    let parsed = ChatMessage::parse(&chat_block(1, Some(Role::User), fields));
    assert_eq!(parsed.addressed, Some(true));
    assert_eq!(parsed.literal_addressed, Some(false));
    assert!(parsed.own_debt_taken());
}

#[test]
fn the_read_answers_past_kind_runs_false_stamps_and_erased_rows_alike() {
    let note = "context_note";
    let mut blocks: Vec<Block> = Vec::new();
    assert_eq!(newest_block_id_past_transparent(&blocks, &[note], &[]), None);

    blocks.push(other_block(1, "text"));
    blocks.push(chat_row(2, "an unsummoned line, its text intact", "live-false", false, Authority::Member, None));
    assert_eq!(
        newest_block_id_past_transparent(&blocks, &[], &[]),
        Some(1),
        "a live row whose stamp is false is transparent on its own"
    );

    blocks.push(erased(chat_row(3, "soon deleted", "gone-1", true, Authority::Member, None)));
    assert_eq!(
        newest_block_id_past_transparent(&blocks, &[], &[]),
        Some(1),
        "an erased row is transparent though its own stamp reads true"
    );
    blocks.push(other_block(4, note));
    assert_eq!(
        newest_block_id_past_transparent(&blocks, &[note], &[]),
        Some(1),
        "the note, the erased row and the false-stamped row are one transparent run"
    );
    assert_eq!(newest_block_id_past_transparent(&blocks, &[], &[]), Some(4));
    blocks.push(other_block(5, "date_marker"));
    assert_eq!(
        newest_block_id_past_transparent(&blocks, &[note], &["date_marker"]),
        Some(1),
        "a kind no answer is owed from is read through for every caller"
    );
}

#[test]
fn an_owing_tail_hands_its_debt_through_a_transparent_run() {
    let note = "context_note";
    let mut blocks = vec![chat_row(1, "a question", "q-1", true, Authority::Moderator, None)];
    assert_eq!(
        owing_tail(&blocks, &[note], &[]),
        Some(TailDebt {
            authority: Some(Authority::Moderator)
        })
    );
    blocks.push(other_block(2, note));
    blocks.push(chat_row(3, "a bot's passing remark", "b-1", false, Authority::Member, None));
    blocks.push(erased(chat_row(4, "deleted", "g-1", true, Authority::Admin, None)));
    assert_eq!(
        owing_tail(&blocks, &[note], &[]),
        Some(TailDebt {
            authority: Some(Authority::Moderator)
        }),
        "the debt behind the run still owes"
    );
    blocks.push(other_block(5, "text"));
    assert_eq!(owing_tail(&blocks, &[note], &[]), None, "an answer settles it");
    assert_eq!(owing_tail(&[], &[note], &[]), None);
}

#[test]
fn a_carried_debt_takes_the_lowest_contributing_authority() {
    let tail = Some(TailDebt {
        authority: Some(Authority::Admin),
    });
    let stamp = Stamp::compose(
        Summons {
            summoned: false,
            literal_addressed: false,
        },
        Authority::Member,
        None,
        tail,
    );
    assert!(stamp.answer_due);
    assert_eq!(stamp.debt_authority, Some(Authority::Member));

    let refused = Stamp::compose(
        Summons {
            summoned: true,
            literal_addressed: true,
        },
        Authority::Admin,
        Some(LimitedBy::Principal),
        None,
    );
    assert!(!refused.answer_due, "a refused own debt opens nothing");
    assert_eq!(refused.debt_authority, None);
    assert!(!refused.own_debt_taken());

    let propagated = Stamp::compose(
        Summons {
            summoned: true,
            literal_addressed: true,
        },
        Authority::Admin,
        Some(LimitedBy::Channel),
        Some(TailDebt {
            authority: Some(Authority::Moderator),
        }),
    );
    assert!(propagated.answer_due, "a refused own debt never cancels a propagated one");
    assert_eq!(propagated.debt_authority, Some(Authority::Moderator));
}

#[test]
fn the_limited_vocabulary_round_trips_and_rejects_strangers() {
    for limited in LimitedBy::ALL {
        assert_eq!(LimitedBy::parse(limited.as_str()), Some(limited));
    }
    assert_eq!(LimitedBy::Principal.as_str(), "principal");
    assert_eq!(LimitedBy::Channel.as_str(), "channel");
    assert_eq!(LimitedBy::Command.as_str(), "command");
    assert_eq!(LimitedBy::parse("budget"), None);
}

#[test]
fn a_speaker_is_stored_only_when_its_prefix_is_unambiguous() {
    assert!(storable_speaker("ada"));
    assert!(!storable_speaker(""));
    assert!(!storable_speaker("matrix:ada"));
    assert!(!storable_speaker("two words"));
    assert!(!storable_speaker("tab\there"));
}

#[test]
fn the_stored_row_reads_back_as_written() {
    let stamp = Stamp::compose(
        Summons {
            summoned: true,
            literal_addressed: true,
        },
        Authority::Moderator,
        None,
        None,
    );
    let reply = ReplyTarget::Message {
        origin: "m-3".into(),
    };
    let fields = ChatMessage::stored_fields(
        "hello",
        RecordedSender {
            principal_id: 11,
            authority: Authority::Moderator,
            speaker: Some("ada"),
        },
        RecordedOrigin {
            origin: Some("m-4"),
            revises: Some("m-2"),
        },
        Some(&reply),
        "2026-08-24T00:00:00Z",
        stamp,
    );
    let message = ChatMessage::parse(&chat_block(1, Some(Role::User), fields));
    assert_eq!(message.text.as_deref(), Some("hello"));
    assert_eq!(message.principal_id, Some(11));
    assert_eq!(message.authority, Some(Authority::Moderator));
    assert_eq!(message.speaker.as_deref(), Some("ada"));
    assert_eq!(message.origin.as_deref(), Some("m-4"));
    assert_eq!(message.revises.as_deref(), Some("m-2"));
    assert_eq!(message.reply_target.as_deref(), Some("m-3"));
    assert_eq!(message.reply_to_assistant, None);
    assert_eq!(message.sent_at.as_deref(), Some("2026-08-24T00:00:00Z"));
    assert_eq!(message.answer_due, Some(true));
    assert_eq!(message.debt_authority, Some(Authority::Moderator));
    assert_eq!(message.limited, None);
    assert!(message.owes_answer());
}

#[test]
fn the_budget_window_is_a_datetime_modifier_in_whole_seconds() {
    assert_eq!(window_modifier(600), "-600 seconds");
    assert_eq!(window_modifier(1), "-1 seconds");
    assert_eq!(window_modifier(86_400), "-86400 seconds");
}

#[test]
fn an_envelope_names_only_what_is_known() {
    assert_eq!(
        enveloped(
            Envelope {
                from: Some("ada"),
                date: None,
                msgid: Some("7"),
            },
            "said"
        ),
        "---\nfrom: @ada\nmsgid: 7\n---\nsaid"
    );
}

#[test]
fn both_budget_counts_share_one_counted_debt_predicate() {
    let counted = counted_debt_clause();
    assert!(counted.starts_with("m.addressed = 1 AND m.limited IS NULL AND "));
    assert!(counted.contains("datetime('now', ?2)"));
    assert!(counted.contains("at.role = 'assistant'"));
    assert_eq!(
        opened_debts_by_principal_statement(),
        format!(
            "SELECT COUNT(*) FROM block_chat_message m JOIN blocks b ON b.id = m.block_id \
             WHERE m.principal_id = ?1 AND {counted}"
        )
    );
    assert_eq!(
        opened_debts_in_conversation_statement(),
        format!(
            "SELECT COUNT(*) FROM conversation_blocks cb JOIN block_chat_message m ON \
             m.block_id = cb.block_id JOIN blocks b ON b.id = m.block_id \
             WHERE cb.conversation_id = ?1 AND {counted}"
        )
    );
}
