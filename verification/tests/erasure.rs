use assistant_core::block::{Block, Role};
use assistant_core::erasure::{blocks_of, carries_principal, ErasureOutcome, ErasurePlan};
use assistant_core::fields::Fields;
use assistant_core::join::{JoinNotice, RecordedJoiner, JOIN_NOTICE_KIND};
use assistant_core::kind::{ChatMessage, RecordedOrigin, RecordedSender, Stamp, Summons, CHAT_MESSAGE_KIND};
use assistant_core::message::Authority;

fn chat(id: i64, principal_id: i64) -> Block {
    Block {
        id,
        role: Some(Role::User),
        block_type: CHAT_MESSAGE_KIND.into(),
        created_at: String::new(),
        dispatch_anchor: None,
        fields: ChatMessage::stored_fields(
            "hi",
            RecordedSender {
                principal_id,
                authority: Authority::Member,
                speaker: None,
            },
            RecordedOrigin::default(),
            None,
            "2026-08-24T00:00:00Z",
            Stamp::compose(
                Summons {
                    summoned: false,
                    literal_addressed: false,
                },
                Authority::Member,
                None,
                None,
            ),
        ),
    }
}

fn join(id: i64, principal_id: i64) -> Block {
    Block {
        id,
        role: None,
        block_type: JOIN_NOTICE_KIND.into(),
        created_at: String::new(),
        dispatch_anchor: None,
        fields: JoinNotice::stored_fields(
            RecordedJoiner {
                principal_id,
                name: "Ada",
                handle: None,
            },
            "j-1",
            "2026-08-24T00:00:00Z",
        ),
    }
}

#[test]
fn a_persons_blocks_are_their_messages_and_their_joins() {
    let mut stranger = Fields::new();
    stranger.insert_integer("principal_id", 7);
    let blocks = vec![
        chat(1, 7),
        chat(2, 8),
        join(3, 7),
        Block {
            id: 4,
            role: None,
            block_type: "report".into(),
            created_at: String::new(),
            dispatch_anchor: None,
            fields: stranger,
        },
    ];
    assert_eq!(blocks_of(&blocks, 7), vec![1, 3]);
    assert_eq!(blocks_of(&blocks, 8), vec![2]);
    assert!(blocks_of(&blocks, 9).is_empty());
}

#[test]
fn a_direct_conversation_carries_a_person_by_their_messages_alone() {
    assert!(carries_principal(&[chat(1, 7)], 7));
    assert!(!carries_principal(&[join(1, 7)], 7), "a join alone is no conversation with them");
    assert!(!carries_principal(&[], 7));
}

#[test]
fn an_executed_plan_answers_the_conversations_it_deleted() {
    let plan = ErasurePlan::new(7, vec![41, 42]);
    assert_eq!(plan.principal_id(), 7);
    assert_eq!(plan.direct_conversations(), &[41, 42]);
    assert_eq!(
        plan.concluded(),
        ErasureOutcome::Erased {
            deleted_conversations: vec![41, 42]
        }
    );
}
