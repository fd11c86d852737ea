use assistant_core::assembly::SENDING_TOOLS;
use assistant_core::block::{Block, Role};
use assistant_core::contract::{ContractNotice, CONTRACT_NOTICE, CONTRACT_NOTICE_KIND};
use assistant_core::fields::Fields;

fn notice_block(fields: Fields) -> Block {
    Block {
        id: 1,
        role: None,
        block_type: CONTRACT_NOTICE_KIND.into(),
        created_at: String::new(),
        dispatch_anchor: None,
        fields,
    }
}

#[test]
fn the_notice_projects_the_recorded_sentence_in_the_system_voice() {
    let notice = ContractNotice::parse(&notice_block(ContractNotice::stored_fields(CONTRACT_NOTICE)));
    assert_eq!(notice.group_role(), Some(Role::System));
    assert_eq!(notice.llm_text().as_deref(), Some(CONTRACT_NOTICE));
    assert_eq!(
        CONTRACT_NOTICE,
        "A note about this conversation: the answers you wrote above this line were \
         posted to the group exactly as they stand. From here on that is no longer so. \
         What you write is your own private notes and reaches nobody, and a message \
         reaches the group only when you send it with the send_message or reply_message \
         tool."
    );
    for named in SENDING_TOOLS {
        assert!(
            CONTRACT_NOTICE.contains(named),
            "the notice names the tool a message now reaches the group through: {named}"
        );
    }
}

#[test]
fn a_row_the_store_did_not_produce_projects_nothing() {
    let empty = ContractNotice::parse(&notice_block(Fields::new()));
    assert_eq!(empty.group_role(), None);
    assert_eq!(empty.llm_text(), None);
}
