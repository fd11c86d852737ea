use assistant_core::block::{Block, Role};
use assistant_core::fields::Fields;
use assistant_core::ledger::newest_block_id_past;

fn block(id: i64, block_type: &str) -> Block {
    Block {
        id,
        role: Some(Role::User),
        block_type: block_type.into(),
        created_at: String::new(),
        dispatch_anchor: None,
        fields: Fields::new(),
    }
}

#[test]
fn the_read_answers_past_the_given_kinds_and_plainly_past_none() {
    let note = "context_note";
    let mut blocks: Vec<Block> = Vec::new();
    assert_eq!(
        newest_block_id_past(&blocks, &[note]),
        None,
        "an empty conversation holds nothing to answer"
    );
    blocks.push(block(1, "text"));
    blocks.push(block(2, note));
    blocks.push(block(3, note));
    assert_eq!(
        newest_block_id_past(&blocks, &[note]),
        Some(1),
        "the whole note run is read through to the block behind it"
    );
    let newest = newest_block_id_past(&blocks, &[]).expect("the conversation has a newest block");
    assert!(newest > 1, "an empty kind list reads the newest block plainly");
}
