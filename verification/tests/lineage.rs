use assistant_core::block::Block;
use assistant_core::error::{CoreError, FailureKind};
use assistant_core::fields::Fields;
use assistant_core::lineage::{
    assembled_lineage, continues_to, own_opening, StrippedHop, COLUMN_ANCESTOR,
};

const REFERENCE: &str = "ancestor_reference";

fn block(id: i64, block_type: &str, fields: Fields) -> Block {
    Block {
        id,
        role: None,
        block_type: block_type.into(),
        created_at: String::new(),
        dispatch_anchor: None,
        fields,
    }
}

#[test]
fn a_reference_names_the_conversation_it_continues() {
    let mut fields = Fields::new();
    fields.insert_integer(COLUMN_ANCESTOR, 7);
    let opening = own_opening(
        &[block(4, REFERENCE, fields), block(5, "text", Fields::new())],
        &[REFERENCE],
    )
    .expect("the reference reads")
    .expect("the reference is the thread's own opening");
    assert_eq!(opening.ancestor, 7);
    assert_eq!(opening.opening_ends, 5);
}

#[test]
fn a_reference_naming_no_conversation_answers_a_fatal_failure() {
    let failure = own_opening(
        &[block(4, REFERENCE, Fields::new()), block(5, "text", Fields::new())],
        &[REFERENCE],
    )
    .expect_err("a reference naming no conversation is refused");
    assert!(
        matches!(
            failure,
            CoreError::AncestorUnnamed { block_id, ref block_type }
                if block_id == 4 && block_type == REFERENCE
        ),
        "the failure names the row: {failure:?}"
    );
    assert_eq!(failure.failure_kind(), FailureKind::Fatal, "the process ends on it");
}

#[test]
fn a_thread_without_a_closed_opening_has_none() {
    assert_eq!(own_opening(&[block(1, "text", Fields::new())], &[REFERENCE]), Ok(None));
    let mut fields = Fields::new();
    fields.insert_integer(COLUMN_ANCESTOR, 7);
    assert_eq!(
        own_opening(&[block(4, REFERENCE, fields)], &[REFERENCE]),
        Ok(None),
        "a reference with nothing past it opens nothing yet"
    );
}

#[test]
fn the_walk_stops_at_a_cycle_and_at_an_unreadable_ancestor() {
    assert!(continues_to(&[9, 8], 7, false));
    assert!(!continues_to(&[9, 8], 8, false), "a cycle ends the walk");
    assert!(!continues_to(&[9, 8], 7, true), "an ancestor that no longer reads ends it");
}

fn hop(conversation: i64, stripped: &[i64]) -> StrippedHop {
    StrippedHop {
        conversation,
        opening_ends: conversation * 10,
        stripped: stripped.to_vec(),
    }
}

#[test]
fn a_lineage_hands_the_serving_hop_and_the_rest_oldest_first() {
    let walked = vec![hop(9, &[91]), hop(7, &[]), hop(5, &[51, 52])];
    let lineage = assembled_lineage(walked, 3, vec![31]).expect("something is stripped");
    assert_eq!(lineage.root, 3);
    assert_eq!(lineage.in_root, vec![31]);
    assert_eq!(lineage.serving, hop(9, &[91]));
    assert_eq!(lineage.below, vec![hop(5, &[51, 52]), hop(7, &[])]);
}

#[test]
fn a_lineage_that_strips_nothing_or_has_no_ancestry_is_none() {
    assert_eq!(assembled_lineage(vec![], 3, vec![31]), None);
    assert_eq!(assembled_lineage(vec![hop(9, &[]), hop(7, &[])], 3, vec![]), None);
    assert!(assembled_lineage(vec![hop(9, &[]), hop(7, &[])], 3, vec![31]).is_some());
}
