use assistant_core::block::Block;
use assistant_core::delivery::{
    held_by_lineage, receipt_rows, recorded_send, retracted_blocks, Delivered, ReceiptRow,
    Retraction, COLUMN_QUOTE_END, COLUMN_QUOTE_START, DELIVERED_KIND, RETRACTION_KIND,
};
use assistant_core::fields::Fields;

fn block(id: i64, block_type: &str, fields: Fields) -> Block {
    Block {
        id,
        role: None,
        block_type: block_type.into(),
        created_at: String::new(),
        dispatch_anchor: None,
        fields,
    }
}

#[test]
fn the_stored_fields_round_trip_and_an_item_names_no_block() {
    let answer = Delivered::parse(&block(1, DELIVERED_KIND, Delivered::stored_fields("12", "11", Some(88))));
    assert_eq!(answer.origin.as_deref(), Some("12"));
    assert_eq!(answer.delivery.as_deref(), Some("11"));
    assert_eq!(answer.answer_block, Some(88));

    let item = Delivered::parse(&block(1, DELIVERED_KIND, Delivered::stored_fields("13", "13", None)));
    assert_eq!(item.origin.as_deref(), Some("13"));
    assert_eq!(item.delivery.as_deref(), Some("13"));
    assert_eq!(item.answer_block, None, "an item's receipt names no block");
}

#[test]
fn a_delivery_records_one_receipt_per_message_keyed_by_its_first() {
    let origins = vec!["21".to_owned(), "22".to_owned(), "23".to_owned()];
    let rows = receipt_rows(&origins, Some(5));
    assert_eq!(rows.len(), 3);
    for (row, origin) in rows.iter().zip(&origins) {
        assert_eq!(row.text("origin").as_deref(), Some(origin.as_str()));
        assert_eq!(row.text("delivery").as_deref(), Some("21"));
        assert_eq!(row.integer("answer_block"), Some(5));
    }
    assert!(receipt_rows(&[], Some(5)).is_empty(), "nothing sent, nothing recorded");
}

#[test]
fn a_recorded_send_keeps_its_order_and_names_each_answer_once() {
    let rows = vec![
        ReceiptRow { origin: Some("31".into()), answer_block: Some(9) },
        ReceiptRow { origin: None, answer_block: Some(9) },
        ReceiptRow { origin: Some("33".into()), answer_block: Some(10) },
        ReceiptRow { origin: Some("34".into()), answer_block: None },
    ];
    let send = recorded_send(&rows);
    assert_eq!(send.origins, vec!["31".to_owned(), "33".to_owned(), "34".to_owned()]);
    assert_eq!(send.answer_blocks, vec![9, 10]);
}

#[test]
fn a_retraction_takes_its_answers_and_the_quotes_that_reach_them() {
    let mut quote_on_answer = Fields::new();
    quote_on_answer.insert_integer(COLUMN_QUOTE_START, 3);
    quote_on_answer.insert_integer(COLUMN_QUOTE_END, 4);
    let mut quote_elsewhere = Fields::new();
    quote_elsewhere.insert_integer(COLUMN_QUOTE_START, 1);
    let blocks = vec![
        block(1, "text", Fields::new()),
        block(4, "text", Fields::new()),
        block(5, "quote", quote_on_answer),
        block(6, "quote", quote_elsewhere),
        block(7, "note", {
            let mut f = Fields::new();
            f.insert_integer(COLUMN_QUOTE_START, 4);
            f
        }),
    ];
    assert_eq!(retracted_blocks(&blocks, &[4], &["quote"]), vec![4, 5]);
    assert!(retracted_blocks(&blocks, &[], &["quote"]).is_empty());
}

#[test]
fn the_lineage_condition_binds_every_conversation_from_the_second_parameter() {
    assert_eq!(
        held_by_lineage("d", 3),
        "EXISTS (SELECT 1 FROM conversation_blocks cb WHERE cb.block_id = d.block_id \
         AND cb.conversation_id IN (?2, ?3, ?4))"
    );
    assert_eq!(
        held_by_lineage("r", 1),
        "EXISTS (SELECT 1 FROM conversation_blocks cb WHERE cb.block_id = r.block_id \
         AND cb.conversation_id IN (?2))"
    );
    assert!(held_by_lineage("d", 12).ends_with("?12, ?13))"));
}

#[test]
fn a_retraction_reads_back_the_delivery_it_took_back() {
    let retraction = Retraction::parse(&block(2, RETRACTION_KIND, Retraction::stored_fields("11")));
    assert_eq!(retraction.delivery.as_deref(), Some("11"));
    assert_eq!(Retraction::parse(&block(2, RETRACTION_KIND, Fields::new())).delivery, None);
}
