//! The assistant's delivery receipts and retractions: what the platform
//! took of each send, what an administrator asked back, and which stored
//! blocks a retraction takes out of the model's view.

use vstd::prelude::*;

use crate::block::Block;
use crate::fields::{integer_spec, text_spec, Fields, Stored};
use crate::kind::{is_named, names_kind, opt_view};
use crate::strings::{concat3, decimal, decimal_spec};

verus! {

/// The stored type string of a delivery receipt.
pub const DELIVERED_KIND: &'static str = "delivered";

/// The content table delivery receipts own.
pub const DELIVERED_TABLE: &'static str = "block_delivered";

/// The platform's id for one delivered message.
pub const COLUMN_ORIGIN: &'static str = "origin";

/// The delivery a message belonged to: the id of the send's first message.
pub const COLUMN_DELIVERY: &'static str = "delivery";

/// The assistant's own block the delivery carried, where it carried one.
pub const COLUMN_ANSWER_BLOCK: &'static str = "answer_block";

/// The stored type string of a retraction.
pub const RETRACTION_KIND: &'static str = "retraction";

/// The content table retractions own.
pub const RETRACTION_TABLE: &'static str = "block_retraction";

/// The delivery a retraction takes back.
pub const COLUMN_RETRACTED_DELIVERY: &'static str = "delivery";

/// The column a quote names its first quoted block by.
pub const COLUMN_QUOTE_START: &'static str = "start_block_id";

/// The column a quote names its last quoted block by.
pub const COLUMN_QUOTE_END: &'static str = "end_block_id";

/// One delivery receipt, every absence kept an absence.
#[derive(Debug, Clone)]
pub struct Delivered {
    /// The platform's id for the delivered message.
    pub origin: Option<String>,
    /// The delivery the message belonged to.
    pub delivery: Option<String>,
    /// The assistant's own block the delivery carried.
    pub answer_block: Option<i64>,
}

/// The row one receipt stores: the message's id, its delivery, and the
/// answer block where there is one.
pub open spec fn delivered_row(origin: Seq<char>, delivery: Seq<char>, answer_block: Option<i64>) -> Map<
    Seq<char>,
    Stored,
> {
    let base = Map::<Seq<char>, Stored>::empty().insert(COLUMN_ORIGIN@, Stored::Text(origin)).insert(
        COLUMN_DELIVERY@,
        Stored::Text(delivery),
    );
    match answer_block {
        Some(b) => base.insert(COLUMN_ANSWER_BLOCK@, Stored::Integer(b)),
        None => base,
    }
}

impl Delivered {
    /// The stored shape of one receipt.
    pub fn stored_fields(origin: &str, delivery: &str, answer_block: Option<i64>) -> (fields: Fields)
        ensures
            fields.view() == delivered_row(origin@, delivery@, answer_block),
    {
        let mut fields = Fields::new();
        fields.insert_text(COLUMN_ORIGIN, origin);
        fields.insert_text(COLUMN_DELIVERY, delivery);
        match answer_block {
            Some(b) => fields.insert_integer(COLUMN_ANSWER_BLOCK, b),
            None => {},
        }
        fields
    }

    /// One loaded block read as a receipt.
    pub fn parse(block: &Block) -> (receipt: Delivered)
        ensures
            opt_view(receipt.origin) == text_spec(block.fields.view(), COLUMN_ORIGIN@),
            opt_view(receipt.delivery) == text_spec(block.fields.view(), COLUMN_DELIVERY@),
            receipt.answer_block == integer_spec(block.fields.view(), COLUMN_ANSWER_BLOCK@),
    {
        Delivered {
            origin: block.fields.text(COLUMN_ORIGIN),
            delivery: block.fields.text(COLUMN_DELIVERY),
            answer_block: block.fields.integer(COLUMN_ANSWER_BLOCK),
        }
    }
}

/// The receipts one delivery records, one per message the platform took,
/// each keyed by the delivery's first message.
pub open spec fn receipt_rows_spec(origins: Seq<Seq<char>>, answer_block: Option<i64>) -> Seq<
    Map<Seq<char>, Stored>,
> {
    origins.map_values(|o: Seq<char>| delivered_row(o, origins[0], answer_block))
}

/// The texts of a list of strings.
pub open spec fn texts(strings: Seq<String>) -> Seq<Seq<char>> {
    strings.map_values(|s: String| s@)
}

/// The rows of a list of stored shapes.
pub open spec fn rows(fields: Seq<Fields>) -> Seq<Map<Seq<char>, Stored>> {
    fields.map_values(|f: Fields| f.view())
}

/// The receipts one delivery records: one per message the platform took,
/// in send order, each naming the delivery by its first message and the
/// answer block the delivery carried. A delivery of no message records
/// nothing.
pub fn receipt_rows(origins: &[String], answer_block: Option<i64>) -> (receipts: Vec<Fields>)
    ensures
        rows(receipts@) == receipt_rows_spec(texts(origins@), answer_block),
{
    let mut receipts: Vec<Fields> = Vec::new();
    if origins.len() == 0 {
        assert(rows(receipts@) =~= receipt_rows_spec(texts(origins@), answer_block));
        return receipts;
    }
    let key = origins[0].as_str();
    let mut i: usize = 0;
    while i < origins.len()
        invariant
            i <= origins@.len(),
            origins@.len() > 0,
            key@ == origins@[0]@,
            rows(receipts@) == receipt_rows_spec(texts(origins@), answer_block).subrange(0, i as int),
        decreases origins@.len() - i,
    {
        let ghost before = receipts@;
        receipts.push(Delivered::stored_fields(origins[i].as_str(), key, answer_block));
        assert(rows(receipts@) =~= receipt_rows_spec(texts(origins@), answer_block).subrange(
            0,
            i as int + 1,
        )) by {
            assert(rows(receipts@) =~= rows(before).push(receipts@.last().view()));
        }
        i = i + 1;
    }
    assert(receipt_rows_spec(texts(origins@), answer_block).subrange(0, i as int) =~= receipt_rows_spec(
        texts(origins@),
        answer_block,
    ));
    receipts
}

/// One retraction, every absence kept an absence.
#[derive(Debug, Clone)]
pub struct Retraction {
    /// The delivery taken back.
    pub delivery: Option<String>,
}

impl Retraction {
    /// The stored shape of one retraction.
    pub fn stored_fields(delivery: &str) -> (fields: Fields)
        ensures
            fields.view() == Map::<Seq<char>, Stored>::empty().insert(
                COLUMN_RETRACTED_DELIVERY@,
                Stored::Text(delivery@),
            ),
    {
        let mut fields = Fields::new();
        fields.insert_text(COLUMN_RETRACTED_DELIVERY, delivery);
        fields
    }

    /// One loaded block read as a retraction.
    pub fn parse(block: &Block) -> (retraction: Retraction)
        ensures
            opt_view(retraction.delivery) == text_spec(block.fields.view(), COLUMN_RETRACTED_DELIVERY@),
    {
        Retraction { delivery: block.fields.text(COLUMN_RETRACTED_DELIVERY) }
    }
}

/// One stored receipt row of a delivery, as the lineage read returns it.
#[derive(Debug, Clone)]
pub struct ReceiptRow {
    /// The delivered message's id, absent once erased.
    pub origin: Option<String>,
    /// The answer block the receipt names.
    pub answer_block: Option<i64>,
}

/// Everything one recorded delivery carried.
#[derive(Debug, Clone, Default, PartialEq, Eq)]
pub struct RecordedSend {
    /// The platform ids of every message of the delivery, in send order.
    pub origins: Vec<String>,
    /// The assistant's own blocks the delivery carried, each once, in
    /// first-seen order.
    pub answer_blocks: Vec<i64>,
}

/// The origins a delivery's receipts name, in order, skipping erased ones.
pub open spec fn send_origins(rows: Seq<ReceiptRow>) -> Seq<Seq<char>>
    decreases rows.len(),
{
    if rows.len() == 0 {
        Seq::empty()
    } else {
        let before = send_origins(rows.drop_last());
        match rows.last().origin {
            Some(o) => before.push(o@),
            None => before,
        }
    }
}

/// The answer blocks a delivery's receipts name, each once, in first-seen
/// order.
pub open spec fn send_answer_blocks(rows: Seq<ReceiptRow>) -> Seq<i64>
    decreases rows.len(),
{
    if rows.len() == 0 {
        Seq::empty()
    } else {
        let before = send_answer_blocks(rows.drop_last());
        match rows.last().answer_block {
            Some(b) => if before.contains(b) {
                before
            } else {
                before.push(b)
            },
            None => before,
        }
    }
}

/// Fold one delivery's receipt rows, in storage order, into what it
/// carried.
pub fn recorded_send(receipts: &[ReceiptRow]) -> (send: RecordedSend)
    ensures
        texts(send.origins@) == send_origins(receipts@),
        send.answer_blocks@ == send_answer_blocks(receipts@),
{
    let mut send = RecordedSend { origins: Vec::new(), answer_blocks: Vec::new() };
    let mut i: usize = 0;
    assert(receipts@.subrange(0, 0) =~= Seq::<ReceiptRow>::empty());
    assert(texts(send.origins@) =~= Seq::<Seq<char>>::empty());
    while i < receipts.len()
        invariant
            i <= receipts@.len(),
            texts(send.origins@) == send_origins(receipts@.subrange(0, i as int)),
            send.answer_blocks@ == send_answer_blocks(receipts@.subrange(0, i as int)),
        decreases receipts@.len() - i,
    {
        let ghost prefix = receipts@.subrange(0, i as int + 1);
        assert(prefix.drop_last() =~= receipts@.subrange(0, i as int));
        assert(prefix.last() == receipts@[i as int]);
        let ghost origins_before = send.origins@;
        match &receipts[i].origin {
            Some(origin) => {
                send.origins.push(origin.clone());
                assert(texts(send.origins@) =~= texts(origins_before).push(origin@));
            },
            None => {},
        }
        match receipts[i].answer_block {
            Some(block) => {
                let mut seen = false;
                let mut j: usize = 0;
                while j < send.answer_blocks.len()
                    invariant
                        j <= send.answer_blocks@.len(),
                        seen == exists|k: int| 0 <= k < j && send.answer_blocks@[k] == block,
                    decreases send.answer_blocks@.len() - j,
                {
                    if send.answer_blocks[j] == block {
                        seen = true;
                    }
                    j = j + 1;
                }
                if !seen {
                    send.answer_blocks.push(block);
                }
            },
            None => {},
        }
        i = i + 1;
    }
    assert(receipts@.subrange(0, i as int) =~= receipts@);
    send
}

/// The blocks a quote names by its two endpoints, where present.
pub open spec fn quoted_endpoints_spec(block: Block) -> Seq<i64> {
    let start = integer_spec(block.fields.view(), COLUMN_QUOTE_START@);
    let end = integer_spec(block.fields.view(), COLUMN_QUOTE_END@);
    let first = match start {
        Some(s) => seq![s],
        None => Seq::empty(),
    };
    match end {
        Some(e) => first.push(e),
        None => first,
    }
}

/// The blocks a quote names by its endpoints, the start before the end.
pub fn quoted_endpoints(block: &Block) -> (endpoints: Vec<i64>)
    ensures
        endpoints@ == quoted_endpoints_spec(*block),
{
    let mut endpoints: Vec<i64> = Vec::new();
    match block.fields.integer(COLUMN_QUOTE_START) {
        Some(s) => endpoints.push(s),
        None => {},
    }
    match block.fields.integer(COLUMN_QUOTE_END) {
        Some(e) => endpoints.push(e),
        None => {},
    }
    assert(endpoints@ =~= quoted_endpoints_spec(*block));
    endpoints
}

/// Whether a block goes with a retracted delivery: one of its answer
/// blocks, or a quote of a kind the caller names with an endpoint on one.
pub open spec fn retracted_spec(block: Block, answer_blocks: Seq<i64>, quote_kinds: Seq<&str>) -> bool {
    ||| answer_blocks.contains(block.id)
    ||| (names_kind(quote_kinds, block.block_type@) && exists|k: int|
        0 <= k < quoted_endpoints_spec(block).len() && answer_blocks.contains(
            #[trigger] quoted_endpoints_spec(block)[k],
        ))
}

/// The ids of the blocks a retraction takes out of view, in ledger order.
pub open spec fn retracted_blocks_spec(blocks: Seq<Block>, answer_blocks: Seq<i64>, quote_kinds: Seq<&str>) -> Seq<
    i64,
>
    decreases blocks.len(),
{
    if blocks.len() == 0 {
        Seq::empty()
    } else {
        let before = retracted_blocks_spec(blocks.drop_last(), answer_blocks, quote_kinds);
        if retracted_spec(blocks.last(), answer_blocks, quote_kinds) {
            before.push(blocks.last().id)
        } else {
            before
        }
    }
}

fn holds_block(answer_blocks: &[i64], id: i64) -> (held: bool)
    ensures
        held == answer_blocks@.contains(id),
{
    let mut i: usize = 0;
    while i < answer_blocks.len()
        invariant
            i <= answer_blocks@.len(),
            forall|k: int| 0 <= k < i ==> answer_blocks@[k] != id,
        decreases answer_blocks@.len() - i,
    {
        if answer_blocks[i] == id {
            assert(answer_blocks@[i as int] == id);
            return true;
        }
        i = i + 1;
    }
    false
}

/// The blocks a retraction takes out of the model's view: the answer blocks
/// the delivery carried, and every quote — of the kinds the caller names —
/// whose span starts or ends on one of them.
pub fn retracted_blocks(blocks: &[Block], answer_blocks: &[i64], quote_kinds: &[&str]) -> (retracted: Vec<i64>)
    ensures
        retracted@ == retracted_blocks_spec(blocks@, answer_blocks@, quote_kinds@),
{
    let mut retracted: Vec<i64> = Vec::new();
    let mut i: usize = 0;
    assert(blocks@.subrange(0, 0) =~= Seq::<Block>::empty());
    while i < blocks.len()
        invariant
            i <= blocks@.len(),
            retracted@ == retracted_blocks_spec(blocks@.subrange(0, i as int), answer_blocks@, quote_kinds@),
        decreases blocks@.len() - i,
    {
        let block = &blocks[i];
        let ghost prefix = blocks@.subrange(0, i as int + 1);
        assert(prefix.drop_last() =~= blocks@.subrange(0, i as int));
        assert(prefix.last() == *block);
        let mut hit = holds_block(answer_blocks, block.id);
        if !hit && is_named(quote_kinds, block.block_type.as_str()) {
            let endpoints = quoted_endpoints(block);
            let mut k: usize = 0;
            while k < endpoints.len()
                invariant
                    k <= endpoints@.len(),
                    endpoints@ == quoted_endpoints_spec(*block),
                    !hit ==> forall|m: int| 0 <= m < k ==> !answer_blocks@.contains(endpoints@[m]),
                    hit ==> exists|m: int| 0 <= m < endpoints@.len() && answer_blocks@.contains(
                        #[trigger] endpoints@[m],
                    ),
                decreases endpoints@.len() - k,
            {
                if holds_block(answer_blocks, endpoints[k]) {
                    hit = true;
                }
                k = k + 1;
            }
        }
        if hit {
            retracted.push(block.id);
        }
        i = i + 1;
    }
    assert(blocks@.subrange(0, i as int) =~= blocks@);
    retracted
}

/// The placeholders `?2, ?3, …` for a lineage of `n` conversations.
pub open spec fn placeholders_spec(n: nat) -> Seq<char>
    decreases n,
{
    if n == 0 {
        Seq::empty()
    } else if n == 1 {
        "?"@ + decimal_spec(2)
    } else {
        placeholders_spec((n - 1) as nat) + ", ?"@ + decimal_spec(n + 1)
    }
}

/// The condition that a row aliased `row` is held by one of a lineage's
/// conversations, whose ids are bound from the query's second parameter on.
pub open spec fn held_by_lineage_spec(row: Seq<char>, n: nat) -> Seq<char> {
    "EXISTS (SELECT 1 FROM conversation_blocks cb WHERE cb.block_id = "@ + row
        + ".block_id AND cb.conversation_id IN ("@ + placeholders_spec(n) + "))"@
}

/// The condition that the row aliased `row` is held by a conversation of
/// the lineage, whose `lineage_len` ids the query binds from its second
/// parameter on.
pub fn held_by_lineage(row: &str, lineage_len: usize) -> (clause: String)
    requires
        lineage_len < u64::MAX - 2,
    ensures
        clause@ == held_by_lineage_spec(row@, lineage_len as nat),
{
    let mut placeholders = String::new();
    let mut i: usize = 0;
    while i < lineage_len
        invariant
            i <= lineage_len,
            lineage_len < u64::MAX - 2,
            placeholders@ == placeholders_spec(i as nat),
        decreases lineage_len - i,
    {
        let number = decimal(i as u64 + 2);
        let ghost before = placeholders@;
        if i == 0 {
            placeholders.append("?");
        } else {
            placeholders.append(", ?");
        }
        placeholders.append(number.as_str());
        proof {
            if i == 0 {
                assert(placeholders@ =~= "?"@ + decimal_spec(2));
            } else {
                assert(placeholders@ =~= before + ", ?"@ + decimal_spec((i + 1) as nat + 1));
            }
        }
        i = i + 1;
    }
    let head = concat3(
        "EXISTS (SELECT 1 FROM conversation_blocks cb WHERE cb.block_id = ",
        row,
        ".block_id AND cb.conversation_id IN (",
    );
    concat3(head.as_str(), placeholders.as_str(), "))")
}

/// A receipt written by [`Delivered::stored_fields`] reads back as the
/// facts it was written with; an item's receipt names no block.
pub proof fn a_written_receipt_reads_back_as_written(
    origin: Seq<char>,
    delivery: Seq<char>,
    answer_block: Option<i64>,
)
    ensures
        text_spec(delivered_row(origin, delivery, answer_block), COLUMN_ORIGIN@) == Some(origin),
        text_spec(delivered_row(origin, delivery, answer_block), COLUMN_DELIVERY@) == Some(delivery),
        integer_spec(delivered_row(origin, delivery, answer_block), COLUMN_ANSWER_BLOCK@)
            == answer_block,
{
    reveal_strlit("origin");
    reveal_strlit("delivery");
    reveal_strlit("answer_block");
    assert(COLUMN_ORIGIN@.len() == 6 && COLUMN_DELIVERY@.len() == 8 && COLUMN_ANSWER_BLOCK@.len() == 12);
}

/// Every answer block a retracted delivery carried leaves the model's
/// view: whichever block of the ledger is one of them is retracted.
pub proof fn every_carried_answer_is_retracted(
    blocks: Seq<Block>,
    answer_blocks: Seq<i64>,
    quote_kinds: Seq<&str>,
    i: int,
)
    requires
        0 <= i < blocks.len(),
        answer_blocks.contains(blocks[i].id),
    ensures
        retracted_blocks_spec(blocks, answer_blocks, quote_kinds).contains(blocks[i].id),
    decreases blocks.len(),
{
    let all = retracted_blocks_spec(blocks, answer_blocks, quote_kinds);
    if i == blocks.len() - 1 {
        assert(all.last() == blocks[i].id);
        assert(all[all.len() - 1] == blocks[i].id);
    } else {
        let init = blocks.drop_last();
        assert(init[i] == blocks[i]);
        every_carried_answer_is_retracted(init, answer_blocks, quote_kinds, i);
        let before = retracted_blocks_spec(init, answer_blocks, quote_kinds);
        let k = choose|k: int| 0 <= k < before.len() && before[k] == blocks[i].id;
        if retracted_spec(blocks.last(), answer_blocks, quote_kinds) {
            assert(all[k] == before[k]);
        }
    }
}

} // verus!
