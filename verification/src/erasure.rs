//! The person-wide erasure's decisions: which stored blocks are a person's
//! own, which direct conversations carry them, and what the operation
//! answers.

use vstd::prelude::*;

use crate::block::Block;
use crate::fields::integer_spec;
use crate::join::{JoinNotice, JOIN_NOTICE_KIND};
use crate::kind::{ChatMessage, CHAT_MESSAGE_KIND, COLUMN_PRINCIPAL_ID};
use crate::strings::{concat3, str_eq};

verus! {

/// What one erasure came to.
#[derive(Debug, Clone, PartialEq, Eq)]
pub enum ErasureOutcome {
    /// The person's data is erased; the direct conversations carrying them
    /// are deleted whole.
    Erased {
        /// The conversations deleted whole.
        deleted_conversations: Vec<i64>,
    },
    /// No such person is known.
    NotFound,
}

/// What an erasure will do, decided before it starts.
#[derive(Debug)]
pub struct ErasurePlan {
    principal_id: i64,
    direct_conversations: Vec<i64>,
}

impl ErasurePlan {
    /// The person the plan erases.
    pub closed spec fn principal_spec(&self) -> i64 {
        self.principal_id
    }

    /// The direct conversations the plan deletes whole.
    pub closed spec fn direct_spec(&self) -> Seq<i64> {
        self.direct_conversations@
    }

    /// A plan for one person and the direct conversations carrying them.
    pub fn new(principal_id: i64, direct_conversations: Vec<i64>) -> (plan: ErasurePlan)
        ensures
            plan.principal_spec() == principal_id,
            plan.direct_spec() == direct_conversations@,
    {
        ErasurePlan { principal_id, direct_conversations }
    }

    /// The person the plan erases.
    pub fn principal_id(&self) -> (principal_id: i64)
        ensures
            principal_id == self.principal_spec(),
    {
        self.principal_id
    }

    /// The direct conversations the plan deletes whole.
    pub fn direct_conversations(&self) -> (conversations: &[i64])
        ensures
            conversations@ == self.direct_spec(),
    {
        self.direct_conversations.as_slice()
    }

    /// What the executed plan answers: the person erased, with the direct
    /// conversations it deleted.
    pub fn concluded(self) -> (outcome: ErasureOutcome)
        ensures
            outcome matches ErasureOutcome::Erased { deleted_conversations } && deleted_conversations@
                == self.direct_spec(),
    {
        ErasureOutcome::Erased { deleted_conversations: self.direct_conversations }
    }
}

/// Whether a stored block is a person's own: a chat message or a join
/// notice whose principal id is theirs.
pub open spec fn authored_by(block: Block, principal_id: i64) -> bool {
    (block.block_type@ == CHAT_MESSAGE_KIND@ || block.block_type@ == JOIN_NOTICE_KIND@) && integer_spec(
        block.fields.view(),
        COLUMN_PRINCIPAL_ID@,
    ) == Some(principal_id)
}

/// The ids of a person's own blocks, in ledger order.
pub open spec fn blocks_of_spec(blocks: Seq<Block>, principal_id: i64) -> Seq<i64>
    decreases blocks.len(),
{
    if blocks.len() == 0 {
        Seq::empty()
    } else {
        let before = blocks_of_spec(blocks.drop_last(), principal_id);
        if authored_by(blocks.last(), principal_id) {
            before.push(blocks.last().id)
        } else {
            before
        }
    }
}

fn authored(block: &Block, principal_id: i64) -> (own: bool)
    ensures
        own == authored_by(*block, principal_id),
{
    if str_eq(block.block_type.as_str(), CHAT_MESSAGE_KIND) {
        ChatMessage::parse(block).principal_id == Some(principal_id)
    } else if str_eq(block.block_type.as_str(), JOIN_NOTICE_KIND) {
        proof {
            reveal_strlit("chat_message");
            reveal_strlit("join_notice");
        }
        JoinNotice::parse(block).principal_id == Some(principal_id)
    } else {
        false
    }
}

/// The ids of the blocks a person wrote: their chat messages and their
/// join notices, in ledger order.
pub fn blocks_of(blocks: &[Block], principal_id: i64) -> (own: Vec<i64>)
    ensures
        own@ == blocks_of_spec(blocks@, principal_id),
{
    let mut own: Vec<i64> = Vec::new();
    let mut i: usize = 0;
    assert(blocks@.subrange(0, 0) =~= Seq::<Block>::empty());
    while i < blocks.len()
        invariant
            i <= blocks@.len(),
            own@ == blocks_of_spec(blocks@.subrange(0, i as int), principal_id),
        decreases blocks@.len() - i,
    {
        let ghost prefix = blocks@.subrange(0, i as int + 1);
        assert(prefix.drop_last() =~= blocks@.subrange(0, i as int));
        assert(prefix.last() == blocks@[i as int]);
        if authored(&blocks[i], principal_id) {
            own.push(blocks[i].id);
        }
        i = i + 1;
    }
    assert(blocks@.subrange(0, i as int) =~= blocks@);
    own
}

/// Whether a conversation's ledger carries a chat message of the person.
pub open spec fn carries_principal_spec(blocks: Seq<Block>, principal_id: i64) -> bool {
    exists|i: int|
        0 <= i < blocks.len() && (#[trigger] blocks[i]).block_type@ == CHAT_MESSAGE_KIND@ && integer_spec(
            blocks[i].fields.view(),
            COLUMN_PRINCIPAL_ID@,
        ) == Some(principal_id)
}

/// Whether a direct conversation carries the person: some chat message in
/// it is theirs. Such a conversation is deleted whole by the erasure.
pub fn carries_principal(blocks: &[Block], principal_id: i64) -> (carries: bool)
    ensures
        carries == carries_principal_spec(blocks@, principal_id),
{
    let mut i: usize = 0;
    while i < blocks.len()
        invariant
            i <= blocks@.len(),
            forall|j: int|
                0 <= j < i ==> !((#[trigger] blocks@[j]).block_type@ == CHAT_MESSAGE_KIND@ && integer_spec(
                    blocks@[j].fields.view(),
                    COLUMN_PRINCIPAL_ID@,
                ) == Some(principal_id)),
        decreases blocks@.len() - i,
    {
        if str_eq(blocks[i].block_type.as_str(), CHAT_MESSAGE_KIND) && ChatMessage::parse(&blocks[i]).principal_id
            == Some(principal_id) {
            return true;
        }
        i = i + 1;
    }
    false
}

proof fn lemma_authored_is_listed(blocks: Seq<Block>, principal_id: i64, i: int)
    requires
        0 <= i < blocks.len(),
        authored_by(blocks[i], principal_id),
    ensures
        blocks_of_spec(blocks, principal_id).contains(blocks[i].id),
    decreases blocks.len(),
{
    let init = blocks.drop_last();
    if i == blocks.len() - 1 {
        let listed = blocks_of_spec(blocks, principal_id);
        assert(listed[listed.len() - 1] == blocks[i].id);
    } else {
        assert(init[i] == blocks[i]);
        lemma_authored_is_listed(init, principal_id, i);
        let before = blocks_of_spec(init, principal_id);
        let j = choose|j: int| 0 <= j < before.len() && before[j] == blocks[i].id;
        if authored_by(blocks.last(), principal_id) {
            assert(before.push(blocks.last().id)[j] == blocks[i].id);
        }
    }
}

/// A conversation carries only its own authors: a ledger in which every
/// chat message was written by somebody else — whatever principal each
/// names — never carries the person, so erasing one person never deletes
/// another person's direct conversation; and a ledger holding a chat
/// message the person wrote always carries them, with that message among
/// the blocks erased as theirs.
pub proof fn a_conversation_carries_only_its_own_authors(blocks: Seq<Block>, principal_id: i64)
    ensures
        (forall|i: int|
            0 <= i < blocks.len() && (#[trigger] blocks[i]).block_type@ == CHAT_MESSAGE_KIND@
                ==> integer_spec(blocks[i].fields.view(), COLUMN_PRINCIPAL_ID@) != Some(principal_id))
            ==> !carries_principal_spec(blocks, principal_id),
        forall|i: int|
            0 <= i < blocks.len() && (#[trigger] blocks[i]).block_type@ == CHAT_MESSAGE_KIND@
                && integer_spec(blocks[i].fields.view(), COLUMN_PRINCIPAL_ID@) == Some(principal_id)
                ==> carries_principal_spec(blocks, principal_id) && blocks_of_spec(
                blocks,
                principal_id,
            ).contains(blocks[i].id),
{
    assert forall|i: int|
        0 <= i < blocks.len() && (#[trigger] blocks[i]).block_type@ == CHAT_MESSAGE_KIND@
            && integer_spec(blocks[i].fields.view(), COLUMN_PRINCIPAL_ID@) == Some(principal_id)
            implies carries_principal_spec(blocks, principal_id) && blocks_of_spec(
            blocks,
            principal_id,
        ).contains(blocks[i].id) by {
        lemma_authored_is_listed(blocks, principal_id, i);
    }
}

/// A column that holds a copy of another record's platform id.
#[derive(Debug, Clone, Copy)]
pub struct ReferenceSite {
    /// The table holding the copy.
    pub table: &'static str,
    /// The column holding it.
    pub column: &'static str,
}

/// A table whose rows carry an author's platform id.
#[derive(Debug, Clone, Copy)]
pub struct OriginSource {
    /// The authored table.
    pub table: &'static str,
    /// The column holding the authored record's platform id.
    pub origin_column: &'static str,
    /// The column holding the author's principal id.
    pub principal_column: &'static str,
}

/// The reply-target column of chat messages: a copy of the replied-to
/// message's id.
pub fn reply_target_site() -> (site: ReferenceSite)
    ensures
        site.table@ == crate::kind::CHAT_MESSAGE_TABLE@,
        site.column@ == crate::kind::COLUMN_REPLY_TARGET@,
{
    ReferenceSite { table: crate::kind::CHAT_MESSAGE_TABLE, column: crate::kind::COLUMN_REPLY_TARGET }
}

/// The records a person authors a platform id on: their chat messages and
/// their join events, by their principal.
pub fn origin_sources() -> (sources: Vec<OriginSource>)
    ensures
        sources@.len() == 2,
        sources@[0].table@ == crate::kind::CHAT_MESSAGE_TABLE@,
        sources@[0].origin_column@ == crate::kind::COLUMN_ORIGIN@,
        sources@[0].principal_column@ == crate::kind::COLUMN_PRINCIPAL_ID@,
        sources@[1].table@ == crate::join::JOIN_NOTICE_TABLE@,
        sources@[1].origin_column@ == crate::join::COLUMN_ORIGIN@,
        sources@[1].principal_column@ == crate::join::COLUMN_PRINCIPAL_ID@,
{
    let mut sources: Vec<OriginSource> = Vec::new();
    sources.push(
        OriginSource {
            table: crate::kind::CHAT_MESSAGE_TABLE,
            origin_column: crate::kind::COLUMN_ORIGIN,
            principal_column: crate::kind::COLUMN_PRINCIPAL_ID,
        },
    );
    sources.push(
        OriginSource {
            table: crate::join::JOIN_NOTICE_TABLE,
            origin_column: crate::join::COLUMN_ORIGIN,
            principal_column: crate::join::COLUMN_PRINCIPAL_ID,
        },
    );
    sources
}

/// The condition that a site's row names a record the principal bound as
/// `?1` authored in the same conversation, through one source.
pub open spec fn authored_by_spec(site: ReferenceSite, source: OriginSource) -> Seq<char> {
    "EXISTS (SELECT 1 FROM "@ + source.table@
        + " author JOIN conversation_blocks acb ON acb.block_id = author.block_id JOIN conversation_blocks rcb ON rcb.block_id = "@
        + site.table@ + ".block_id WHERE author."@ + source.principal_column@ + " = ?1 AND author."@
        + source.origin_column@ + " = "@ + site.table@ + "."@ + site.column@
        + " AND acb.conversation_id = rcb.conversation_id)"@
}

/// The conditions of every source, joined by OR.
pub open spec fn authored_any_spec(site: ReferenceSite, sources: Seq<OriginSource>) -> Seq<char>
    decreases sources.len(),
{
    if sources.len() == 0 {
        Seq::empty()
    } else if sources.len() == 1 {
        authored_by_spec(site, sources[0])
    } else {
        authored_any_spec(site, sources.drop_last()) + " OR "@ + authored_by_spec(site, sources.last())
    }
}

/// The update that nulls every copy, at a site, of an id the principal
/// authored: nothing at all for no sources.
pub open spec fn null_references_naming_spec(site: ReferenceSite, sources: Seq<OriginSource>) -> Option<Seq<char>> {
    if sources.len() == 0 {
        None
    } else {
        Some(
            "UPDATE "@ + site.table@ + " SET "@ + site.column@ + " = NULL WHERE "@ + site.column@
                + " IS NOT NULL AND ("@ + authored_any_spec(site, sources) + ")"@,
        )
    }
}

fn authored_through(site: ReferenceSite, source: OriginSource) -> (clause: String)
    ensures
        clause@ == authored_by_spec(site, source),
{
    let mut clause = concat3(
        "EXISTS (SELECT 1 FROM ",
        source.table,
        " author JOIN conversation_blocks acb ON acb.block_id = author.block_id JOIN conversation_blocks rcb ON rcb.block_id = ",
    );
    let ghost s0 = clause@;
    clause.append(site.table);
    clause.append(".block_id WHERE author.");
    clause.append(source.principal_column);
    clause.append(" = ?1 AND author.");
    clause.append(source.origin_column);
    clause.append(" = ");
    clause.append(site.table);
    clause.append(".");
    clause.append(site.column);
    clause.append(" AND acb.conversation_id = rcb.conversation_id)");
    assert(clause@ =~= s0 + site.table@ + ".block_id WHERE author."@ + source.principal_column@
        + " = ?1 AND author."@ + source.origin_column@ + " = "@ + site.table@ + "."@ + site.column@
        + " AND acb.conversation_id = rcb.conversation_id)"@);
    clause
}

/// The update that nulls every copy, at a site, of a platform id the
/// principal bound as `?1` authored, through any of the sources, in the
/// conversation where the copy lives; `None` for an empty source list,
/// which has nothing to null.
pub fn null_references_naming(site: ReferenceSite, sources: &[OriginSource]) -> (statement: Option<String>)
    ensures
        match statement {
            Some(s) => null_references_naming_spec(site, sources@) == Some(s@),
            None => null_references_naming_spec(site, sources@) is None,
        },
{
    if sources.len() == 0 {
        return None;
    }
    let mut authored = String::new();
    let mut i: usize = 0;
    assert(sources@.subrange(0, 0) =~= Seq::<OriginSource>::empty());
    while i < sources.len()
        invariant
            i <= sources@.len(),
            authored@ == authored_any_spec(site, sources@.subrange(0, i as int)),
        decreases sources@.len() - i,
    {
        let ghost before = authored@;
        let ghost prefix = sources@.subrange(0, i as int + 1);
        assert(prefix.drop_last() =~= sources@.subrange(0, i as int));
        assert(prefix.last() == sources@[i as int]);
        let one = authored_through(site, sources[i]);
        if i > 0 {
            authored.append(" OR ");
        }
        authored.append(one.as_str());
        proof {
            if i > 0 {
                assert(authored@ =~= before + " OR "@ + authored_by_spec(site, sources@[i as int]));
            } else {
                assert(authored@ =~= authored_by_spec(site, sources@[0]));
            }
        }
        i = i + 1;
    }
    assert(sources@.subrange(0, i as int) =~= sources@);
    let mut statement = concat3("UPDATE ", site.table, " SET ");
    let ghost s0 = statement@;
    statement.append(site.column);
    statement.append(" = NULL WHERE ");
    statement.append(site.column);
    statement.append(" IS NOT NULL AND (");
    statement.append(authored.as_str());
    statement.append(")");
    assert(statement@ =~= s0 + site.column@ + " = NULL WHERE "@ + site.column@ + " IS NOT NULL AND ("@
        + authored_any_spec(site, sources@) + ")"@);
    Some(statement)
}

/// The update that nulls, at a site, every copy of one named id in one
/// conversation.
pub open spec fn null_references_to_spec(site: ReferenceSite) -> Seq<char> {
    "UPDATE "@ + site.table@ + " SET "@ + site.column@ + " = NULL WHERE "@ + site.column@
        + " = ?1 AND EXISTS (SELECT 1 FROM conversation_blocks cb WHERE cb.block_id = "@ + site.table@
        + ".block_id AND cb.conversation_id = ?2)"@
}

/// The update that nulls, at a site, every copy of the id bound as `?1`
/// held in the conversation bound as `?2`.
pub fn null_references_to(site: ReferenceSite) -> (statement: String)
    ensures
        statement@ == null_references_to_spec(site),
{
    let mut statement = concat3("UPDATE ", site.table, " SET ");
    let ghost s0 = statement@;
    statement.append(site.column);
    statement.append(" = NULL WHERE ");
    statement.append(site.column);
    statement.append(" = ?1 AND EXISTS (SELECT 1 FROM conversation_blocks cb WHERE cb.block_id = ");
    statement.append(site.table);
    statement.append(".block_id AND cb.conversation_id = ?2)");
    assert(statement@ =~= s0 + site.column@ + " = NULL WHERE "@ + site.column@
        + " = ?1 AND EXISTS (SELECT 1 FROM conversation_blocks cb WHERE cb.block_id = "@ + site.table@
        + ".block_id AND cb.conversation_id = ?2)"@);
    statement
}

} // verus!
