//! One person's recorded entry into a group: its stored columns, its
//! projection for the model, and the columns its erasure empties.

use vstd::prelude::*;

use crate::block::{Block, Role};
use crate::fields::{integer_spec, text_spec, Fields, Stored};
use crate::kind::{enveloped, envelope_spec, opt_str_view, opt_view, storable_speaker, storable_speaker_spec, Envelope};
use crate::sql::{column_texts, null_assignments, null_clause};
use crate::strings::{concat2, concat3};

verus! {

/// The stored type string of the join notice.
pub const JOIN_NOTICE_KIND: &'static str = "join_notice";

/// The content table the join notice owns.
pub const JOIN_NOTICE_TABLE: &'static str = "block_join_notice";

/// The joiner's display name as the platform delivered it.
pub const COLUMN_NAME: &'static str = "name";
/// The joiner's public username, where storable.
pub const COLUMN_HANDLE: &'static str = "handle";
/// The joiner's principal id in the identity tables.
pub const COLUMN_PRINCIPAL_ID: &'static str = "principal_id";
/// The platform's own id for the join event.
pub const COLUMN_ORIGIN: &'static str = "origin";
/// When the platform says the join happened, RFC 3339.
pub const COLUMN_JOINED_AT: &'static str = "joined_at";

/// What the projected statement of a join opens with.
pub const JOIN_NOTICE_LEAD: &'static str = "A member joined the group: ";

/// The statement of a join whose joiner has neither a name nor a handle.
pub const UNNAMED_JOINER_LINE: &'static str = "A member joined the group.";

/// The columns erasure empties: everything personal, never the key.
pub const PERSONAL_COLUMNS: [&'static str; 4] = [COLUMN_NAME, COLUMN_HANDLE, COLUMN_ORIGIN, COLUMN_JOINED_AT];

/// The joiner as one write records them.
#[derive(Debug, Clone, Copy)]
pub struct RecordedJoiner<'a> {
    /// The resolved principal id.
    pub principal_id: i64,
    /// The display name as delivered; may be empty.
    pub name: &'a str,
    /// The public username as delivered, if any.
    pub handle: Option<&'a str>,
}

/// One recorded join, every absence kept an absence; an erased join holds
/// no name.
#[derive(Debug, Clone)]
pub struct JoinNotice {
    /// The joiner's display name.
    pub name: Option<String>,
    /// The joiner's public username.
    pub handle: Option<String>,
    /// The joiner's principal id.
    pub principal_id: Option<i64>,
    /// The platform's id for the join event.
    pub origin: Option<String>,
    /// When the join happened.
    pub joined_at: Option<String>,
}

/// A join as a mathematical record.
pub struct JoinRecord {
    /// The joiner's display name.
    pub name: Option<Seq<char>>,
    /// The joiner's public username.
    pub handle: Option<Seq<char>>,
    /// The joiner's principal id.
    pub principal_id: Option<i64>,
    /// The platform's id for the join event.
    pub origin: Option<Seq<char>>,
    /// When the join happened.
    pub joined_at: Option<Seq<char>>,
}

/// The row one join write stores: the name, the handle only when storable,
/// the principal id, the event's id and its time.
pub open spec fn join_row(
    principal_id: i64,
    name: Seq<char>,
    handle: Option<Seq<char>>,
    origin: Seq<char>,
    joined_at: Seq<char>,
) -> Map<Seq<char>, Stored> {
    let named = Map::<Seq<char>, Stored>::empty().insert(COLUMN_NAME@, Stored::Text(name));
    let with_handle = match handle {
        Some(h) => if storable_speaker_spec(h) {
            named.insert(COLUMN_HANDLE@, Stored::Text(h))
        } else {
            named
        },
        None => named,
    };
    with_handle.insert(COLUMN_PRINCIPAL_ID@, Stored::Integer(principal_id)).insert(
        COLUMN_ORIGIN@,
        Stored::Text(origin),
    ).insert(COLUMN_JOINED_AT@, Stored::Text(joined_at))
}

/// The record a stored row reads back as.
pub open spec fn join_record_of(row: Map<Seq<char>, Stored>) -> JoinRecord {
    JoinRecord {
        name: text_spec(row, COLUMN_NAME@),
        handle: text_spec(row, COLUMN_HANDLE@),
        principal_id: integer_spec(row, COLUMN_PRINCIPAL_ID@),
        origin: text_spec(row, COLUMN_ORIGIN@),
        joined_at: text_spec(row, COLUMN_JOINED_AT@),
    }
}

/// What a join states: the name with the handle beside it, falling back
/// from the name to the handle, and to the unnamed line when neither is
/// known.
pub open spec fn join_statement(name: Seq<char>, handle: Option<Seq<char>>) -> Seq<char> {
    match (name.len() == 0, handle) {
        (false, Some(h)) => JOIN_NOTICE_LEAD@ + name + " (@"@ + h + ")"@,
        (false, None) => JOIN_NOTICE_LEAD@ + name,
        (true, Some(h)) => JOIN_NOTICE_LEAD@ + "@"@ + h,
        (true, None) => UNNAMED_JOINER_LINE@,
    }
}

/// The projected line of a join record: nothing once erasure emptied the
/// name, otherwise the statement in its envelope.
pub open spec fn join_line_spec(r: JoinRecord) -> Option<Seq<char>> {
    match r.name {
        Some(name) => Some(envelope_spec(r.handle, r.joined_at, r.origin, join_statement(name, r.handle))),
        None => None,
    }
}

impl JoinNotice {
    /// The join as a mathematical record.
    pub open spec fn record(&self) -> JoinRecord {
        JoinRecord {
            name: opt_view(self.name),
            handle: opt_view(self.handle),
            principal_id: self.principal_id,
            origin: opt_view(self.origin),
            joined_at: opt_view(self.joined_at),
        }
    }

    /// The stored shape of one join, named by the same columns the parse
    /// reads back.
    pub fn stored_fields(joiner: RecordedJoiner<'_>, origin: &str, joined_at: &str) -> (fields: Fields)
        ensures
            fields.view() == join_row(
                joiner.principal_id,
                joiner.name@,
                opt_str_view(joiner.handle),
                origin@,
                joined_at@,
            ),
    {
        let mut fields = Fields::new();
        fields.insert_text(COLUMN_NAME, joiner.name);
        match joiner.handle {
            Some(handle) => {
                if storable_speaker(handle) {
                    fields.insert_text(COLUMN_HANDLE, handle);
                }
            },
            None => {},
        }
        fields.insert_integer(COLUMN_PRINCIPAL_ID, joiner.principal_id);
        fields.insert_text(COLUMN_ORIGIN, origin);
        fields.insert_text(COLUMN_JOINED_AT, joined_at);
        fields
    }

    /// One loaded block read as a join.
    pub fn parse(block: &Block) -> (join: JoinNotice)
        ensures
            join.record() == join_record_of(block.fields.view()),
    {
        let fields = &block.fields;
        JoinNotice {
            name: fields.text(COLUMN_NAME),
            handle: fields.text(COLUMN_HANDLE),
            principal_id: fields.integer(COLUMN_PRINCIPAL_ID),
            origin: fields.text(COLUMN_ORIGIN),
            joined_at: fields.text(COLUMN_JOINED_AT),
        }
    }

    /// What the join states, before its envelope.
    fn statement(name: &str, handle: Option<&str>) -> (statement: String)
        ensures
            statement@ == join_statement(name@, opt_str_view(handle)),
    {
        let empty = name.unicode_len() == 0;
        match handle {
            Some(h) => {
                if !empty {
                    let mut s = concat2(JOIN_NOTICE_LEAD, name);
                    let ghost before = s@;
                    s.append(" (@");
                    s.append(h);
                    s.append(")");
                    assert(s@ =~= before + " (@"@ + h@ + ")"@);
                    s
                } else {
                    let mut s = concat2(JOIN_NOTICE_LEAD, "@");
                    s.append(h);
                    s
                }
            },
            None => {
                if !empty {
                    concat2(JOIN_NOTICE_LEAD, name)
                } else {
                    UNNAMED_JOINER_LINE.to_owned()
                }
            },
        }
    }

    /// The join's projected line: nothing for an erased join, otherwise
    /// its statement in the envelope that names the joiner's handle, the
    /// time and the event's id.
    pub fn line(&self) -> (line: Option<String>)
        ensures
            opt_view(line) == join_line_spec(self.record()),
    {
        match &self.name {
            Some(name) => {
                let handle = match &self.handle {
                    Some(h) => Some(h.as_str()),
                    None => None,
                };
                let statement = JoinNotice::statement(name.as_str(), handle);
                let envelope = Envelope {
                    from: handle,
                    date: match &self.joined_at {
                        Some(d) => Some(d.as_str()),
                        None => None,
                    },
                    msgid: match &self.origin {
                        Some(o) => Some(o.as_str()),
                        None => None,
                    },
                };
                Some(enveloped(envelope, statement.as_str()))
            },
            None => None,
        }
    }

    /// The voice the join projects in: the system's, while it has a line.
    pub fn group_role(&self) -> (role: Option<Role>)
        ensures
            role == (if self.record().name is Some {
                Some(Role::System)
            } else {
                None
            }),
    {
        match &self.name {
            Some(_) => Some(Role::System),
            None => None,
        }
    }
}

/// The personal columns as texts.
pub open spec fn personal_columns() -> Seq<Seq<char>> {
    seq![COLUMN_NAME@, COLUMN_HANDLE@, COLUMN_ORIGIN@, COLUMN_JOINED_AT@]
}

/// The update clause that empties every personal column of a join and
/// leaves its principal id, the key, standing.
pub fn null_personal_columns() -> (clause: String)
    ensures
        clause@ == null_clause(personal_columns()),
{
    let columns = PERSONAL_COLUMNS;
    let clause = null_assignments(&columns);
    assert(column_texts(columns@) =~= personal_columns());
    clause
}

/// The stored shape and the parse are one encoding: a join written by
/// [`JoinNotice::stored_fields`] reads back as the facts the write
/// carried, the handle only where it was storable.
pub proof fn a_written_join_reads_back_as_written(
    principal_id: i64,
    name: Seq<char>,
    handle: Option<Seq<char>>,
    origin: Seq<char>,
    joined_at: Seq<char>,
)
    ensures
        join_record_of(join_row(principal_id, name, handle, origin, joined_at)) == (JoinRecord {
            name: Some(name),
            handle: match handle {
                Some(h) => if storable_speaker_spec(h) {
                    Some(h)
                } else {
                    None
                },
                None => None,
            },
            principal_id: Some(principal_id),
            origin: Some(origin),
            joined_at: Some(joined_at),
        }),
{
    reveal_strlit("name");
    reveal_strlit("handle");
    reveal_strlit("principal_id");
    reveal_strlit("origin");
    reveal_strlit("joined_at");
    assert(COLUMN_NAME@.len() == 4 && COLUMN_HANDLE@.len() == 6 && COLUMN_ORIGIN@.len() == 6);
    assert(COLUMN_PRINCIPAL_ID@.len() == 12 && COLUMN_JOINED_AT@.len() == 9);
    assert(COLUMN_HANDLE@[0] == 'h' && COLUMN_ORIGIN@[0] == 'o');
    let row = join_row(principal_id, name, handle, origin, joined_at);
    assert(text_spec(row, COLUMN_NAME@) == Some(name));
    assert(text_spec(row, COLUMN_ORIGIN@) == Some(origin));
    assert(text_spec(row, COLUMN_JOINED_AT@) == Some(joined_at));
    assert(integer_spec(row, COLUMN_PRINCIPAL_ID@) == Some(principal_id));
}

/// The erasure's clause names every personal column of a join and never
/// its key: each of the four columns is set to NULL and the principal id
/// is not among them.
pub proof fn the_null_clause_names_the_personal_columns_and_no_key()
    ensures
        personal_columns().len() == 4,
        !personal_columns().contains(COLUMN_PRINCIPAL_ID@),
{
    reveal_strlit("name");
    reveal_strlit("handle");
    reveal_strlit("principal_id");
    reveal_strlit("origin");
    reveal_strlit("joined_at");
    assert(COLUMN_NAME@.len() == 4 && COLUMN_HANDLE@.len() == 6 && COLUMN_ORIGIN@.len() == 6);
    assert(COLUMN_PRINCIPAL_ID@.len() == 12 && COLUMN_JOINED_AT@.len() == 9);
    if personal_columns().contains(COLUMN_PRINCIPAL_ID@) {
        let i = choose|i: int| 0 <= i < 4 && personal_columns()[i] == COLUMN_PRINCIPAL_ID@;
        assert(personal_columns()[i].len() != 12);
    }
}

/// A join row once erasure emptied it: every personal column gone, the
/// principal id standing.
pub open spec fn erased_join_row(row: Map<Seq<char>, Stored>) -> Map<Seq<char>, Stored> {
    row.remove(COLUMN_NAME@).remove(COLUMN_HANDLE@).remove(COLUMN_ORIGIN@).remove(COLUMN_JOINED_AT@)
}

/// An erased join keeps its key and projects nothing.
pub proof fn an_erased_join_keeps_its_key_and_projects_nothing(row: Map<Seq<char>, Stored>)
    ensures
        join_record_of(erased_join_row(row)).name is None,
        join_record_of(erased_join_row(row)).handle is None,
        join_record_of(erased_join_row(row)).origin is None,
        join_record_of(erased_join_row(row)).joined_at is None,
        join_line_spec(join_record_of(erased_join_row(row))) is None,
        join_record_of(erased_join_row(row)).principal_id == join_record_of(row).principal_id,
{
    reveal_strlit("name");
    reveal_strlit("handle");
    reveal_strlit("principal_id");
    reveal_strlit("origin");
    reveal_strlit("joined_at");
    assert(COLUMN_NAME@.len() == 4 && COLUMN_HANDLE@.len() == 6 && COLUMN_ORIGIN@.len() == 6);
    assert(COLUMN_PRINCIPAL_ID@.len() == 12 && COLUMN_JOINED_AT@.len() == 9);
    let erased = erased_join_row(row);
    assert(integer_spec(erased, COLUMN_PRINCIPAL_ID@) == integer_spec(row, COLUMN_PRINCIPAL_ID@));
}

/// The update that empties every personal column of a principal's joins.
pub open spec fn erase_principal_joins_spec() -> Seq<char> {
    "UPDATE "@ + JOIN_NOTICE_TABLE@ + " SET "@ + null_clause(personal_columns()) + " WHERE "@
        + COLUMN_PRINCIPAL_ID@ + " = ?1"@
}

/// The update that empties every personal column of a principal's joins,
/// bound to the principal id.
pub fn erase_principal_joins_statement() -> (statement: String)
    ensures
        statement@ == erase_principal_joins_spec(),
{
    let nulls = null_personal_columns();
    let mut statement = concat3("UPDATE ", JOIN_NOTICE_TABLE, " SET ");
    let ghost head = statement@;
    statement.append(nulls.as_str());
    statement.append(" WHERE ");
    statement.append(COLUMN_PRINCIPAL_ID);
    statement.append(" = ?1");
    assert(statement@ =~= head + null_clause(personal_columns()) + " WHERE "@ + COLUMN_PRINCIPAL_ID@
        + " = ?1"@);
    statement
}

/// The update that empties one join event, whole, in one conversation.
pub open spec fn erase_event_named_spec() -> Seq<char> {
    "UPDATE "@ + JOIN_NOTICE_TABLE@ + " SET "@ + null_clause(personal_columns()) + " WHERE "@
        + COLUMN_ORIGIN@
        + " = ?1 AND EXISTS (SELECT 1 FROM conversation_blocks cb WHERE cb.block_id = "@
        + JOIN_NOTICE_TABLE@ + ".block_id AND cb.conversation_id = ?2)"@
}

/// The update that empties one join event — every joiner of it — bound to
/// the event's origin and then the conversation id.
pub fn erase_event_named_statement() -> (statement: String)
    ensures
        statement@ == erase_event_named_spec(),
{
    let nulls = null_personal_columns();
    let mut statement = concat3("UPDATE ", JOIN_NOTICE_TABLE, " SET ");
    let ghost head = statement@;
    statement.append(nulls.as_str());
    statement.append(" WHERE ");
    statement.append(COLUMN_ORIGIN);
    statement.append(" = ?1 AND EXISTS (SELECT 1 FROM conversation_blocks cb WHERE cb.block_id = ");
    statement.append(JOIN_NOTICE_TABLE);
    statement.append(".block_id AND cb.conversation_id = ?2)");
    assert(statement@ =~= head + null_clause(personal_columns()) + " WHERE "@ + COLUMN_ORIGIN@
        + " = ?1 AND EXISTS (SELECT 1 FROM conversation_blocks cb WHERE cb.block_id = "@
        + JOIN_NOTICE_TABLE@ + ".block_id AND cb.conversation_id = ?2)"@);
    statement
}

} // verus!
