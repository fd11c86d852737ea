use assistant_core::block::{Block, Role};
use assistant_core::fields::Fields;
use assistant_core::join::{
    null_personal_columns, JoinNotice, RecordedJoiner, COLUMN_PRINCIPAL_ID, JOIN_NOTICE_KIND,
    PERSONAL_COLUMNS,
};

fn join_block(fields: Fields) -> Block {
    Block {
        id: 1,
        role: None,
        block_type: JOIN_NOTICE_KIND.into(),
        created_at: String::new(),
        dispatch_anchor: None,
        fields,
    }
}

fn notice(name: &str, handle: Option<&str>) -> JoinNotice {
    JoinNotice::parse(&join_block(JoinNotice::stored_fields(
        RecordedJoiner {
            principal_id: 9,
            name,
            handle,
        },
        "origin-join-1",
        "2026-08-29T00:00:00Z",
    )))
}

#[test]
fn the_stored_fields_round_trip_through_the_parse() {
    let join = notice("Ada Lovelace", Some("ada"));
    assert_eq!(join.name.as_deref(), Some("Ada Lovelace"));
    assert_eq!(join.handle.as_deref(), Some("ada"));
    assert_eq!(join.principal_id, Some(9));
    assert_eq!(join.origin.as_deref(), Some("origin-join-1"));
    assert_eq!(join.joined_at.as_deref(), Some("2026-08-29T00:00:00Z"));
}

#[test]
fn the_line_marks_the_event_and_falls_back_from_name_to_handle() {
    assert_eq!(
        notice("Ada Lovelace", Some("ada")).line().as_deref(),
        Some(
            "---\nfrom: @ada\ndate: 2026-08-29T00:00:00Z\nmsgid: origin-join-1\n---\n\
             A member joined the group: Ada Lovelace (@ada)"
        )
    );
    assert_eq!(
        notice("Ada Lovelace", None).line().as_deref(),
        Some(
            "---\ndate: 2026-08-29T00:00:00Z\nmsgid: origin-join-1\n---\n\
             A member joined the group: Ada Lovelace"
        ),
        "a joiner with no stored handle declares no author"
    );
    assert_eq!(
        notice("", Some("ada")).line().as_deref(),
        Some(
            "---\nfrom: @ada\ndate: 2026-08-29T00:00:00Z\nmsgid: origin-join-1\n---\n\
             A member joined the group: @ada"
        ),
        "an absent name falls back to the handle"
    );
    assert_eq!(
        notice("", None).line().as_deref(),
        Some(
            "---\ndate: 2026-08-29T00:00:00Z\nmsgid: origin-join-1\n---\n\
             A member joined the group."
        ),
        "neither name nor handle invents no identifier"
    );
}

#[test]
fn an_unstorable_handle_stores_nothing() {
    let join = notice("Ada", Some("two words"));
    assert_eq!(join.handle, None);
    assert_eq!(
        join.line().as_deref(),
        Some(
            "---\ndate: 2026-08-29T00:00:00Z\nmsgid: origin-join-1\n---\n\
             A member joined the group: Ada"
        )
    );
}

#[test]
fn a_join_is_system_voiced() {
    assert_eq!(notice("Ada", Some("ada")).group_role(), Some(Role::System));
}

#[test]
fn the_null_list_names_every_personal_column_and_no_key() {
    let clause = null_personal_columns();
    assert_eq!(
        PERSONAL_COLUMNS.len(),
        4,
        "the public policy counts the four things a deletion removes from a join record"
    );
    for column in PERSONAL_COLUMNS {
        assert!(
            clause.contains(&format!("{column} = NULL")),
            "the erasure passes empty {column}"
        );
    }
    assert!(
        !clause.contains(COLUMN_PRINCIPAL_ID),
        "the principal id is the key, not personal content: {clause}"
    );
    assert_eq!(clause, "name = NULL, handle = NULL, origin = NULL, joined_at = NULL");
}

#[test]
fn an_erased_join_projects_nothing() {
    let erased = JoinNotice::parse(&join_block(Fields::new()));
    assert_eq!(erased.group_role(), None);
    assert_eq!(erased.line(), None);
}
