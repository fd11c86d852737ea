use assistant_core::assembly::SENDING_TOOLS;
use assistant_core::composing::{
    a_send_is_starting, ComposingEdge, ComposingEvent, COMPOSING_SIGNAL_LIFETIME_MS,
};
use assistant_core::message::{ChannelKey, ComposingState, ComposingUpdate};

fn key(channel: &str) -> ChannelKey {
    ChannelKey {
        adapter: "quiet".into(),
        channel: channel.into(),
    }
}

fn begin(conversation_id: i64, channel: &str, now_ms: u64) -> ComposingEvent {
    ComposingEvent::SendStarting {
        conversation_id,
        channel: Some(key(channel)),
        now_ms,
    }
}

fn composing(channel: &str) -> ComposingUpdate {
    ComposingUpdate {
        channel: key(channel),
        state: ComposingState::Composing,
    }
}

fn stopped(channel: &str) -> ComposingUpdate {
    ComposingUpdate {
        channel: key(channel),
        state: ComposingState::Stopped,
    }
}

#[test]
fn a_starting_send_begins_the_cue_and_the_streams_terminal_stops_it() {
    let mut edge = ComposingEdge::new();
    assert_eq!(edge.handle(begin(1, "dm-compose", 0)), vec![composing("dm-compose")]);
    assert!(
        edge.handle(begin(1, "dm-compose", 10)).is_empty(),
        "a second send in one turn repeats no begin"
    );
    assert_eq!(
        edge.handle(ComposingEvent::StreamEnded { conversation_id: 1 }),
        vec![stopped("dm-compose")]
    );
    assert!(!edge.is_open(1));
}

#[test]
fn the_begin_is_a_sending_tool_and_nothing_else() {
    assert!(a_send_is_starting(Some("send_message"), &SENDING_TOOLS));
    assert!(a_send_is_starting(Some("reply_message"), &SENDING_TOOLS));
    assert!(!a_send_is_starting(Some("web_search"), &SENDING_TOOLS));
    assert!(!a_send_is_starting(None, &SENDING_TOOLS));
}

#[test]
fn a_stream_error_stops_the_cue_and_foreign_conversations_yield_nothing() {
    let mut edge = ComposingEdge::new();
    assert_eq!(edge.handle(begin(1, "dm-error", 0)), vec![composing("dm-error")]);
    assert!(
        edge.handle(ComposingEvent::SendStarting {
            conversation_id: 2,
            channel: None,
            now_ms: 0,
        })
        .is_empty(),
        "another adapter's conversation resolves no channel and signals nothing"
    );
    assert!(edge
        .handle(ComposingEvent::StreamEnded { conversation_id: 2 })
        .is_empty());
    assert_eq!(
        edge.handle(ComposingEvent::StreamEnded { conversation_id: 1 }),
        vec![stopped("dm-error")]
    );
}

#[test]
fn a_finished_send_stops_the_cue() {
    let mut edge = ComposingEdge::new();
    edge.handle(begin(5, "dm-sent", 0));
    assert_eq!(
        edge.handle(ComposingEvent::SendDone { conversation_id: 5 }),
        vec![stopped("dm-sent")]
    );
    assert!(
        edge.handle(ComposingEvent::StreamEnded { conversation_id: 5 })
            .is_empty(),
        "the stop was delivered once"
    );
}

#[test]
fn a_second_send_holds_the_cue_until_it_is_done_too() {
    let mut edge = ComposingEdge::new();
    assert_eq!(edge.handle(begin(7, "dm-twice", 0)), vec![composing("dm-twice")]);
    assert!(edge.handle(begin(7, "dm-twice", 5)).is_empty());
    assert!(
        edge.handle(ComposingEvent::SendDone { conversation_id: 7 })
            .is_empty(),
        "the first send's ending leaves the chat busy"
    );
    assert!(edge.is_open(7));
    assert_eq!(
        edge.handle(ComposingEvent::SendDone { conversation_id: 7 }),
        vec![stopped("dm-twice")]
    );
}

#[test]
fn a_lagged_edge_stops_every_open_signal() {
    let mut edge = ComposingEdge::new();
    edge.handle(begin(1, "dm-a", 0));
    edge.handle(begin(2, "dm-b", 0));
    assert_eq!(
        edge.handle(ComposingEvent::Lagged),
        vec![stopped("dm-a"), stopped("dm-b")]
    );
    assert!(!edge.is_open(1) && !edge.is_open(2));
    assert_eq!(edge.earliest_deadline(), None);
}

#[test]
fn a_lost_stop_expires_on_the_edges_own_clock() {
    let mut edge = ComposingEdge::new();
    edge.handle(begin(3, "dm-lost", 1_000));
    assert_eq!(
        edge.earliest_deadline(),
        Some(1_000 + COMPOSING_SIGNAL_LIFETIME_MS)
    );
    assert!(edge
        .handle(ComposingEvent::Tick {
            now_ms: COMPOSING_SIGNAL_LIFETIME_MS
        })
        .is_empty());
    assert_eq!(
        edge.handle(ComposingEvent::Tick {
            now_ms: 1_000 + COMPOSING_SIGNAL_LIFETIME_MS
        }),
        vec![stopped("dm-lost")]
    );
    assert_eq!(
        edge.handle(begin(3, "dm-lost", 400_000)),
        vec![composing("dm-lost")],
        "the cleared entry lets the next begin through"
    );
}

#[test]
fn a_begin_pushes_the_deadline_out() {
    let mut edge = ComposingEdge::new();
    edge.handle(begin(4, "dm-long", 0));
    edge.handle(begin(4, "dm-long", 200_000));
    assert_eq!(
        edge.earliest_deadline(),
        Some(200_000 + COMPOSING_SIGNAL_LIFETIME_MS)
    );
    assert!(edge
        .handle(ComposingEvent::Tick {
            now_ms: COMPOSING_SIGNAL_LIFETIME_MS
        })
        .is_empty());
}

#[test]
fn each_conversations_cue_alternates_composing_first_on_its_channel() {
    let mut edge = ComposingEdge::new();
    let mut seen_one: Vec<ComposingUpdate> = Vec::new();
    let mut seen_two: Vec<ComposingUpdate> = Vec::new();
    let events = vec![
        (1, begin(1, "one", 0)),
        (2, begin(2, "two", 5)),
        (1, begin(1, "one", 10)),
        (1, ComposingEvent::SendDone { conversation_id: 1 }),
        (1, ComposingEvent::SendDone { conversation_id: 1 }),
        (1, ComposingEvent::SendDone { conversation_id: 1 }),
        (1, begin(1, "one", 20)),
        (2, ComposingEvent::StreamEnded { conversation_id: 2 }),
        (2, ComposingEvent::StreamEnded { conversation_id: 2 }),
        (1, ComposingEvent::Tick { now_ms: 20 + COMPOSING_SIGNAL_LIFETIME_MS }),
    ];
    for (conversation, event) in events {
        let updates = edge.handle(event);
        if conversation == 1 {
            seen_one.extend(updates);
        } else {
            seen_two.extend(updates);
        }
    }
    assert_eq!(
        seen_one,
        vec![composing("one"), stopped("one"), composing("one"), stopped("one")]
    );
    assert_eq!(seen_two, vec![composing("two"), stopped("two")]);
    assert!(!edge.is_open(1) && !edge.is_open(2));
}
