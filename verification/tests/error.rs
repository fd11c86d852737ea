use assistant_core::error::{CoreError, FailureKind, FatalSignal, StoreFailure};
use assistant_core::message::ChannelKind;

#[test]
fn the_kind_mismatch_is_the_one_terminal_refusal() {
    let refusal = CoreError::ChannelKindMismatch {
        stored: ChannelKind::Direct,
        claimed: ChannelKind::Group,
    };
    assert_eq!(refusal.failure_kind(), FailureKind::Terminal);
}

#[test]
fn the_stores_classes_split_the_message_from_the_process() {
    let scripted = || "scripted".to_owned();
    for (error, expected) in [
        (CoreError::Store(StoreFailure::Rejected(scripted())), FailureKind::Fatal),
        (CoreError::Store(StoreFailure::Contended(scripted())), FailureKind::Transient),
        (CoreError::Store(StoreFailure::Sqlite(scripted())), FailureKind::Transient),
        (CoreError::Store(StoreFailure::Unusable(scripted())), FailureKind::Fatal),
        (CoreError::Store(StoreFailure::ActorStopped), FailureKind::Fatal),
    ] {
        assert_eq!(error.failure_kind(), expected, "`{error:?}` is misjudged");
    }
}

#[test]
fn every_other_variant_stays_transient() {
    let errors = [
        CoreError::UnknownVendor {
            vendor: "unregistered".into(),
        },
        CoreError::MissingContentTable {
            table: "absent".into(),
        },
        CoreError::AuthorityUnresolved,
        CoreError::ClaimLost,
        CoreError::StreamUnsettled { conversation_id: 1 },
        CoreError::CompactionUnsummarized { conversation_id: 1 },
        CoreError::Store(StoreFailure::Other("a stranger value".into())),
    ];
    for error in errors {
        assert_eq!(
            error.failure_kind(),
            FailureKind::Transient,
            "`{error:?}` must classify transient"
        );
    }
}

#[test]
fn the_fatal_exit_answers_a_wait_that_starts_after_the_raise() {
    let mut signal = FatalSignal::new();
    assert!(!signal.is_raised());
    assert!(signal.raise(), "the first raise is the one that wakes the waiters");
    assert!(signal.is_raised(), "a wait that starts after the raise sees it standing");
    assert!(!signal.raise(), "a second raise changes nothing");
    assert!(signal.is_raised());
}
