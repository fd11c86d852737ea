use assistant_core::abstention::{is_abstention, is_miss, ABSTENTION_SENTINEL, MISS_SENTINEL};

#[test]
fn recognition_is_exact_on_the_trimmed_whole_answer() {
    assert!(is_abstention(ABSTENTION_SENTINEL));
    assert!(is_abstention(&format!("  {ABSTENTION_SENTINEL}\n")));
    assert!(!is_abstention(&format!(
        "I will reply with {ABSTENTION_SENTINEL} when I have nothing to add."
    )));
    assert!(!is_abstention(&format!("{ABSTENTION_SENTINEL} — noted.")));
    assert!(!is_abstention("abstain"));
    assert!(!is_abstention(""));
}

#[test]
fn the_miss_recognition_is_exact_and_the_sentinels_stay_distinct() {
    assert!(is_miss(MISS_SENTINEL));
    assert!(is_miss(&format!("  {MISS_SENTINEL}\n")));
    assert!(!is_miss(&format!("{MISS_SENTINEL} — but here is a guess.")));
    assert!(!is_miss("miss"));
    assert!(!is_miss(""));
    assert_ne!(ABSTENTION_SENTINEL, MISS_SENTINEL);
    assert!(!is_miss(ABSTENTION_SENTINEL));
    assert!(!is_abstention(MISS_SENTINEL));
}

#[test]
fn unicode_white_space_around_a_sentinel_is_tolerated() {
    assert!(is_abstention("\u{3000}[[abstain]]\u{2003}"));
    assert!(is_miss("\t[[miss]]\r\n"));
    assert!(!is_abstention("[[ abstain ]]"));
}
