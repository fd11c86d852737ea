use assistant_core::compaction::{
    moment, threshold_armed, ContextReading, Moment, TimingReading, CACHE_EDGE_MARGIN_MS,
    COMPACTION_INSTRUCTIONS, CONTEXT_SWEEP_MS, HEADROOM_TOKENS, KV_CACHE_TTL_MS, QUIET_WINDOW_MS,
};
use assistant_core::compaction::{due, sweeps};
use assistant_core::compaction::{InboundActivity, READING_CAP};

const TTL: u64 = 300_000;

fn window(tokens: u32) -> Option<u32> {
    Some(tokens)
}

fn reading(window_tokens: Option<u32>, used_tokens: Option<u32>, since_dispatch_ms: Option<u64>) -> ContextReading {
    ContextReading {
        window_tokens,
        used_tokens,
        since_dispatch_ms,
    }
}

fn at_the_edge() -> u64 {
    TTL.checked_sub(CACHE_EDGE_MARGIN_MS)
        .expect("the margin sits inside the lifetime it guards")
}

fn timing(since_inbound_ms: Option<u64>, since_dispatch_ms: Option<u64>) -> TimingReading {
    TimingReading {
        since_inbound_ms,
        since_dispatch_ms,
    }
}

#[test]
fn the_headroom_arm_fires_once_only_the_stated_headroom_is_left() {
    let size = window(200_000);
    assert!(!threshold_armed(
        reading(size, Some(200_000 - HEADROOM_TOKENS - 1), None),
        TTL
    ));
    assert!(threshold_armed(
        reading(size, Some(200_000 - HEADROOM_TOKENS), None),
        TTL
    ));
    assert!(threshold_armed(
        reading(size, Some(200_000 - HEADROOM_TOKENS), Some(0)),
        TTL
    ));
    assert!(
        threshold_armed(reading(size, Some(500_000), None), TTL),
        "a turn that overran the configured window leaves nothing, not a negative amount"
    );
}

#[test]
fn the_cache_arm_needs_an_expired_cache_and_more_than_half_the_window() {
    let size = window(200_000);
    let half = 100_000;
    assert!(
        !threshold_armed(reading(size, Some(half + 1), TTL.checked_sub(1_000)), TTL),
        "a warm cache does not fire the second arm"
    );
    assert!(
        !threshold_armed(reading(size, Some(half), Some(TTL)), TTL),
        "exactly half the window is not MORE than half"
    );
    assert!(threshold_armed(reading(size, Some(half + 1), Some(TTL)), TTL));
}

#[test]
fn an_unknown_window_or_an_unreported_usage_arms_nothing() {
    assert!(!threshold_armed(reading(None, Some(1_000_000), Some(TTL)), TTL));
    assert!(!threshold_armed(reading(window(200_000), None, Some(TTL)), TTL));
    assert!(!threshold_armed(reading(None, None, None), TTL));
}

#[test]
fn a_quiet_channel_is_always_the_moment() {
    assert_eq!(moment(timing(Some(QUIET_WINDOW_MS), None), TTL), Moment::Now);
    assert_eq!(moment(timing(Some(QUIET_WINDOW_MS), Some(0)), TTL), Moment::Now);
    assert_eq!(moment(timing(None, None), TTL), Moment::Now);
}

#[test]
fn a_busy_channel_goes_just_before_the_warm_caches_edge() {
    let busy = Some(0);
    assert_eq!(moment(timing(busy, Some(10_000)), TTL), Moment::Wait);
    assert_eq!(
        moment(timing(busy, at_the_edge().checked_sub(1_000)), TTL),
        Moment::Wait
    );
    assert_eq!(
        moment(timing(busy, Some(at_the_edge())), TTL),
        Moment::Now,
        "at the margin ahead of the edge the compaction stops waiting for quiet"
    );
}

#[test]
fn a_busy_channel_over_an_expired_cache_waits_for_quiet() {
    let busy = Some(0);
    assert_eq!(moment(timing(busy, Some(TTL)), TTL), Moment::Wait);
    assert_eq!(
        moment(timing(busy, Some(TTL * 10)), TTL),
        Moment::Wait,
        "long expired is still expired; nothing re-warmed it"
    );
    assert_eq!(
        moment(timing(busy, None), TTL),
        Moment::Wait,
        "never dispatched is a cache that was never warmed"
    );
    assert_eq!(
        moment(timing(busy, Some(at_the_edge())), TTL),
        Moment::Now,
        "one dispatch re-warms it and the edge rule governs again"
    );
}

#[test]
fn the_compaction_instructions_are_pinned_verbatim() {
    assert_eq!(
        COMPACTION_INSTRUCTIONS,
        "You are compacting the conversation above so it can be carried forward in a \
         shorter form. Everything above this message is the first half of a longer \
         conversation; the rest of it continues after your summary.\n\
         \n\
         Write that summary. Mention the important things: what people asked and what \
         was answered, decisions and conclusions reached, facts established about \
         people, versions, settings and links, corrections made, and anything left \
         open or unfinished. Mention the conversational topics that came up, in the \
         order they came up, so a reader can tell what this conversation has already \
         been about.\n\
         \n\
         Write plain prose for the assistant that continues this conversation. Do not \
         greet anyone, do not address anyone, do not describe what you are about to \
         do, and do not offer to help. Write the summary and nothing else."
    );
}

#[test]
fn the_policy_numbers_are_the_stated_ones() {
    assert_eq!(HEADROOM_TOKENS, 50_000);
    assert_eq!(KV_CACHE_TTL_MS, 5 * 60 * 1_000);
    assert_eq!(QUIET_WINDOW_MS, 3 * 60 * 1_000);
    assert_eq!(CACHE_EDGE_MARGIN_MS, 30 * 1_000);
    assert_eq!(CONTEXT_SWEEP_MS, 30 * 1_000);
    assert!(
        CACHE_EDGE_MARGIN_MS < KV_CACHE_TTL_MS,
        "the margin sits inside the lifetime it guards"
    );
}

#[test]
fn a_margin_wider_than_the_lifetime_goes_at_once_over_a_warm_cache() {
    assert_eq!(moment(timing(Some(0), Some(0)), 10_000), Moment::Now);
    assert_eq!(moment(timing(Some(0), Some(10_000)), 10_000), Moment::Wait);
}

#[test]
fn a_compaction_is_due_when_armed_at_the_moment() {
    let armed = reading(window(200_000), Some(160_000), None);
    assert!(due(armed, timing(None, None)));
    assert!(!due(armed, timing(Some(0), Some(10_000))));
    assert!(!due(reading(window(200_000), Some(1_000), None), timing(None, None)));
    assert!(sweeps(window(1)));
    assert!(!sweeps(None));
}

#[test]
fn the_inbound_memory_measures_quiet_and_clears_at_its_cap() {
    let mut activity = InboundActivity::new();
    assert_eq!(activity.since(1, 5_000), None);
    activity.record(1, 1_000);
    assert_eq!(activity.since(1, 5_000), Some(4_000));
    assert_eq!(activity.since(1, 500), Some(0), "a clock read earlier than the entry reads no time");
    activity.record(1, 4_000);
    assert_eq!(activity.since(1, 5_000), Some(1_000));
    activity.forget(1);
    assert_eq!(activity.since(1, 5_000), None);
    for id in 0..READING_CAP as i64 {
        activity.record(id, 10);
    }
    assert_eq!(activity.since(0, 20), Some(10));
    activity.record(-1, 30);
    assert_eq!(activity.since(0, 40), None, "past the cap the memory starts over");
    assert_eq!(activity.since(-1, 40), Some(10));
}
