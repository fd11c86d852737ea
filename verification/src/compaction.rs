//! When a session is compacted, and what the harness asks the model for
//! when it is.
//!
//! Two policy questions, each a pure function over injected numbers and
//! injected clock readings: whether a conversation needs compacting (two
//! threshold arms over the context window), and when to act on an armed
//! threshold (at a quiet moment, but never knowingly into an expired prompt
//! cache). Spans of time are whole milliseconds.

use vstd::prelude::*;

verus! {

/// What the harness asks the model for, and the whole of it.
pub const COMPACTION_INSTRUCTIONS: &'static str = "You are compacting the conversation above so it can be carried forward in a shorter form. Everything above this message is the first half of a longer conversation; the rest of it continues after your summary.\n\nWrite that summary. Mention the important things: what people asked and what was answered, decisions and conclusions reached, facts established about people, versions, settings and links, corrections made, and anything left open or unfinished. Mention the conversational topics that came up, in the order they came up, so a reader can tell what this conversation has already been about.\n\nWrite plain prose for the assistant that continues this conversation. Do not greet anyone, do not address anyone, do not describe what you are about to do, and do not offer to help. Write the summary and nothing else.";

/// The headroom arm's floor: once the context window has no more than this
/// many tokens left, the conversation is compacted.
pub const HEADROOM_TOKENS: u32 = 50_000;

/// How long a provider's prompt cache is assumed to hold a conversation's
/// prefix after a dispatch, in milliseconds: an estimate of an external
/// fact, erring toward treating a cache as cold.
pub const KV_CACHE_TTL_MS: u64 = 300_000;

/// How long a channel must go without an inbound message to count as
/// quiet, in milliseconds.
pub const QUIET_WINDOW_MS: u64 = 180_000;

/// How far ahead of the cache's edge an armed compaction stops waiting for
/// quiet, in milliseconds.
pub const CACHE_EDGE_MARGIN_MS: u64 = 30_000;

/// How often the driver re-reads the thresholds and the timing, in
/// milliseconds.
pub const CONTEXT_SWEEP_MS: u64 = 30_000;

/// The most conversations the readings are held for; past the cap the
/// whole map is cleared.
pub const READING_CAP: usize = 4096;

/// What the two threshold arms read about one conversation.
#[derive(Debug, Clone, Copy, PartialEq, Eq, Structural)]
pub struct ContextReading {
    /// The model's context window, from the configured binding; absent when
    /// the deployment did not state one.
    pub window_tokens: Option<u32>,
    /// What the conversation's last reported turn occupied of it; absent
    /// when no turn has ever reported usage.
    pub used_tokens: Option<u32>,
    /// How long since this conversation's last dispatch, in milliseconds;
    /// absent when it has never dispatched under this process.
    pub since_dispatch_ms: Option<u64>,
}

/// What the timing rule reads about one conversation.
#[derive(Debug, Clone, Copy, PartialEq, Eq, Structural)]
pub struct TimingReading {
    /// How long since the last inbound message on the channel, in
    /// milliseconds; absent reads as quiet.
    pub since_inbound_ms: Option<u64>,
    /// How long since the last dispatch, in milliseconds; absent reads as a
    /// cache that was never warmed.
    pub since_dispatch_ms: Option<u64>,
}

/// Whether an armed compaction goes now or waits.
#[derive(Debug, Clone, Copy, PartialEq, Eq, Structural)]
pub enum Moment {
    /// Go: the channel is quiet, or the warm cache's edge is close.
    Now,
    /// Wait: the sweep asks again.
    Wait,
}

/// The headroom arm: no more than the headroom is left of the window,
/// where a turn that overran the window leaves nothing.
pub open spec fn headroom_arm(window: int, used: int) -> bool {
    (if used >= window { 0 } else { window - used }) <= HEADROOM_TOKENS
}

/// The cold-cache arm: the cache has expired and strictly more than half
/// the window is in use.
pub open spec fn cold_cache_arm(window: int, used: int, since_dispatch: Option<u64>, cache_ttl: int) -> bool {
    &&& since_dispatch matches Some(since) && since >= cache_ttl
    &&& used * 2 > window
}

/// Whether either threshold arm holds; with the window or the usage
/// unknown, neither fires.
pub open spec fn threshold_armed_spec(reading: ContextReading, cache_ttl: int) -> bool {
    match (reading.window_tokens, reading.used_tokens) {
        (Some(window), Some(used)) => headroom_arm(window as int, used as int) || cold_cache_arm(
            window as int,
            used as int,
            reading.since_dispatch_ms,
            cache_ttl,
        ),
        _ => false,
    }
}

/// Whether either threshold arm holds for one conversation's reading.
pub fn threshold_armed(reading: ContextReading, cache_ttl_ms: u64) -> (armed: bool)
    ensures
        armed == threshold_armed_spec(reading, cache_ttl_ms as int),
{
    let (window, used) = match (reading.window_tokens, reading.used_tokens) {
        (Some(window), Some(used)) => (window as u64, used as u64),
        _ => return false,
    };
    if window.saturating_sub(used) <= HEADROOM_TOKENS as u64 {
        return true;
    }
    let expired = match reading.since_dispatch_ms {
        Some(since) => since >= cache_ttl_ms,
        None => false,
    };
    expired && used * 2 > window
}

/// Whether the channel is quiet: nothing inbound for the quiet window, or
/// nothing inbound ever.
pub open spec fn quiet_spec(reading: TimingReading) -> bool {
    match reading.since_inbound_ms {
        Some(since) => since >= QUIET_WINDOW_MS,
        None => true,
    }
}

/// When an armed compaction acts: a quiet channel goes now; a busy channel
/// over a warm cache goes once the cache's edge is within the margin; a
/// busy channel over an expired or never-warmed cache waits for quiet.
pub open spec fn moment_spec(reading: TimingReading, cache_ttl: int) -> Moment {
    if quiet_spec(reading) {
        Moment::Now
    } else {
        match reading.since_dispatch_ms {
            Some(since) => if since < cache_ttl {
                if since >= (if cache_ttl >= CACHE_EDGE_MARGIN_MS {
                    cache_ttl - CACHE_EDGE_MARGIN_MS
                } else {
                    0
                }) {
                    Moment::Now
                } else {
                    Moment::Wait
                }
            } else {
                Moment::Wait
            },
            None => Moment::Wait,
        }
    }
}

/// When an armed compaction acts, by one rule whichever arm armed it,
/// reading the current cache state.
pub fn moment(reading: TimingReading, cache_ttl_ms: u64) -> (decided: Moment)
    ensures
        decided == moment_spec(reading, cache_ttl_ms as int),
{
    let quiet = match reading.since_inbound_ms {
        Some(since) => since >= QUIET_WINDOW_MS,
        None => true,
    };
    if quiet {
        return Moment::Now;
    }
    match reading.since_dispatch_ms {
        Some(since) => {
            if since < cache_ttl_ms {
                if since >= cache_ttl_ms.saturating_sub(CACHE_EDGE_MARGIN_MS) {
                    Moment::Now
                } else {
                    Moment::Wait
                }
            } else {
                Moment::Wait
            }
        },
        None => Moment::Wait,
    }
}

/// The trigger never fires blind: with the window size or the reported
/// usage unknown, neither arm holds, whatever the cache is doing.
pub proof fn an_unknown_window_or_usage_arms_nothing(reading: ContextReading, cache_ttl: int)
    requires
        reading.window_tokens is None || reading.used_tokens is None,
    ensures
        !threshold_armed_spec(reading, cache_ttl),
{
}

/// A conversation at the wall is compacted whatever the cache is doing:
/// with no more than the headroom left, the trigger holds.
pub proof fn the_headroom_arm_ignores_the_cache(
    window: u32,
    used: u32,
    since_dispatch_ms: Option<u64>,
    cache_ttl: int,
)
    requires
        used >= window || window - used <= HEADROOM_TOKENS,
    ensures
        threshold_armed_spec(
            ContextReading {
                window_tokens: Some(window),
                used_tokens: Some(used),
                since_dispatch_ms,
            },
            cache_ttl,
        ),
{
}

/// Quiet is always the moment, whatever the cache is doing.
pub proof fn a_quiet_channel_is_always_the_moment(reading: TimingReading, cache_ttl: int)
    requires
        quiet_spec(reading),
    ensures
        moment_spec(reading, cache_ttl) == Moment::Now,
{
}

/// An armed compaction never knowingly dispatches into an expired cache
/// while the channel is busy: a busy channel goes only over a warm cache.
pub proof fn a_busy_channel_never_goes_into_a_cold_cache(reading: TimingReading, cache_ttl: int)
    requires
        !quiet_spec(reading),
        moment_spec(reading, cache_ttl) == Moment::Now,
    ensures
        reading.since_dispatch_ms matches Some(since) && since < cache_ttl,
{
}

/// Whether an armed compaction goes now: a threshold arm holds under the
/// cache-lifetime estimate, and the timing rule says this is the moment.
pub fn due(reading: ContextReading, timing: TimingReading) -> (go: bool)
    ensures
        go == (threshold_armed_spec(reading, KV_CACHE_TTL_MS as int) && moment_spec(
            timing,
            KV_CACHE_TTL_MS as int,
        ) == Moment::Now),
{
    threshold_armed(reading, KV_CACHE_TTL_MS) && match moment(timing, KV_CACHE_TTL_MS) {
        Moment::Now => true,
        Moment::Wait => false,
    }
}

/// Whether the thresholds are readable at all: with no configured window
/// size both arms are permanently silent, and nothing sweeps for them.
pub fn sweeps(window_tokens: Option<u32>) -> (sweeps: bool)
    ensures
        sweeps == window_tokens is Some,
{
    window_tokens.is_some()
}

/// When a conversation last took an inbound message, if its entry is held.
pub open spec fn last_inbound(entries: Seq<(i64, u64)>, conversation_id: i64) -> Option<u64> {
    if exists|i: int| 0 <= i < entries.len() && entries[i].0 == conversation_id {
        Some(entries[choose|i: int| 0 <= i < entries.len() && entries[i].0 == conversation_id].1)
    } else {
        None
    }
}

/// One entry per conversation.
pub open spec fn keys_unique(entries: Seq<(i64, u64)>) -> bool {
    forall|i: int, j: int|
        0 <= i < entries.len() && 0 <= j < entries.len() && i != j ==> #[trigger] entries[i].0
            != #[trigger] entries[j].0
}

proof fn lemma_last_inbound_frame(a: Seq<(i64, u64)>, b: Seq<(i64, u64)>, c: i64)
    requires
        keys_unique(a),
        keys_unique(b),
        forall|i: int| 0 <= i < b.len() && b[i].0 == c ==> i < a.len() && a[i] == b[i],
        forall|i: int| 0 <= i < a.len() && a[i].0 == c ==> i < b.len() && b[i] == a[i],
    ensures
        last_inbound(a, c) == last_inbound(b, c),
{
    if exists|i: int| 0 <= i < a.len() && a[i].0 == c {
        let i = choose|i: int| 0 <= i < a.len() && a[i].0 == c;
        lemma_last_inbound_at(a, i);
        lemma_last_inbound_at(b, i);
    } else if exists|i: int| 0 <= i < b.len() && b[i].0 == c {
        let i = choose|i: int| 0 <= i < b.len() && b[i].0 == c;
        assert(a[i].0 == c);
    }
}

fn position_of(entries: &Vec<(i64, u64)>, conversation_id: i64) -> (index: Option<usize>)
    ensures
        index matches Some(i) ==> i < entries@.len() && entries@[i as int].0 == conversation_id,
        index is None ==> forall|i: int| 0 <= i < entries@.len() ==> entries@[i].0 != conversation_id,
{
    let mut i: usize = 0;
    while i < entries.len()
        invariant
            i <= entries@.len(),
            forall|j: int| 0 <= j < i ==> entries@[j].0 != conversation_id,
        decreases entries@.len() - i,
    {
        if entries[i].0 == conversation_id {
            return Some(i);
        }
        i = i + 1;
    }
    None
}

proof fn lemma_last_inbound_at(entries: Seq<(i64, u64)>, i: int)
    requires
        keys_unique(entries),
        0 <= i < entries.len(),
    ensures
        last_inbound(entries, entries[i].0) == Some(entries[i].1),
{
    let c = entries[i].0;
    let k = choose|k: int| 0 <= k < entries.len() && entries[k].0 == c;
    assert(entries[k].0 == entries[i].0);
}

/// When each conversation last took an inbound message, on the process's
/// clock in milliseconds: in memory, since the quiet window is about live
/// traffic, and cleared whole past the cap.
#[derive(Debug)]
pub struct InboundActivity {
    entries: Vec<(i64, u64)>,
}

impl InboundActivity {
    /// The held entries.
    pub closed spec fn view(&self) -> Seq<(i64, u64)> {
        self.entries@
    }

    /// One entry per conversation, never more than the cap.
    #[verifier::type_invariant]
    closed spec fn wf(&self) -> bool {
        keys_unique(self.entries@) && self.entries@.len() <= READING_CAP
    }

    /// A memory holding nothing.
    pub fn new() -> (activity: InboundActivity)
        ensures
            forall|c: i64| last_inbound(activity.view(), c) is None,
    {
        InboundActivity { entries: Vec::new() }
    }

    /// Record an inbound message on a conversation at `now_ms`, clearing
    /// the whole memory first when it reached its cap.
    pub fn record(&mut self, conversation_id: i64, now_ms: u64)
        ensures
            last_inbound(final(self).view(), conversation_id) == Some(now_ms),
            forall|c: i64|
                c != conversation_id ==> #[trigger] last_inbound(final(self).view(), c) == if old(
                    self,
                ).view().len() >= READING_CAP {
                    None
                } else {
                    last_inbound(old(self).view(), c)
                },
    {
        proof {
            use_type_invariant(&*self);
        }
        let ghost before = self.entries@;
        let mut entries: Vec<(i64, u64)> = Vec::new();
        std::mem::swap(&mut entries, &mut self.entries);
        if entries.len() >= READING_CAP {
            entries = Vec::new();
        }
        let ghost kept = entries@;
        proof {
            if before.len() >= READING_CAP {
                assert forall|c: i64| last_inbound(kept, c) is None by {
                    assert(kept.len() == 0);
                }
            }
        }
        let ghost mut at: int = 0;
        match position_of(&entries, conversation_id) {
            Some(i) => {
                entries.set(i, (conversation_id, now_ms));
                proof {
                    at = i as int;
                }
            },
            None => {
                entries.push((conversation_id, now_ms));
                proof {
                    at = kept.len() as int;
                }
            },
        }
        proof {
            let after = entries@;
            assert(after[at] == (conversation_id, now_ms));
            assert(keys_unique(after)) by {
                assert forall|a: int, b: int|
                    0 <= a < after.len() && 0 <= b < after.len() && a != b implies #[trigger] after[a].0
                    != #[trigger] after[b].0 by {
                    if a < kept.len() && b < kept.len() {
                        if after[a] != kept[a] {
                            assert(kept[b].0 != conversation_id || after[b] != kept[b]);
                        }
                    }
                }
            }
            lemma_last_inbound_at(after, at);
            assert forall|c: i64| c != conversation_id implies #[trigger] last_inbound(after, c)
                == last_inbound(kept, c) by {
                lemma_last_inbound_frame(kept, after, c);
            }
        }
        self.entries = entries;
    }

    /// Forget a conversation's entry.
    pub fn forget(&mut self, conversation_id: i64)
        ensures
            last_inbound(final(self).view(), conversation_id) is None,
            forall|c: i64|
                c != conversation_id ==> #[trigger] last_inbound(final(self).view(), c) == last_inbound(
                    old(self).view(),
                    c,
                ),
    {
        proof {
            use_type_invariant(&*self);
        }
        let ghost before = self.entries@;
        let mut entries: Vec<(i64, u64)> = Vec::new();
        std::mem::swap(&mut entries, &mut self.entries);
        match position_of(&entries, conversation_id) {
            Some(i) => {
                entries.remove(i);
                proof {
                    let after = entries@;
                    assert forall|k: int| 0 <= k < after.len() implies after[k] == before[if k < i {
                        k
                    } else {
                        k + 1
                    }] by {}
                    assert(keys_unique(after)) by {
                        assert forall|a: int, b: int|
                            0 <= a < after.len() && 0 <= b < after.len() && a != b implies #[trigger] after[a].0
                            != #[trigger] after[b].0 by {
                            let a2 = if a < i { a } else { a + 1 };
                            let b2 = if b < i { b } else { b + 1 };
                            assert(after[a] == before[a2] && after[b] == before[b2]);
                        }
                    }
                    assert forall|k: int| 0 <= k < after.len() implies after[k].0 != conversation_id by {
                        let k2 = if k < i { k } else { k + 1 };
                        assert(after[k] == before[k2]);
                    }
                    assert forall|c: i64| c != conversation_id implies #[trigger] last_inbound(after, c)
                        == last_inbound(before, c) by {
                        if exists|k: int| 0 <= k < before.len() && before[k].0 == c {
                            let k = choose|k: int| 0 <= k < before.len() && before[k].0 == c;
                            lemma_last_inbound_at(before, k);
                            let k3 = if k < i { k } else { k - 1 };
                            assert(after[k3] == before[k]);
                            lemma_last_inbound_at(after, k3);
                        } else if exists|k: int| 0 <= k < after.len() && after[k].0 == c {
                            let k = choose|k: int| 0 <= k < after.len() && after[k].0 == c;
                            let k2 = if k < i { k } else { k + 1 };
                            assert(after[k] == before[k2]);
                        }
                    }
                }
            },
            None => {},
        }
        self.entries = entries;
    }

    /// How long since a conversation's last inbound message, if its entry
    /// is held; a clock that reads earlier than the entry reads as no time
    /// at all.
    pub fn since(&self, conversation_id: i64, now_ms: u64) -> (since: Option<u64>)
        ensures
            since == match last_inbound(self.view(), conversation_id) {
                Some(at) => Some(if now_ms >= at {
                    (now_ms - at) as u64
                } else {
                    0
                }),
                None => None,
            },
    {
        proof {
            use_type_invariant(&*self);
        }
        match position_of(&self.entries, conversation_id) {
            Some(i) => {
                proof {
                    lemma_last_inbound_at(self.entries@, i as int);
                }
                Some(now_ms.saturating_sub(self.entries[i].1))
            },
            None => None,
        }
    }
}

} // verus!
