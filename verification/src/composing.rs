//! The composing edge's decisions: which conversations show the assistant
//! composing, and which transitions one event yields.
//!
//! The cue lights when a sending tool starts, counts every send a turn
//! starts, holds while any of them is unfinished, and stops when the last
//! of them is done, when the turn's stream ends, when a carrier lagged
//! (every open signal stops), or when its lifetime runs out on the edge's
//! own clock. The loop that reads the carriers and delivers the transitions
//! runs outside; every decision it takes is [`ComposingEdge::handle`].

use vstd::prelude::*;

use crate::kind::{is_named, names_kind};
use crate::message::{ChannelKey, ComposingState, ComposingUpdate};

verus! {

/// The longest one composing signal may hold open, in milliseconds: a
/// signal still open at its deadline stops whatever its count says.
pub const COMPOSING_SIGNAL_LIFETIME_MS: u64 = 300_000;

/// A channel key as a pair of texts: the adapter, then the channel.
pub open spec fn channel_view(channel: &ChannelKey) -> (Seq<char>, Seq<char>) {
    (channel.adapter@, channel.channel@)
}

/// A copy of a channel key, text for text.
pub fn copy_channel(channel: &ChannelKey) -> (copy: ChannelKey)
    ensures
        channel_view(&copy) == channel_view(channel),
{
    ChannelKey { adapter: channel.adapter.clone(), channel: channel.channel.clone() }
}

/// Whether one call-start status names a tool that is about to put a
/// message in the chat: the subtitle carries the called tool's name, and
/// the sending tools are named by the caller.
pub fn a_send_is_starting(subtitle: Option<&str>, sending_tools: &[&str]) -> (starting: bool)
    ensures
        starting == (subtitle matches Some(name) && names_kind(sending_tools@, name@)),
{
    match subtitle {
        Some(name) => is_named(sending_tools, name),
        None => false,
    }
}

/// One open composing signal.
#[derive(Debug)]
pub struct OpenSignal {
    /// The conversation the signal is about.
    pub conversation_id: i64,
    /// The channel resolved at the first begin, reused for the stop.
    pub channel: ChannelKey,
    /// The sends that began and have not reported an ending.
    pub unfinished: u64,
    /// When the signal stops unasked, in milliseconds on the edge's clock.
    pub expires_at_ms: u64,
}

/// One open signal as a mathematical value.
pub struct SignalView {
    /// The conversation the signal is about.
    pub conversation_id: i64,
    /// The channel the signal goes to.
    pub channel: (Seq<char>, Seq<char>),
    /// The sends that began and have not ended.
    pub unfinished: nat,
    /// When the signal stops unasked.
    pub expires_at_ms: u64,
}

/// One delivered transition as a mathematical value.
pub struct UpdateView {
    /// The channel the transition is about.
    pub channel: (Seq<char>, Seq<char>),
    /// The new state.
    pub state: ComposingState,
}

impl OpenSignal {
    /// The signal as a mathematical value.
    pub open spec fn view(&self) -> SignalView {
        SignalView {
            conversation_id: self.conversation_id,
            channel: channel_view(&self.channel),
            unfinished: self.unfinished as nat,
            expires_at_ms: self.expires_at_ms,
        }
    }
}

/// The signals of a list, as mathematical values.
pub open spec fn signal_views(signals: Seq<OpenSignal>) -> Seq<SignalView> {
    signals.map_values(|s: OpenSignal| s.view())
}

/// A transition as a mathematical value.
pub open spec fn update_view(update: ComposingUpdate) -> UpdateView {
    UpdateView { channel: channel_view(&update.channel), state: update.state }
}

/// The transitions of a list, as mathematical values.
pub open spec fn updates_view(updates: Seq<ComposingUpdate>) -> Seq<UpdateView> {
    updates.map_values(|u: ComposingUpdate| update_view(u))
}

/// The stop transition a signal yields.
pub open spec fn stopped(signal: SignalView) -> UpdateView {
    UpdateView { channel: signal.channel, state: ComposingState::Stopped }
}

/// What one event on the edge is.
#[derive(Debug)]
pub enum ComposingEvent {
    /// A sending tool started in a conversation; `channel` is the
    /// conversation's channel when it is this adapter's, resolved by the
    /// caller.
    SendStarting { conversation_id: i64, channel: Option<ChannelKey>, now_ms: u64 },
    /// One of a conversation's sends is done, whichever way it ended.
    SendDone { conversation_id: i64 },
    /// A conversation's stream reached its terminal: done, error or close.
    StreamEnded { conversation_id: i64 },
    /// A carrier dropped events.
    Lagged,
    /// The edge's clock reached a deadline.
    Tick { now_ms: u64 },
}

/// Whether signal `i` is the given conversation's.
pub open spec fn open_at(signals: Seq<SignalView>, conversation_id: i64, i: int) -> bool {
    0 <= i < signals.len() && signals[i].conversation_id == conversation_id
}

/// Whether the conversation has an open signal.
pub open spec fn is_open(signals: Seq<SignalView>, conversation_id: i64) -> bool {
    exists|i: int| open_at(signals, conversation_id, i)
}

/// Where the conversation's open signal stands.
pub open spec fn position(signals: Seq<SignalView>, conversation_id: i64) -> int {
    choose|i: int| open_at(signals, conversation_id, i)
}

/// The edge's invariant: one signal per conversation, each counting at
/// least one unfinished send.
pub open spec fn signals_wf(signals: Seq<SignalView>) -> bool {
    &&& forall|i: int, j: int|
        0 <= i < signals.len() && 0 <= j < signals.len() && i != j
            ==> #[trigger] signals[i].conversation_id != #[trigger] signals[j].conversation_id
    &&& forall|i: int| 0 <= i < signals.len() ==> #[trigger] signals[i].unfinished >= 1
}

/// A begin: an open signal counts one more send (the count saturates at
/// the largest it can hold) and pushes its deadline
/// out; a conversation with none opens one on its channel and yields the
/// composing transition; an unresolved channel yields nothing.
pub open spec fn after_begin(
    signals: Seq<SignalView>,
    conversation_id: i64,
    channel: Option<(Seq<char>, Seq<char>)>,
    now_ms: u64,
) -> (Seq<SignalView>, Seq<UpdateView>) {
    if is_open(signals, conversation_id) {
        let i = position(signals, conversation_id);
        (
            signals.update(
                i,
                SignalView {
                    conversation_id,
                    channel: signals[i].channel,
                    unfinished: if signals[i].unfinished < u64::MAX {
                        signals[i].unfinished + 1
                    } else {
                        signals[i].unfinished
                    },
                    expires_at_ms: (now_ms + COMPOSING_SIGNAL_LIFETIME_MS) as u64,
                },
            ),
            Seq::empty(),
        )
    } else {
        match channel {
            Some(c) => (
                signals.push(
                    SignalView {
                        conversation_id,
                        channel: c,
                        unfinished: 1,
                        expires_at_ms: (now_ms + COMPOSING_SIGNAL_LIFETIME_MS) as u64,
                    },
                ),
                seq![UpdateView { channel: c, state: ComposingState::Composing }],
            ),
            None => (signals, Seq::empty()),
        }
    }
}

/// A send done: the signal counts one fewer, and stops when none is left;
/// a conversation with nothing open is left as it was.
pub open spec fn after_send_done(signals: Seq<SignalView>, conversation_id: i64) -> (
    Seq<SignalView>,
    Seq<UpdateView>,
) {
    if is_open(signals, conversation_id) {
        let i = position(signals, conversation_id);
        if signals[i].unfinished <= 1 {
            (signals.remove(i), seq![stopped(signals[i])])
        } else {
            (
                signals.update(
                    i,
                    SignalView {
                        conversation_id,
                        channel: signals[i].channel,
                        unfinished: (signals[i].unfinished - 1) as nat,
                        expires_at_ms: signals[i].expires_at_ms,
                    },
                ),
                Seq::empty(),
            )
        }
    } else {
        (signals, Seq::empty())
    }
}

/// A stream's terminal: the whole signal stops, unfinished sends and all.
pub open spec fn after_stream_ended(signals: Seq<SignalView>, conversation_id: i64) -> (
    Seq<SignalView>,
    Seq<UpdateView>,
) {
    if is_open(signals, conversation_id) {
        let i = position(signals, conversation_id);
        (signals.remove(i), seq![stopped(signals[i])])
    } else {
        (signals, Seq::empty())
    }
}

/// Whether a signal's lifetime ran out by `now_ms`.
pub open spec fn due(signal: SignalView, now_ms: u64) -> bool {
    signal.expires_at_ms <= now_ms
}

/// A tick: every signal whose lifetime ran out stops, in order, and the
/// rest stay open.
pub open spec fn after_tick(signals: Seq<SignalView>, now_ms: u64) -> (
    Seq<SignalView>,
    Seq<UpdateView>,
)
    decreases signals.len(),
{
    if signals.len() == 0 {
        (signals, Seq::empty())
    } else {
        let (kept, stops) = after_tick(signals.drop_last(), now_ms);
        if due(signals.last(), now_ms) {
            (kept, stops.push(stopped(signals.last())))
        } else {
            (kept.push(signals.last()), stops)
        }
    }
}

/// A lag: every open signal stops, in order, and the set is cleared.
pub open spec fn after_lagged(signals: Seq<SignalView>) -> (Seq<SignalView>, Seq<UpdateView>) {
    (Seq::empty(), signals.map_values(|s: SignalView| stopped(s)))
}

/// An event as a mathematical value: the event with its channel read as
/// texts.
pub open spec fn after_event(signals: Seq<SignalView>, event: ComposingEvent) -> (
    Seq<SignalView>,
    Seq<UpdateView>,
) {
    match event {
        ComposingEvent::SendStarting { conversation_id, channel, now_ms } => after_begin(
            signals,
            conversation_id,
            match channel {
                Some(c) => Some(channel_view(&c)),
                None => None,
            },
            now_ms,
        ),
        ComposingEvent::SendDone { conversation_id } => after_send_done(signals, conversation_id),
        ComposingEvent::StreamEnded { conversation_id } => after_stream_ended(
            signals,
            conversation_id,
        ),
        ComposingEvent::Lagged => after_lagged(signals),
        ComposingEvent::Tick { now_ms } => after_tick(signals, now_ms),
    }
}

/// Whether an event can be handled: a begin's deadline fits the clock.
pub open spec fn event_in_range(event: ComposingEvent) -> bool {
    event matches ComposingEvent::SendStarting { now_ms, .. } ==> now_ms
        <= u64::MAX - COMPOSING_SIGNAL_LIFETIME_MS
}

/// The open composing signals of one adapter's edge, one per conversation.
pub struct ComposingEdge {
    open: Vec<OpenSignal>,
}

proof fn lemma_position(signals: Seq<SignalView>, conversation_id: i64, i: int)
    requires
        signals_wf(signals),
        open_at(signals, conversation_id, i),
    ensures
        is_open(signals, conversation_id),
        position(signals, conversation_id) == i,
{
    let p = position(signals, conversation_id);
    assert(open_at(signals, conversation_id, p));
}

proof fn lemma_tick_keeps_wf(signals: Seq<SignalView>, now_ms: u64)
    requires
        signals_wf(signals),
    ensures
        signals_wf(after_tick(signals, now_ms).0),
        forall|i: int|
            0 <= i < after_tick(signals, now_ms).0.len() ==> exists|j: int|
                0 <= j < signals.len() && #[trigger] after_tick(signals, now_ms).0[i] == signals[j],
    decreases signals.len(),
{
    if signals.len() > 0 {
        let init = signals.drop_last();
        assert(signals_wf(init)) by {
            assert forall|a: int, b: int|
                0 <= a < init.len() && 0 <= b < init.len() && a != b
                    implies #[trigger] init[a].conversation_id != #[trigger] init[b].conversation_id by {
                assert(init[a] == signals[a] && init[b] == signals[b]);
            }
            assert forall|a: int| 0 <= a < init.len() implies #[trigger] init[a].unfinished >= 1 by {
                assert(init[a] == signals[a]);
            }
        }
        lemma_tick_keeps_wf(init, now_ms);
        let kept = after_tick(init, now_ms).0;
        let full = after_tick(signals, now_ms).0;
        assert forall|i: int| 0 <= i < kept.len() implies exists|j: int|
            0 <= j < signals.len() && #[trigger] kept[i] == signals[j] by {
            let j = choose|j: int| 0 <= j < init.len() && #[trigger] kept[i] == init[j];
            assert(signals[j] == init[j]);
        }
        if !due(signals.last(), now_ms) {
            assert forall|i: int| 0 <= i < kept.len() implies #[trigger] kept[i].conversation_id
                != signals.last().conversation_id by {
                let j = choose|j: int| 0 <= j < init.len() && #[trigger] kept[i] == init[j];
                assert(init[j] == signals[j]);
                assert(signals[j].conversation_id != signals[signals.len() - 1].conversation_id);
            }
            assert forall|i: int| 0 <= i < full.len() implies exists|j: int|
                0 <= j < signals.len() && #[trigger] full[i] == signals[j] by {
                if i < kept.len() {
                    assert(full[i] == kept[i]);
                } else {
                    assert(full[i] == signals[signals.len() - 1]);
                }
            }
            assert forall|a: int, b: int|
                0 <= a < full.len() && 0 <= b < full.len() && a != b
                    implies #[trigger] full[a].conversation_id != #[trigger] full[b].conversation_id by {
                if a < kept.len() && b < kept.len() {
                    assert(full[a] == kept[a] && full[b] == kept[b]);
                } else if a < kept.len() {
                    assert(full[a] == kept[a]);
                } else if b < kept.len() {
                    assert(full[b] == kept[b]);
                }
            }
            assert forall|a: int| 0 <= a < full.len() implies #[trigger] full[a].unfinished >= 1 by {
                if a < kept.len() {
                    assert(full[a] == kept[a]);
                    let j = choose|j: int| 0 <= j < signals.len() && #[trigger] kept[a] == signals[j];
                    assert(signals[j].unfinished >= 1);
                }
            }
        } else {
            assert forall|a: int| 0 <= a < full.len() implies #[trigger] full[a].unfinished >= 1 by {
                let j = choose|j: int| 0 <= j < signals.len() && #[trigger] kept[a] == signals[j];
                assert(signals[j].unfinished >= 1);
            }
        }
    }
}

impl ComposingEdge {
    /// The open signals, in the order they opened.
    pub closed spec fn view(&self) -> Seq<SignalView> {
        signal_views(self.open@)
    }

    /// One signal per conversation, each counting an unfinished send.
    #[verifier::type_invariant]
    closed spec fn wf(&self) -> bool {
        signals_wf(self.view())
    }

    /// An edge with nothing open.
    pub fn new() -> (edge: ComposingEdge)
        ensures
            edge.view() == Seq::<SignalView>::empty(),
    {
        let edge = ComposingEdge { open: Vec::new() };
        assert(edge.view() =~= Seq::<SignalView>::empty());
        edge
    }

    fn find(&self, conversation_id: i64) -> (index: Option<usize>)
        ensures
            index matches Some(i) ==> open_at(self.view(), conversation_id, i as int)
                && position(self.view(), conversation_id) == i,
            index is None ==> !is_open(self.view(), conversation_id),
    {
        proof {
            use_type_invariant(self);
        }
        let mut i: usize = 0;
        while i < self.open.len()
            invariant
                i <= self.open@.len(),
                signals_wf(self.view()),
                self.view().len() == self.open@.len(),
                forall|j: int| 0 <= j < i ==> #[trigger] self.view()[j].conversation_id != conversation_id,
            decreases self.open@.len() - i,
        {
            if self.open[i].conversation_id == conversation_id {
                proof {
                    lemma_position(self.view(), conversation_id, i as int);
                }
                return Some(i);
            }
            i = i + 1;
        }
        None
    }

    /// Whether the conversation shows the assistant composing: the caller
    /// resolves a channel for a begin only where nothing is open.
    pub fn is_open(&self, conversation_id: i64) -> (open: bool)
        ensures
            open == is_open(self.view(), conversation_id),
    {
        self.find(conversation_id).is_some()
    }

    /// The earliest deadline among the open signals, absent when nothing
    /// is open.
    pub fn earliest_deadline(&self) -> (deadline: Option<u64>)
        ensures
            deadline is None <==> self.view().len() == 0,
            deadline matches Some(d) ==> (exists|i: int|
                0 <= i < self.view().len() && #[trigger] self.view()[i].expires_at_ms == d)
                && forall|i: int| 0 <= i < self.view().len() ==> d <= #[trigger] self.view()[i].expires_at_ms,
    {
        let mut earliest: Option<u64> = None;
        let mut i: usize = 0;
        while i < self.open.len()
            invariant
                i <= self.open@.len(),
                self.view().len() == self.open@.len(),
                earliest is None <==> i == 0,
                earliest matches Some(d) ==> (exists|j: int|
                    0 <= j < i && #[trigger] self.view()[j].expires_at_ms == d) && forall|j: int|
                    0 <= j < i ==> d <= #[trigger] self.view()[j].expires_at_ms,
            decreases self.open@.len() - i,
        {
            let at = self.open[i].expires_at_ms;
            assert(self.view()[i as int].expires_at_ms == at);
            earliest = match earliest {
                Some(d) => if at < d {
                    Some(at)
                } else {
                    Some(d)
                },
                None => Some(at),
            };
            i = i + 1;
        }
        earliest
    }
    /// A sending tool started in a conversation.
    fn begin(&mut self, conversation_id: i64, channel: Option<ChannelKey>, now_ms: u64) -> (updates: Vec<ComposingUpdate>)
        requires
            now_ms <= u64::MAX - COMPOSING_SIGNAL_LIFETIME_MS,
        ensures
            (final(self).view(), updates_view(updates@)) == after_begin(
                old(self).view(),
                conversation_id,
                match channel {
                    Some(c) => Some(channel_view(&c)),
                    None => None,
                },
                now_ms,
            ),
    {
        proof {
            use_type_invariant(&*self);
        }
        let ghost before = self.view();
        let found = self.find(conversation_id);
        let expires_at_ms = now_ms + COMPOSING_SIGNAL_LIFETIME_MS;
        let mut updates: Vec<ComposingUpdate> = Vec::new();
        let mut open: Vec<OpenSignal> = Vec::new();
        std::mem::swap(&mut open, &mut self.open);
        assert(signal_views(open@) == before);
        match found {
            Some(i) => {
                let signal = open.remove(i);
                let counted = OpenSignal {
                    conversation_id,
                    channel: signal.channel,
                    unfinished: signal.unfinished.saturating_add(1),
                    expires_at_ms,
                };
                open.insert(i, counted);
                proof {
                    let after = signal_views(open@);
                    assert(after =~= before.update(
                        i as int,
                        SignalView {
                            conversation_id,
                            channel: before[i as int].channel,
                            unfinished: if before[i as int].unfinished < u64::MAX {
                                before[i as int].unfinished + 1
                            } else {
                                before[i as int].unfinished
                            },
                            expires_at_ms,
                        },
                    ));
                    assert(signals_wf(after)) by {
                        assert forall|a: int, b: int|
                            0 <= a < after.len() && 0 <= b < after.len() && a != b
                                implies #[trigger] after[a].conversation_id != #[trigger] after[b].conversation_id by {
                            assert(after[a].conversation_id == before[a].conversation_id);
                            assert(after[b].conversation_id == before[b].conversation_id);
                        }
                    }
                }
            },
            None => {
                match channel {
                    Some(c) => {
                        let shown = copy_channel(&c);
                        open.push(
                            OpenSignal { conversation_id, channel: c, unfinished: 1, expires_at_ms },
                        );
                        updates.push(ComposingUpdate { channel: shown, state: ComposingState::Composing });
                        proof {
                            let after = signal_views(open@);
                            assert(after =~= before.push(open@.last().view()));
                            assert(signals_wf(after)) by {
                                assert forall|a: int, b: int|
                                    0 <= a < after.len() && 0 <= b < after.len() && a != b
                                        implies #[trigger] after[a].conversation_id != #[trigger] after[b].conversation_id by {
                                    if a < before.len() {
                                        assert(after[a] == before[a]);
                                        assert(!open_at(before, conversation_id, a));
                                    }
                                    if b < before.len() {
                                        assert(after[b] == before[b]);
                                        assert(!open_at(before, conversation_id, b));
                                    }
                                }
                            }
                            assert(updates_view(updates@) =~= seq![
                                UpdateView { channel: channel_view(&c), state: ComposingState::Composing },
                            ]);
                        }
                    },
                    None => {},
                }
            },
        }
        self.open = open;
        proof {
            assert(updates@.len() == 0 ==> updates_view(updates@) =~= Seq::<UpdateView>::empty());
        }
        updates
    }

    /// Remove the conversation's open signal, yielding its stop.
    fn stop_at(&mut self, i: usize) -> (updates: Vec<ComposingUpdate>)
        requires
            i < old(self).view().len(),
        ensures
            final(self).view() == old(self).view().remove(i as int),
            updates_view(updates@) == seq![stopped(old(self).view()[i as int])],
    {
        proof {
            use_type_invariant(&*self);
        }
        let ghost before = self.view();
        let mut open: Vec<OpenSignal> = Vec::new();
        std::mem::swap(&mut open, &mut self.open);
        assert(signal_views(open@) == before);
        let signal = open.remove(i);
        proof {
            let after = signal_views(open@);
            assert(after =~= before.remove(i as int));
            assert(signals_wf(after)) by {
                assert forall|a: int, b: int|
                    0 <= a < after.len() && 0 <= b < after.len() && a != b
                        implies #[trigger] after[a].conversation_id != #[trigger] after[b].conversation_id by {
                    let a2 = if a < i { a } else { a + 1 };
                    let b2 = if b < i { b } else { b + 1 };
                    assert(after[a] == before[a2]);
                    assert(after[b] == before[b2]);
                }
            }
        }
        self.open = open;
        let mut updates: Vec<ComposingUpdate> = Vec::new();
        updates.push(ComposingUpdate { channel: signal.channel, state: ComposingState::Stopped });
        proof {
            assert(updates_view(updates@) =~= seq![stopped(before[i as int])]);
        }
        updates
    }

    /// One of a conversation's sends is done.
    fn send_done(&mut self, conversation_id: i64) -> (updates: Vec<ComposingUpdate>)
        ensures
            (final(self).view(), updates_view(updates@)) == after_send_done(old(self).view(), conversation_id),
    {
        proof {
            use_type_invariant(&*self);
        }
        let ghost before = self.view();
        match self.find(conversation_id) {
            Some(i) => {
                if self.open[i].unfinished <= 1 {
                    self.stop_at(i)
                } else {
                    let mut open: Vec<OpenSignal> = Vec::new();
                    std::mem::swap(&mut open, &mut self.open);
                    assert(signal_views(open@) == before);
                    let signal = open.remove(i);
                    let counted = OpenSignal {
                        conversation_id,
                        channel: signal.channel,
                        unfinished: signal.unfinished - 1,
                        expires_at_ms: signal.expires_at_ms,
                    };
                    open.insert(i, counted);
                    proof {
                        let after = signal_views(open@);
                        assert(after =~= before.update(
                            i as int,
                            SignalView {
                                conversation_id,
                                channel: before[i as int].channel,
                                unfinished: (before[i as int].unfinished - 1) as nat,
                                expires_at_ms: before[i as int].expires_at_ms,
                            },
                        ));
                        assert(signals_wf(after)) by {
                            assert forall|a: int, b: int|
                                0 <= a < after.len() && 0 <= b < after.len() && a != b
                                    implies #[trigger] after[a].conversation_id != #[trigger] after[b].conversation_id by {
                                assert(after[a].conversation_id == before[a].conversation_id);
                                assert(after[b].conversation_id == before[b].conversation_id);
                            }
                        }
                    }
                    self.open = open;
                    let updates: Vec<ComposingUpdate> = Vec::new();
                    assert(updates_view(updates@) =~= Seq::<UpdateView>::empty());
                    updates
                }
            },
            None => {
                let updates: Vec<ComposingUpdate> = Vec::new();
                assert(updates_view(updates@) =~= Seq::<UpdateView>::empty());
                updates
            },
        }
    }

    /// A conversation's stream reached its terminal.
    fn stream_ended(&mut self, conversation_id: i64) -> (updates: Vec<ComposingUpdate>)
        ensures
            (final(self).view(), updates_view(updates@)) == after_stream_ended(old(self).view(), conversation_id),
    {
        match self.find(conversation_id) {
            Some(i) => self.stop_at(i),
            None => {
                let updates: Vec<ComposingUpdate> = Vec::new();
                assert(updates_view(updates@) =~= Seq::<UpdateView>::empty());
                updates
            },
        }
    }
    /// Every signal whose lifetime ran out stops.
    fn tick(&mut self, now_ms: u64) -> (updates: Vec<ComposingUpdate>)
        ensures
            (final(self).view(), updates_view(updates@)) == after_tick(old(self).view(), now_ms),
    {
        proof {
            use_type_invariant(&*self);
        }
        let ghost before = self.view();
        let mut pending: Vec<OpenSignal> = Vec::new();
        std::mem::swap(&mut pending, &mut self.open);
        let mut kept: Vec<OpenSignal> = Vec::new();
        let mut updates: Vec<ComposingUpdate> = Vec::new();
        let ghost mut k: int = 0;
        proof {
            assert(signal_views(pending@) =~= before.subrange(0, before.len() as int));
            assert(before.subrange(0, 0) =~= Seq::<SignalView>::empty());
            assert(signal_views(kept@) =~= Seq::<SignalView>::empty());
            assert(updates_view(updates@) =~= Seq::<UpdateView>::empty());
        }
        while pending.len() > 0
            invariant
                0 <= k <= before.len(),
                signal_views(pending@) == before.subrange(k, before.len() as int),
                (signal_views(kept@), updates_view(updates@)) == after_tick(
                    before.subrange(0, k),
                    now_ms,
                ),
            decreases pending@.len(),
        {
            let ghost rest = pending@;
            let signal = pending.remove(0);
            proof {
                let tail = before.subrange(k, before.len() as int);
                assert(signal_views(rest) == tail);
                assert(rest.len() > 0);
                assert(tail.len() == rest.len());
                assert(k < before.len());
                assert(tail[0] == before[k]);
                assert(signal_views(rest)[0] == rest[0].view());
                assert(signal == rest[0]);
                assert(pending@ =~= rest.subrange(1, rest.len() as int));
                assert forall|x: int| 0 <= x < pending@.len() implies #[trigger] signal_views(pending@)[x] == before.subrange(k + 1, before.len() as int)[x] by {
                    assert(pending@[x] == rest[x + 1]);
                    assert(signal_views(rest)[x + 1] == tail[x + 1]);
                }
                assert(signal_views(pending@) =~= before.subrange(k + 1, before.len() as int));
                assert(before.subrange(0, k + 1).drop_last() =~= before.subrange(0, k));
                assert(before.subrange(0, k + 1).last() == signal.view());
            }
            let ghost kept_before = kept@;
            let ghost updates_before = updates@;
            if signal.expires_at_ms <= now_ms {
                updates.push(ComposingUpdate { channel: signal.channel, state: ComposingState::Stopped });
                proof {
                    assert(updates_view(updates@) =~= updates_view(updates_before).push(stopped(before[k])));
                }
            } else {
                kept.push(signal);
                proof {
                    assert(signal_views(kept@) =~= signal_views(kept_before).push(before[k]));
                }
            }
            proof {
                k = k + 1;
            }
        }
        proof {
            assert(before.subrange(0, k) =~= before);
            lemma_tick_keeps_wf(before, now_ms);
        }
        self.open = kept;
        updates
    }

    /// Every open signal stops, and the set is cleared.
    fn lagged(&mut self) -> (updates: Vec<ComposingUpdate>)
        ensures
            (final(self).view(), updates_view(updates@)) == after_lagged(old(self).view()),
    {
        let ghost before = self.view();
        let mut pending: Vec<OpenSignal> = Vec::new();
        std::mem::swap(&mut pending, &mut self.open);
        let mut updates: Vec<ComposingUpdate> = Vec::new();
        let ghost mut k: int = 0;
        proof {
            assert(signal_views(pending@) =~= before.subrange(0, before.len() as int));
            assert(updates_view(updates@) =~= before.subrange(0, 0).map_values(|s: SignalView| stopped(s)));
        }
        while pending.len() > 0
            invariant
                0 <= k <= before.len(),
                signal_views(pending@) == before.subrange(k, before.len() as int),
                updates_view(updates@) == before.subrange(0, k).map_values(|s: SignalView| stopped(s)),
            decreases pending@.len(),
        {
            let ghost rest = pending@;
            let ghost updates_before = updates@;
            let signal = pending.remove(0);
            proof {
                let tail = before.subrange(k, before.len() as int);
                assert(signal_views(rest) == tail);
                assert(rest.len() > 0);
                assert(tail.len() == rest.len());
                assert(k < before.len());
                assert(tail[0] == before[k]);
                assert(signal_views(rest)[0] == rest[0].view());
                assert(signal == rest[0]);
                assert(pending@ =~= rest.subrange(1, rest.len() as int));
                assert forall|x: int| 0 <= x < pending@.len() implies #[trigger] signal_views(pending@)[x] == before.subrange(k + 1, before.len() as int)[x] by {
                    assert(pending@[x] == rest[x + 1]);
                    assert(signal_views(rest)[x + 1] == tail[x + 1]);
                }
                assert(signal_views(pending@) =~= before.subrange(k + 1, before.len() as int));
            }
            updates.push(ComposingUpdate { channel: signal.channel, state: ComposingState::Stopped });
            proof {
                assert(signal.view() == before[k]);
                assert(updates@.drop_last() == updates_before);
                assert(update_view(updates@.last()) == stopped(before[k]));
                assert(updates_view(updates@) =~= updates_view(updates_before).push(stopped(before[k])));
                assert(before.subrange(0, k + 1).map_values(|s: SignalView| stopped(s)) =~= before.subrange(
                    0,
                    k,
                ).map_values(|s: SignalView| stopped(s)).push(stopped(before[k])));
                assert(updates_view(updates@) =~= before.subrange(0, k + 1).map_values(
                    |s: SignalView| stopped(s),
                ));
                k = k + 1;
            }
        }
        proof {
            assert(before.subrange(0, k) =~= before);
            assert(self.view() =~= Seq::<SignalView>::empty());
        }
        updates
    }

    /// The transitions one event yields, and the open signals after it.
    pub fn handle(&mut self, event: ComposingEvent) -> (updates: Vec<ComposingUpdate>)
        requires
            event_in_range(event),
        ensures
            (final(self).view(), updates_view(updates@)) == after_event(old(self).view(), event),
            signals_wf(old(self).view()),
            signals_wf(final(self).view()),
    {
        proof {
            use_type_invariant(&*self);
        }
        let updates = match event {
            ComposingEvent::SendStarting { conversation_id, channel, now_ms } => self.begin(
                conversation_id,
                channel,
                now_ms,
            ),
            ComposingEvent::SendDone { conversation_id } => self.send_done(conversation_id),
            ComposingEvent::StreamEnded { conversation_id } => self.stream_ended(conversation_id),
            ComposingEvent::Lagged => self.lagged(),
            ComposingEvent::Tick { now_ms } => self.tick(now_ms),
        };
        proof {
            use_type_invariant(&*self);
        }
        updates
    }
}

/// A turn that sends twice keeps the chat busy until both sends are done:
/// the first send's ending leaves the cue lit, the second's stops it, and
/// the one begin and the one stop are the only transitions.
pub proof fn a_second_send_holds_the_cue_until_it_is_done_too(
    signals: Seq<SignalView>,
    conversation_id: i64,
    channel: (Seq<char>, Seq<char>),
    first_ms: u64,
    second_ms: u64,
)
    requires
        signals_wf(signals),
        !is_open(signals, conversation_id),
        first_ms <= u64::MAX - COMPOSING_SIGNAL_LIFETIME_MS,
        second_ms <= u64::MAX - COMPOSING_SIGNAL_LIFETIME_MS,
    ensures
        ({
            let (one, begun) = after_begin(signals, conversation_id, Some(channel), first_ms);
            let (two, again) = after_begin(one, conversation_id, None, second_ms);
            let (three, first_done) = after_send_done(two, conversation_id);
            let (four, second_done) = after_send_done(three, conversation_id);
            &&& begun == seq![UpdateView { channel, state: ComposingState::Composing }]
            &&& again.len() == 0
            &&& first_done.len() == 0
            &&& is_open(three, conversation_id)
            &&& second_done == seq![UpdateView { channel, state: ComposingState::Stopped }]
            &&& !is_open(four, conversation_id)
        }),
{
    let n = signals.len() as int;
    let (one, begun) = after_begin(signals, conversation_id, Some(channel), first_ms);
    assert(one == signals.push(
        SignalView {
            conversation_id,
            channel,
            unfinished: 1,
            expires_at_ms: (first_ms + COMPOSING_SIGNAL_LIFETIME_MS) as u64,
        },
    ));
    assert(signals_wf(one)) by {
        assert forall|a: int, b: int|
            0 <= a < one.len() && 0 <= b < one.len() && a != b
                implies #[trigger] one[a].conversation_id != #[trigger] one[b].conversation_id by {
            if a < n {
                assert(!open_at(signals, conversation_id, a));
            }
            if b < n {
                assert(!open_at(signals, conversation_id, b));
            }
        }
    }
    lemma_position(one, conversation_id, n);
    let (two, again) = after_begin(one, conversation_id, None, second_ms);
    assert(two[n].unfinished == 2);
    assert(signals_wf(two)) by {
        assert forall|a: int, b: int|
            0 <= a < two.len() && 0 <= b < two.len() && a != b
                implies #[trigger] two[a].conversation_id != #[trigger] two[b].conversation_id by {
            assert(two[a].conversation_id == one[a].conversation_id);
            assert(two[b].conversation_id == one[b].conversation_id);
        }
    }
    lemma_position(two, conversation_id, n);
    let (three, first_done) = after_send_done(two, conversation_id);
    assert(three[n].unfinished == 1);
    assert(signals_wf(three)) by {
        assert forall|a: int, b: int|
            0 <= a < three.len() && 0 <= b < three.len() && a != b
                implies #[trigger] three[a].conversation_id != #[trigger] three[b].conversation_id by {
            assert(three[a].conversation_id == two[a].conversation_id);
            assert(three[b].conversation_id == two[b].conversation_id);
        }
    }
    lemma_position(three, conversation_id, n);
    let (four, second_done) = after_send_done(three, conversation_id);
    assert(four =~= signals);
}

/// A stop is delivered at most once: once a conversation's stream ended,
/// it has nothing open, and a second ending stops nothing.
pub proof fn a_stop_is_delivered_at_most_once(signals: Seq<SignalView>, conversation_id: i64)
    requires
        signals_wf(signals),
    ensures
        !is_open(after_stream_ended(signals, conversation_id).0, conversation_id),
        after_stream_ended(after_stream_ended(signals, conversation_id).0, conversation_id).1.len()
            == 0,
{
    if is_open(signals, conversation_id) {
        let i = position(signals, conversation_id);
        let after = signals.remove(i);
        assert forall|j: int| !open_at(after, conversation_id, j) by {
            if 0 <= j < after.len() {
                let j2 = if j < i { j } else { j + 1 };
                assert(after[j] == signals[j2]);
            }
        }
    }
}

/// After the edge's clock passes a deadline, no signal whose lifetime ran
/// out is still open: a lost stop never leaves a cue lit past its
/// lifetime.
pub proof fn no_signal_outlives_its_lifetime(signals: Seq<SignalView>, now_ms: u64)
    ensures
        forall|i: int|
            0 <= i < after_tick(signals, now_ms).0.len() ==> !due(
                #[trigger] after_tick(signals, now_ms).0[i],
                now_ms,
            ),
    decreases signals.len(),
{
    if signals.len() > 0 {
        no_signal_outlives_its_lifetime(signals.drop_last(), now_ms);
        let kept = after_tick(signals.drop_last(), now_ms).0;
        let full = after_tick(signals, now_ms).0;
        assert forall|i: int| 0 <= i < full.len() implies !due(#[trigger] full[i], now_ms) by {
            if i < kept.len() {
                assert(full[i] == kept[i]);
            }
        }
    }
}

/// A transition tagged with the conversation it is about.
pub open spec fn tagged_stop(signal: SignalView) -> (i64, UpdateView) {
    (signal.conversation_id, stopped(signal))
}

/// The tagged transitions of a begin.
pub open spec fn tagged_begin(
    signals: Seq<SignalView>,
    conversation_id: i64,
    channel: Option<(Seq<char>, Seq<char>)>,
) -> Seq<(i64, UpdateView)> {
    if is_open(signals, conversation_id) {
        Seq::empty()
    } else {
        match channel {
            Some(c) => seq![(conversation_id, UpdateView { channel: c, state: ComposingState::Composing })],
            None => Seq::empty(),
        }
    }
}

/// The tagged transitions of a send done.
pub open spec fn tagged_send_done(signals: Seq<SignalView>, conversation_id: i64) -> Seq<
    (i64, UpdateView),
> {
    if is_open(signals, conversation_id) && signals[position(
        signals,
        conversation_id,
    )].unfinished <= 1 {
        seq![tagged_stop(signals[position(signals, conversation_id)])]
    } else {
        Seq::empty()
    }
}

/// The tagged transitions of a stream's terminal.
pub open spec fn tagged_stream_ended(signals: Seq<SignalView>, conversation_id: i64) -> Seq<
    (i64, UpdateView),
> {
    if is_open(signals, conversation_id) {
        seq![tagged_stop(signals[position(signals, conversation_id)])]
    } else {
        Seq::empty()
    }
}

/// The tagged transitions of a tick.
pub open spec fn tagged_tick(signals: Seq<SignalView>, now_ms: u64) -> Seq<(i64, UpdateView)>
    decreases signals.len(),
{
    if signals.len() == 0 {
        Seq::empty()
    } else {
        let before = tagged_tick(signals.drop_last(), now_ms);
        if due(signals.last(), now_ms) {
            before.push(tagged_stop(signals.last()))
        } else {
            before
        }
    }
}

/// The tagged transitions of a lag.
pub open spec fn tagged_lagged(signals: Seq<SignalView>) -> Seq<(i64, UpdateView)> {
    signals.map_values(|s: SignalView| tagged_stop(s))
}

/// The transitions one event yields, each tagged with its conversation.
pub open spec fn tagged_event(signals: Seq<SignalView>, event: ComposingEvent) -> Seq<
    (i64, UpdateView),
> {
    match event {
        ComposingEvent::SendStarting { conversation_id, channel, now_ms } => tagged_begin(
            signals,
            conversation_id,
            match channel {
                Some(c) => Some(channel_view(&c)),
                None => None,
            },
        ),
        ComposingEvent::SendDone { conversation_id } => tagged_send_done(signals, conversation_id),
        ComposingEvent::StreamEnded { conversation_id } => tagged_stream_ended(
            signals,
            conversation_id,
        ),
        ComposingEvent::Lagged => tagged_lagged(signals),
        ComposingEvent::Tick { now_ms } => tagged_tick(signals, now_ms),
    }
}

/// Tagged transitions with their tags dropped.
pub open spec fn untagged(tags: Seq<(i64, UpdateView)>) -> Seq<UpdateView> {
    tags.map_values(|t: (i64, UpdateView)| t.1)
}

/// The transitions about one conversation, in order.
pub open spec fn of_conversation(tags: Seq<(i64, UpdateView)>, conversation_id: i64) -> Seq<
    UpdateView,
>
    decreases tags.len(),
{
    if tags.len() == 0 {
        Seq::empty()
    } else {
        let before = of_conversation(tags.drop_last(), conversation_id);
        if tags.last().0 == conversation_id {
            before.push(tags.last().1)
        } else {
            before
        }
    }
}

/// The channel a conversation's open signal shows on, if one is open.
pub open spec fn open_channel(signals: Seq<SignalView>, conversation_id: i64) -> Option<
    (Seq<char>, Seq<char>),
> {
    if is_open(signals, conversation_id) {
        Some(signals[position(signals, conversation_id)].channel)
    } else {
        None
    }
}

/// What a conversation's change of state yields: the composing transition
/// when it opens, the stop on the channel it showed on when it closes,
/// nothing otherwise.
pub open spec fn toggle(
    before: Option<(Seq<char>, Seq<char>)>,
    after: Option<(Seq<char>, Seq<char>)>,
) -> Seq<UpdateView> {
    match (before, after) {
        (None, Some(k)) => seq![UpdateView { channel: k, state: ComposingState::Composing }],
        (Some(k), None) => seq![UpdateView { channel: k, state: ComposingState::Stopped }],
        _ => Seq::empty(),
    }
}

/// Whether a signal open before and after an event stays on its channel.
pub open spec fn same_channel(
    before: Option<(Seq<char>, Seq<char>)>,
    after: Option<(Seq<char>, Seq<char>)>,
) -> bool {
    (before is Some && after is Some) ==> before == after
}

/// The open signals and the tagged transitions of a run of events on an
/// edge that started with nothing open.
pub open spec fn run(events: Seq<ComposingEvent>) -> (Seq<SignalView>, Seq<(i64, UpdateView)>)
    decreases events.len(),
{
    if events.len() == 0 {
        (Seq::empty(), Seq::empty())
    } else {
        let (signals, tags) = run(events.drop_last());
        (after_event(signals, events.last()).0, tags + tagged_event(signals, events.last()))
    }
}

proof fn lemma_open_channel_at(signals: Seq<SignalView>, conversation_id: i64, i: int)
    requires
        signals_wf(signals),
        open_at(signals, conversation_id, i),
    ensures
        open_channel(signals, conversation_id) == Some(signals[i].channel),
{
    lemma_position(signals, conversation_id, i);
}

proof fn lemma_same_ids(before: Seq<SignalView>, after: Seq<SignalView>)
    requires
        signals_wf(before),
        before.len() == after.len(),
        forall|j: int|
            0 <= j < before.len() ==> #[trigger] after[j].conversation_id == before[j].conversation_id
                && after[j].channel == before[j].channel && after[j].unfinished >= 1,
    ensures
        signals_wf(after),
        forall|c: i64| #[trigger] open_channel(after, c) == open_channel(before, c),
{
    assert forall|a: int, b: int|
        0 <= a < after.len() && 0 <= b < after.len() && a != b
            implies #[trigger] after[a].conversation_id != #[trigger] after[b].conversation_id by {
        assert(after[a].conversation_id == before[a].conversation_id);
        assert(after[b].conversation_id == before[b].conversation_id);
    }
    assert forall|a: int| 0 <= a < after.len() implies #[trigger] after[a].unfinished >= 1 by {
        assert(after[a].conversation_id == before[a].conversation_id);
    }
    assert(signals_wf(after));
    assert forall|c: i64| #[trigger] open_channel(after, c) == open_channel(before, c) by {
        if is_open(before, c) {
            let j = position(before, c);
            lemma_open_channel_at(before, c, j);
            assert(after[j].conversation_id == before[j].conversation_id);
            assert(open_at(after, c, j));
            lemma_open_channel_at(after, c, j);
        } else {
            assert forall|j: int| !open_at(after, c, j) by {
                if 0 <= j < after.len() {
                    assert(!open_at(before, c, j));
                    assert(after[j].conversation_id == before[j].conversation_id);
                }
            }
        }
    }
}

proof fn lemma_push_new(signals: Seq<SignalView>, s: SignalView)
    requires
        signals_wf(signals),
        !is_open(signals, s.conversation_id),
        s.unfinished >= 1,
    ensures
        signals_wf(signals.push(s)),
        open_channel(signals.push(s), s.conversation_id) == Some(s.channel),
        forall|c: i64|
            c != s.conversation_id ==> #[trigger] open_channel(signals.push(s), c) == open_channel(
                signals,
                c,
            ),
{
    let after = signals.push(s);
    let n = signals.len() as int;
    assert forall|a: int, b: int|
        0 <= a < after.len() && 0 <= b < after.len() && a != b
            implies #[trigger] after[a].conversation_id != #[trigger] after[b].conversation_id by {
        if a < n {
            assert(after[a] == signals[a]);
            assert(!open_at(signals, s.conversation_id, a));
        }
        if b < n {
            assert(after[b] == signals[b]);
            assert(!open_at(signals, s.conversation_id, b));
        }
    }
    assert forall|a: int| 0 <= a < after.len() implies #[trigger] after[a].unfinished >= 1 by {
        if a < n {
            assert(after[a] == signals[a]);
        }
    }
    assert(open_at(after, s.conversation_id, n));
    lemma_open_channel_at(after, s.conversation_id, n);
    assert forall|c: i64| c != s.conversation_id implies #[trigger] open_channel(after, c)
        == open_channel(signals, c) by {
        if is_open(signals, c) {
            let j = position(signals, c);
            lemma_open_channel_at(signals, c, j);
            assert(after[j] == signals[j]);
            assert(open_at(after, c, j));
            lemma_open_channel_at(after, c, j);
        } else {
            assert forall|j: int| !open_at(after, c, j) by {
                if 0 <= j < n {
                    assert(!open_at(signals, c, j));
                    assert(after[j] == signals[j]);
                }
            }
        }
    }
}

proof fn lemma_remove_at(signals: Seq<SignalView>, i: int)
    requires
        signals_wf(signals),
        0 <= i < signals.len(),
    ensures
        signals_wf(signals.remove(i)),
        open_channel(signals.remove(i), signals[i].conversation_id) is None,
        forall|c: i64|
            c != signals[i].conversation_id ==> #[trigger] open_channel(signals.remove(i), c)
                == open_channel(signals, c),
{
    let after = signals.remove(i);
    assert forall|a: int, b: int|
        0 <= a < after.len() && 0 <= b < after.len() && a != b
            implies #[trigger] after[a].conversation_id != #[trigger] after[b].conversation_id by {
        let a2 = if a < i { a } else { a + 1 };
        let b2 = if b < i { b } else { b + 1 };
        assert(after[a] == signals[a2]);
        assert(after[b] == signals[b2]);
    }
    assert forall|a: int| 0 <= a < after.len() implies #[trigger] after[a].unfinished >= 1 by {
        let a2 = if a < i { a } else { a + 1 };
        assert(after[a] == signals[a2]);
    }
    let gone = signals[i].conversation_id;
    assert forall|j: int| !open_at(after, gone, j) by {
        if 0 <= j < after.len() {
            let j2 = if j < i { j } else { j + 1 };
            assert(after[j] == signals[j2]);
        }
    }
    assert forall|c: i64| c != gone implies #[trigger] open_channel(after, c) == open_channel(
        signals,
        c,
    ) by {
        if is_open(signals, c) {
            let j = position(signals, c);
            lemma_open_channel_at(signals, c, j);
            assert(j != i);
            let j1 = if j < i { j } else { j - 1 };
            assert(after[j1] == signals[j]);
            assert(open_at(after, c, j1));
            lemma_open_channel_at(after, c, j1);
        } else {
            assert forall|j: int| !open_at(after, c, j) by {
                if 0 <= j < after.len() {
                    let j2 = if j < i { j } else { j + 1 };
                    assert(after[j] == signals[j2]);
                    assert(!open_at(signals, c, j2));
                }
            }
        }
    }
}

proof fn lemma_drop_last(signals: Seq<SignalView>)
    requires
        signals_wf(signals),
        signals.len() > 0,
    ensures
        signals_wf(signals.drop_last()),
        !is_open(signals.drop_last(), signals.last().conversation_id),
        open_channel(signals, signals.last().conversation_id) == Some(signals.last().channel),
        forall|c: i64|
            c != signals.last().conversation_id ==> #[trigger] open_channel(signals, c)
                == open_channel(signals.drop_last(), c),
{
    let init = signals.drop_last();
    let n = init.len() as int;
    assert forall|a: int, b: int|
        0 <= a < init.len() && 0 <= b < init.len() && a != b
            implies #[trigger] init[a].conversation_id != #[trigger] init[b].conversation_id by {
        assert(init[a] == signals[a] && init[b] == signals[b]);
    }
    assert forall|a: int| 0 <= a < init.len() implies #[trigger] init[a].unfinished >= 1 by {
        assert(init[a] == signals[a]);
    }
    assert forall|j: int| !open_at(init, signals.last().conversation_id, j) by {
        if 0 <= j < n {
            assert(init[j] == signals[j]);
        }
    }
    assert(signals =~= init.push(signals.last()));
    lemma_push_new(init, signals.last());
}

proof fn lemma_of_conversation_push(tags: Seq<(i64, UpdateView)>, t: (i64, UpdateView), c: i64)
    ensures
        of_conversation(tags.push(t), c) == (if t.0 == c {
            of_conversation(tags, c).push(t.1)
        } else {
            of_conversation(tags, c)
        }),
{
    assert(tags.push(t).drop_last() =~= tags);
}

proof fn lemma_of_conversation_one(t: (i64, UpdateView), c: i64)
    ensures
        of_conversation(seq![t], c) == (if t.0 == c {
            seq![t.1]
        } else {
            Seq::<UpdateView>::empty()
        }),
{
    assert(seq![t] =~= Seq::<(i64, UpdateView)>::empty().push(t));
    lemma_of_conversation_push(Seq::empty(), t, c);
    assert(Seq::<UpdateView>::empty().push(t.1) =~= seq![t.1]);
}

proof fn lemma_of_conversation_append(
    a: Seq<(i64, UpdateView)>,
    b: Seq<(i64, UpdateView)>,
    c: i64,
)
    ensures
        of_conversation(a + b, c) == of_conversation(a, c) + of_conversation(b, c),
    decreases b.len(),
{
    if b.len() == 0 {
        assert(a + b =~= a);
        assert(of_conversation(a, c) + of_conversation(b, c) =~= of_conversation(a, c));
    } else {
        let init = b.drop_last();
        lemma_of_conversation_append(a, init, c);
        assert(a + b =~= (a + init).push(b.last()));
        assert(b =~= init.push(b.last()));
        lemma_of_conversation_push(a + init, b.last(), c);
        lemma_of_conversation_push(init, b.last(), c);
        if b.last().0 == c {
            assert((of_conversation(a, c) + of_conversation(init, c)).push(b.last().1)
                =~= of_conversation(a, c) + of_conversation(init, c).push(b.last().1));
        }
    }
}

proof fn lemma_lagged_toggles(signals: Seq<SignalView>, c: i64)
    requires
        signals_wf(signals),
    ensures
        of_conversation(tagged_lagged(signals), c) == toggle(open_channel(signals, c), None),
    decreases signals.len(),
{
    if signals.len() == 0 {
        assert(tagged_lagged(signals) =~= Seq::<(i64, UpdateView)>::empty());
        assert(!is_open(signals, c));
    } else {
        let init = signals.drop_last();
        lemma_drop_last(signals);
        lemma_lagged_toggles(init, c);
        assert(tagged_lagged(signals) =~= tagged_lagged(init).push(tagged_stop(signals.last())));
        lemma_of_conversation_push(tagged_lagged(init), tagged_stop(signals.last()), c);
        if signals.last().conversation_id == c {
            assert(Seq::<UpdateView>::empty().push(stopped(signals.last())) =~= seq![
                UpdateView { channel: signals.last().channel, state: ComposingState::Stopped },
            ]);
        }
    }
}

proof fn lemma_tick_toggles(signals: Seq<SignalView>, now_ms: u64, c: i64)
    requires
        signals_wf(signals),
    ensures
        signals_wf(after_tick(signals, now_ms).0),
        of_conversation(tagged_tick(signals, now_ms), c) == toggle(
            open_channel(signals, c),
            open_channel(after_tick(signals, now_ms).0, c),
        ),
        same_channel(open_channel(signals, c), open_channel(after_tick(signals, now_ms).0, c)),
    decreases signals.len(),
{
    lemma_tick_keeps_wf(signals, now_ms);
    if signals.len() == 0 {
        assert(!is_open(signals, c));
    } else {
        let init = signals.drop_last();
        let last = signals.last();
        lemma_drop_last(signals);
        lemma_tick_toggles(init, now_ms, c);
        lemma_tick_keeps_wf(init, now_ms);
        let kept = after_tick(init, now_ms).0;
        let tags = tagged_tick(init, now_ms);
        assert forall|i: int| 0 <= i < kept.len() implies #[trigger] kept[i].conversation_id
            != last.conversation_id by {
            let j = choose|j: int| 0 <= j < init.len() && #[trigger] kept[i] == init[j];
            assert(init[j] == signals[j]);
        }
        assert(!is_open(kept, last.conversation_id));
        lemma_of_conversation_push(tags, tagged_stop(last), c);
        if !due(last, now_ms) {
            lemma_push_new(kept, last);
        }
        if last.conversation_id == c {
            if due(last, now_ms) {
                assert(Seq::<UpdateView>::empty().push(stopped(last)) =~= seq![
                    UpdateView { channel: last.channel, state: ComposingState::Stopped },
                ]);
            }
        }
    }
}

proof fn lemma_event_toggles(signals: Seq<SignalView>, event: ComposingEvent, c: i64)
    requires
        signals_wf(signals),
    ensures
        signals_wf(after_event(signals, event).0),
        of_conversation(tagged_event(signals, event), c) == toggle(
            open_channel(signals, c),
            open_channel(after_event(signals, event).0, c),
        ),
        same_channel(open_channel(signals, c), open_channel(after_event(signals, event).0, c)),
{
    match event {
        ComposingEvent::SendStarting { conversation_id, channel, now_ms } => {
            let ch = match channel {
                Some(k) => Some(channel_view(&k)),
                None => None,
            };
            if is_open(signals, conversation_id) {
                let i = position(signals, conversation_id);
                let after = after_begin(signals, conversation_id, ch, now_ms).0;
                lemma_same_ids(signals, after);
            } else {
                match ch {
                    Some(k) => {
                        let s = SignalView {
                            conversation_id,
                            channel: k,
                            unfinished: 1,
                            expires_at_ms: (now_ms + COMPOSING_SIGNAL_LIFETIME_MS) as u64,
                        };
                        lemma_push_new(signals, s);
                        lemma_of_conversation_one(
                            (conversation_id, UpdateView { channel: k, state: ComposingState::Composing }),
                            c,
                        );
                    },
                    None => {},
                }
            }
        },
        ComposingEvent::SendDone { conversation_id } => {
            if is_open(signals, conversation_id) {
                let i = position(signals, conversation_id);
                lemma_open_channel_at(signals, conversation_id, i);
                if signals[i].unfinished <= 1 {
                    lemma_remove_at(signals, i);
                    lemma_of_conversation_one(tagged_stop(signals[i]), c);
                } else {
                    let after = after_send_done(signals, conversation_id).0;
                    lemma_same_ids(signals, after);
                }
            }
        },
        ComposingEvent::StreamEnded { conversation_id } => {
            if is_open(signals, conversation_id) {
                let i = position(signals, conversation_id);
                lemma_open_channel_at(signals, conversation_id, i);
                lemma_remove_at(signals, i);
                lemma_of_conversation_one(tagged_stop(signals[i]), c);
            }
        },
        ComposingEvent::Lagged => {
            lemma_lagged_toggles(signals, c);
            assert(!is_open(Seq::<SignalView>::empty(), c));
        },
        ComposingEvent::Tick { now_ms } => {
            lemma_tick_toggles(signals, now_ms, c);
        },
    }
}

proof fn lemma_tick_untagged(signals: Seq<SignalView>, now_ms: u64)
    ensures
        after_tick(signals, now_ms).1 == untagged(tagged_tick(signals, now_ms)),
    decreases signals.len(),
{
    if signals.len() == 0 {
        assert(untagged(tagged_tick(signals, now_ms)) =~= Seq::<UpdateView>::empty());
    } else {
        lemma_tick_untagged(signals.drop_last(), now_ms);
        let t = tagged_tick(signals.drop_last(), now_ms);
        assert(untagged(t.push(tagged_stop(signals.last()))) =~= untagged(t).push(
            stopped(signals.last()),
        ));
    }
}

/// Every transition the edge yields is about one conversation: an
/// event's transitions are its tagged transitions, tags dropped.
pub proof fn every_transition_is_one_conversations(signals: Seq<SignalView>, event: ComposingEvent)
    ensures
        after_event(signals, event).1 == untagged(tagged_event(signals, event)),
{
    match event {
        ComposingEvent::SendStarting { conversation_id, channel, now_ms } => {
            assert(after_event(signals, event).1 =~= untagged(tagged_event(signals, event)));
        },
        ComposingEvent::SendDone { conversation_id } => {
            assert(after_event(signals, event).1 =~= untagged(tagged_event(signals, event)));
        },
        ComposingEvent::StreamEnded { conversation_id } => {
            assert(after_event(signals, event).1 =~= untagged(tagged_event(signals, event)));
        },
        ComposingEvent::Lagged => {
            assert(after_event(signals, event).1 =~= untagged(tagged_event(signals, event)));
        },
        ComposingEvent::Tick { now_ms } => {
            lemma_tick_untagged(signals, now_ms);
        },
    }
}

/// Each event changes each conversation's cue at most once: a
/// conversation that opens yields the composing transition on its
/// channel, one that closes yields the stop on the channel it showed on,
/// and one that stays as it was yields nothing and keeps its channel.
pub proof fn each_event_toggles_each_conversation_once(
    signals: Seq<SignalView>,
    event: ComposingEvent,
    conversation_id: i64,
)
    requires
        signals_wf(signals),
    ensures
        signals_wf(after_event(signals, event).0),
        of_conversation(tagged_event(signals, event), conversation_id) == toggle(
            open_channel(signals, conversation_id),
            open_channel(after_event(signals, event).0, conversation_id),
        ),
        same_channel(
            open_channel(signals, conversation_id),
            open_channel(after_event(signals, event).0, conversation_id),
        ),
{
    lemma_event_toggles(signals, event, conversation_id);
}

/// On an edge that starts with nothing open, every conversation's
/// transitions alternate, composing first: the even ones compose and the
/// odd ones stop, each stop goes to the channel the composing transition
/// before it went to, and the conversation is open exactly when its last
/// transition composed, on that transition's channel.
pub proof fn the_cue_alternates_from_composing(events: Seq<ComposingEvent>, conversation_id: i64)
    ensures
        ({
            let (signals, tags) = run(events);
            let seen = of_conversation(tags, conversation_id);
            &&& signals_wf(signals)
            &&& forall|k: int|
                0 <= k < seen.len() ==> #[trigger] seen[k].state == (if k % 2 == 0 {
                    ComposingState::Composing
                } else {
                    ComposingState::Stopped
                })
            &&& forall|k: int|
                0 < k < seen.len() && k % 2 == 1 ==> #[trigger] seen[k].channel == seen[k - 1].channel
            &&& open_channel(signals, conversation_id) == (if seen.len() % 2 == 1 {
                Some(seen.last().channel)
            } else {
                None
            })
        }),
    decreases events.len(),
{
    let c = conversation_id;
    if events.len() == 0 {
        assert(!is_open(Seq::<SignalView>::empty(), c));
    } else {
        the_cue_alternates_from_composing(events.drop_last(), c);
        let (signals, tags) = run(events.drop_last());
        let event = events.last();
        lemma_event_toggles(signals, event, c);
        lemma_of_conversation_append(tags, tagged_event(signals, event), c);
        let before = of_conversation(tags, c);
        let after = after_event(signals, event).0;
        let seen = of_conversation(tags + tagged_event(signals, event), c);
        let step = toggle(open_channel(signals, c), open_channel(after, c));
        assert(seen == before + step);
        match (open_channel(signals, c), open_channel(after, c)) {
            (None, Some(k)) => {
                assert(seen =~= before.push(UpdateView { channel: k, state: ComposingState::Composing }));
                assert(seen.len() == before.len() + 1);
            },
            (Some(k), None) => {
                assert(seen =~= before.push(UpdateView { channel: k, state: ComposingState::Stopped }));
                assert(seen.len() == before.len() + 1);
                assert(before.last().channel == k);
            },
            _ => {
                assert(seen =~= before);
            },
        }
    }
}

} // verus!
