//! The assembly's decisions: the configuration the embedder hands it, and
//! every choice the ingestion entry point takes between its reads and its
//! writes — the channel admission, the writing sender, the summons, the
//! tail a stamp is composed against, the limiting fact, the budgets, the
//! revision reading, the stored row and the command's answer route.

use vstd::prelude::*;

use crate::commands::{family_of, family_spec, Command, PrivacyCommand, RightsCommand, RESET_FLOOR};
use crate::contract::CONTRACT_NOTICE_KIND;
use crate::delivery::{DELIVERED_KIND, RETRACTION_KIND};
use crate::error::CoreError;
use crate::fields::Fields;
use crate::identity::Standing;
use crate::join::JOIN_NOTICE_KIND;
use crate::kind::{chat_row, CHAT_MESSAGE_TABLE, ChatMessage, LimitedBy, RecordedOrigin, RecordedSender, Stamp, Summons, TailDebt};
use crate::message::{Authority, ChannelKind, InboundMessage, IngestOutcome};
use crate::strings::str_eq;

verus! {

/// The read-through kinds this library defines: each is appended by an
/// independent path at an arbitrary moment, so a debt behind a run of them
/// still owes. The withdrawn tool palette stays listed for the history a
/// previous build stored. The walk takes its kind list as an argument, and
/// a caller adds the kinds other parts of the system define.
pub const DEBT_READ_THROUGH: [&'static str; 5] = [
    CONTRACT_NOTICE_KIND,
    "tool_palette",
    JOIN_NOTICE_KIND,
    DELIVERED_KIND,
    RETRACTION_KIND,
];

/// The two tools through which a message reaches the group.
pub const SENDING_TOOLS: [&'static str; 2] = ["send_message", "reply_message"];

/// The most conversations the tool-choice reconciliation memory holds.
pub const CHOICE_MEMORY_CAP: usize = 4096;

/// The model every new conversation is created under.
#[derive(Debug, Clone)]
pub struct ModelBinding {
    /// The provider instance's id, as registered in the store.
    pub provider_instance: String,
    /// The name a human reads for that instance.
    pub provider_display_name: String,
    /// The provider module's type id.
    pub vendor: String,
    /// The provider's own identifier for the model.
    pub model: String,
    /// The name a human reads for the model.
    pub model_display_name: String,
    /// How many tokens the model's context window holds, as configured;
    /// absent keeps both compaction thresholds silent.
    pub context_window: Option<u32>,
}

/// One budget: how many debts may open per window. Both numbers are
/// nonzero in a valid budget — an assistant configured to answer no one,
/// or to count over no time, is a misconfiguration refused at start;
/// disabling a budget is the enclosing `Option`, never a zero.
#[derive(Debug, Clone, Copy, PartialEq, Eq, Structural)]
pub struct Budget {
    /// How many debts may open inside one window.
    pub answers: u32,
    /// How far back the count looks, in whole seconds.
    pub window_seconds: u64,
}

impl Budget {
    /// Whether a budget is one the configuration accepts: some answers, over
    /// some time.
    pub open spec fn valid(self) -> bool {
        self.answers > 0 && self.window_seconds > 0
    }

    /// The budget with these numbers, or `None` when either is zero: the
    /// start refuses a zero answer count and a zero window.
    pub fn new(answers: u32, window_seconds: u64) -> (budget: Option<Budget>)
        ensures
            budget is Some <==> (answers > 0 && window_seconds > 0),
            budget matches Some(b) ==> b == (Budget { answers, window_seconds }) && b.valid(),
    {
        if answers == 0 || window_seconds == 0 {
            None
        } else {
            Some(Budget { answers, window_seconds })
        }
    }
}

/// The answering budgets the entry point enforces at the write; a disabled
/// budget admits every debt.
#[derive(Debug, Clone, Copy, PartialEq, Eq, Structural)]
pub struct ProtectionConfig {
    /// The per-sender budget, counted across conversations.
    pub principal: Option<Budget>,
    /// The per-conversation budget, counted across its senders.
    pub channel: Option<Budget>,
}

impl ProtectionConfig {
    /// Whether every enabled budget is valid.
    pub open spec fn valid(self) -> bool {
        &&& (self.principal matches Some(b) ==> b.valid())
        &&& (self.channel matches Some(b) ==> b.valid())
    }

    /// The default principal budget: answers per window.
    pub const DEFAULT_PRINCIPAL_ANSWERS: u32 = 6;
    /// The default principal window, in seconds.
    pub const DEFAULT_PRINCIPAL_WINDOW_SECONDS: u64 = 600;
    /// The default channel budget: answers per window.
    pub const DEFAULT_CHANNEL_ANSWERS: u32 = 20;
    /// The default channel window, in seconds.
    pub const DEFAULT_CHANNEL_WINDOW_SECONDS: u64 = 600;
}

impl Default for ProtectionConfig {
    fn default() -> (config: ProtectionConfig)
        ensures
            config == (ProtectionConfig {
                principal: Some(Budget { answers: 6, window_seconds: 600 }),
                channel: Some(Budget { answers: 20, window_seconds: 600 }),
            }),
            config.valid(),
    {
        ProtectionConfig {
            principal: Some(
                Budget {
                    answers: ProtectionConfig::DEFAULT_PRINCIPAL_ANSWERS,
                    window_seconds: ProtectionConfig::DEFAULT_PRINCIPAL_WINDOW_SECONDS,
                },
            ),
            channel: Some(
                Budget {
                    answers: ProtectionConfig::DEFAULT_CHANNEL_ANSWERS,
                    window_seconds: ProtectionConfig::DEFAULT_CHANNEL_WINDOW_SECONDS,
                },
            ),
        }
    }
}

/// Who may admit the assistant into a group, per adapter: the operator's
/// external id keyed by adapter name. Absent by default, and then every
/// group add fails closed.
#[derive(Debug, Clone, Default)]
pub struct OperatorConfig {
    /// The operator's adapter-scoped external id, by adapter name.
    pub by_adapter: Vec<(String, String)>,
}

/// The operator configured for an adapter: the first entry naming it.
pub open spec fn operator_spec(entries: Seq<(String, String)>, adapter: Seq<char>) -> Option<Seq<char>>
    decreases entries.len(),
{
    if entries.len() == 0 {
        None
    } else if entries[0].0@ == adapter {
        Some(entries[0].1@)
    } else {
        operator_spec(entries.drop_first(), adapter)
    }
}

/// Whether no adapter is named twice: the table maps each adapter to one
/// operator.
pub open spec fn names_adapters_once(entries: Seq<(String, String)>) -> bool {
    forall|i: int, j: int|
        0 <= i < entries.len() && 0 <= j < entries.len() && i != j ==> #[trigger] entries[i].0@
            != #[trigger] entries[j].0@
}

/// Read as the map it stands for, the operator table answers each adapter
/// it names with that adapter's one operator, and an adapter it does not
/// name with none.
pub proof fn each_named_adapter_has_its_one_operator(
    entries: Seq<(String, String)>,
    adapter: Seq<char>,
)
    requires
        names_adapters_once(entries),
    ensures
        forall|i: int|
            0 <= i < entries.len() && #[trigger] entries[i].0@ == adapter ==> operator_spec(
                entries,
                adapter,
            ) == Some(entries[i].1@),
        (forall|i: int| 0 <= i < entries.len() ==> #[trigger] entries[i].0@ != adapter)
            ==> operator_spec(entries, adapter) is None,
    decreases entries.len(),
{
    if entries.len() > 0 {
        let rest = entries.drop_first();
        assert(names_adapters_once(rest)) by {
            assert forall|i: int, j: int|
                0 <= i < rest.len() && 0 <= j < rest.len() && i != j implies #[trigger] rest[i].0@
                    != #[trigger] rest[j].0@ by {
                assert(rest[i] == entries[i + 1] && rest[j] == entries[j + 1]);
            }
        }
        each_named_adapter_has_its_one_operator(rest, adapter);
        assert forall|i: int|
            0 <= i < entries.len() && #[trigger] entries[i].0@ == adapter implies operator_spec(
                entries,
                adapter,
            ) == Some(entries[i].1@) by {
            if i > 0 {
                assert(entries[0].0@ != entries[i].0@);
                assert(rest[i - 1] == entries[i]);
            }
        }
        if forall|i: int| 0 <= i < entries.len() ==> #[trigger] entries[i].0@ != adapter {
            assert forall|i: int| 0 <= i < rest.len() implies #[trigger] rest[i].0@ != adapter by {
                assert(rest[i] == entries[i + 1]);
            }
        }
    }
}

impl OperatorConfig {
    /// Whether the table names each adapter once, as the map it stands for.
    pub open spec fn valid(&self) -> bool {
        names_adapters_once(self.by_adapter@)
    }

    /// The operator configured for an adapter, if any.
    pub fn operator_for(&self, adapter: &str) -> (operator: Option<&str>)
        ensures
            operator_spec(self.by_adapter@, adapter@) == match operator {
                Some(o) => Some(o@),
                None => None,
            },
    {
        let mut i: usize = 0;
        assert(self.by_adapter@.skip(0) =~= self.by_adapter@);
        while i < self.by_adapter.len()
            invariant
                i <= self.by_adapter@.len(),
                operator_spec(self.by_adapter@, adapter@) == operator_spec(
                    self.by_adapter@.skip(i as int),
                    adapter@,
                ),
            decreases self.by_adapter@.len() - i,
        {
            let ghost rest = self.by_adapter@.skip(i as int);
            assert(rest[0] == self.by_adapter@[i as int]);
            assert(rest.drop_first() =~= self.by_adapter@.skip(i as int + 1));
            if str_eq(self.by_adapter[i].0.as_str(), adapter) {
                return Some(self.by_adapter[i].1.as_str());
            }
            i = i + 1;
        }
        None
    }
}

/// How the assistant decides which group messages summon a turn.
#[derive(Debug, Clone, Copy, PartialEq, Eq, Structural)]
pub enum AnsweringMode {
    /// Every person's group message summons a turn; the model decides
    /// whether to speak.
    Helpful,
    /// A group message summons a turn only when it addresses the
    /// assistant.
    Addressed,
}

impl Default for AnsweringMode {
    fn default() -> (mode: AnsweringMode)
        ensures
            mode == AnsweringMode::Helpful,
    {
        AnsweringMode::Helpful
    }
}

/// Whether the assembly serves direct channels.
#[derive(Debug, Clone, Copy, PartialEq, Eq, Structural)]
pub enum DirectChats {
    /// Direct channels are served.
    On,
    /// Direct channels are refused fail-closed before any write.
    Off,
}

impl Default for DirectChats {
    fn default() -> (chats: DirectChats)
        ensures
            chats == DirectChats::On,
    {
        DirectChats::On
    }
}

/// The texts of a list of strings.
pub open spec fn names_of(strings: Seq<String>) -> Seq<Seq<char>> {
    strings.map_values(|s: String| s@)
}

/// How many times a name occurs in a list.
pub open spec fn occurrences(names: Seq<Seq<char>>, name: Seq<char>) -> nat
    decreases names.len(),
{
    if names.len() == 0 {
        0
    } else {
        occurrences(names.drop_last(), name) + if names.last() == name {
            1nat
        } else {
            0nat
        }
    }
}

/// Whether two lists name the same tools as a set with multiplicity: the
/// order is immaterial, a duplicate is not.
pub open spec fn same_names(a: Seq<Seq<char>>, b: Seq<Seq<char>>) -> bool {
    forall|name: Seq<char>| occurrences(a, name) == occurrences(b, name)
}

proof fn lemma_occurrences_zero(names: Seq<Seq<char>>, name: Seq<char>)
    requires
        forall|i: int| 0 <= i < names.len() ==> names[i] != name,
    ensures
        occurrences(names, name) == 0,
    decreases names.len(),
{
    if names.len() > 0 {
        lemma_occurrences_zero(names.drop_last(), name);
    }
}

fn count(names: &[String], name: &str) -> (n: usize)
    ensures
        n == occurrences(names_of(names@), name@),
{
    let mut n: usize = 0;
    let mut i: usize = 0;
    assert(names_of(names@).subrange(0, 0) =~= Seq::<Seq<char>>::empty());
    while i < names.len()
        invariant
            i <= names@.len(),
            n <= i,
            n == occurrences(names_of(names@).subrange(0, i as int), name@),
        decreases names@.len() - i,
    {
        let ghost prefix = names_of(names@).subrange(0, i as int + 1);
        assert(prefix.drop_last() =~= names_of(names@).subrange(0, i as int));
        assert(prefix.last() == names@[i as int]@);
        if str_eq(names[i].as_str(), name) {
            n = n + 1;
        }
        i = i + 1;
    }
    assert(names_of(names@).subrange(0, i as int) =~= names_of(names@));
    n
}

fn counts_agree(from: &[String], a: &[String], b: &[String]) -> (agree: bool)
    ensures
        agree == forall|i: int|
            0 <= i < from@.len() ==> occurrences(names_of(a@), #[trigger] from@[i]@) == occurrences(
                names_of(b@),
                from@[i]@,
            ),
{
    let mut i: usize = 0;
    while i < from.len()
        invariant
            i <= from@.len(),
            forall|j: int|
                0 <= j < i ==> occurrences(names_of(a@), #[trigger] from@[j]@) == occurrences(
                    names_of(b@),
                    from@[j]@,
                ),
        decreases from@.len() - i,
    {
        if count(a, from[i].as_str()) != count(b, from[i].as_str()) {
            return false;
        }
        i = i + 1;
    }
    true
}

/// Whether a recorded tool choice names the registered set, read as a set
/// with multiplicity and not as a sequence: a permutation is the same set,
/// and a name recorded twice differs from a set that names it once.
pub fn names_the_same_set(recorded: &[String], registered: &[String]) -> (same: bool)
    ensures
        same == same_names(names_of(recorded@), names_of(registered@)),
{
    let forward = counts_agree(recorded, recorded, registered);
    let backward = counts_agree(registered, recorded, registered);
    proof {
        if forward && backward {
            assert forall|name: Seq<char>| occurrences(names_of(recorded@), name) == occurrences(
                names_of(registered@),
                name,
            ) by {
                if exists|i: int| 0 <= i < recorded@.len() && recorded@[i]@ == name {
                    let i = choose|i: int| 0 <= i < recorded@.len() && recorded@[i]@ == name;
                    assert(occurrences(names_of(recorded@), recorded@[i]@) == occurrences(
                        names_of(registered@),
                        recorded@[i]@,
                    ));
                } else if exists|i: int| 0 <= i < registered@.len() && registered@[i]@ == name {
                    let i = choose|i: int| 0 <= i < registered@.len() && registered@[i]@ == name;
                    assert(occurrences(names_of(recorded@), registered@[i]@) == occurrences(
                        names_of(registered@),
                        registered@[i]@,
                    ));
                } else {
                    assert forall|i: int| 0 <= i < names_of(recorded@).len() implies names_of(
                        recorded@,
                    )[i] != name by {
                        assert(names_of(recorded@)[i] == recorded@[i]@);
                    }
                    assert forall|i: int| 0 <= i < names_of(registered@).len() implies names_of(
                        registered@,
                    )[i] != name by {
                        assert(names_of(registered@)[i] == registered@[i]@);
                    }
                    lemma_occurrences_zero(names_of(recorded@), name);
                    lemma_occurrences_zero(names_of(registered@), name);
                }
            }
        }
    }
    forward && backward
}

/// Whether a list names a tool.
pub open spec fn names_tool(names: Seq<Seq<char>>, tool: Seq<char>) -> bool {
    exists|i: int| 0 <= i < names.len() && names[i] == tool
}

fn names_one(recorded: &[String], tool: &str) -> (named: bool)
    ensures
        named == names_tool(names_of(recorded@), tool@),
{
    let mut i: usize = 0;
    while i < recorded.len()
        invariant
            i <= recorded@.len(),
            forall|j: int| 0 <= j < i ==> names_of(recorded@)[j] != tool@,
        decreases recorded@.len() - i,
    {
        if str_eq(recorded[i].as_str(), tool) {
            assert(names_of(recorded@)[i as int] == tool@);
            return true;
        }
        i = i + 1;
    }
    false
}

/// Whether a recorded tool choice already names both sending tools: such a
/// conversation already ran under the contract where a message reaches the
/// group only when it is sent.
pub fn names_the_sending_tools(recorded: &[String]) -> (named: bool)
    ensures
        named == (names_tool(names_of(recorded@), SENDING_TOOLS[0]@) && names_tool(
            names_of(recorded@),
            SENDING_TOOLS[1]@,
        )),
{
    names_one(recorded, SENDING_TOOLS[0]) && names_one(recorded, SENDING_TOOLS[1])
}

/// The summons a message resolves to: it summons the assistant when it
/// addressed it, or, under helpful answering, when a person sent it; the
/// literal addressed fact rides beside it untouched.
pub open spec fn summons_spec(answering: AnsweringMode, addressed: bool, bot: bool) -> Summons {
    Summons {
        summoned: addressed || (answering == AnsweringMode::Helpful && !bot),
        literal_addressed: addressed,
    }
}

/// The summons resolution — the one place the answering mode enters the
/// machinery. A bot is summoned only when it addressed the assistant.
pub fn resolved_summons(answering: AnsweringMode, message: &InboundMessage) -> (summons: Summons)
    ensures
        summons == summons_spec(answering, message.addressed, message.sender.bot),
{
    let helpful = match answering {
        AnsweringMode::Helpful => true,
        AnsweringMode::Addressed => false,
    };
    Summons { summoned: message.addressed || (helpful && !message.sender.bot), literal_addressed: message.addressed }
}

/// Addressing the assistant always summons it: a message that addresses
/// the assistant is summoned under every answering mode and from every
/// sender. Beyond that, a person's message is summoned under helpful
/// answering whether or not it addresses the assistant, and nothing else
/// is summoned — a bot only by addressing, anyone under the addressed mode
/// only by addressing. The literal addressed fact is carried unchanged.
pub proof fn addressing_the_assistant_always_summons(
    answering: AnsweringMode,
    addressed: bool,
    bot: bool,
)
    ensures
        addressed ==> summons_spec(answering, addressed, bot).summoned,
        answering == AnsweringMode::Helpful && !bot ==> summons_spec(answering, addressed, bot).summoned,
        bot ==> (summons_spec(answering, addressed, bot).summoned <==> addressed),
        answering == AnsweringMode::Addressed ==> (summons_spec(answering, addressed, bot).summoned
            <==> addressed),
        summons_spec(answering, addressed, bot).literal_addressed == addressed,
{
}

/// The tail a stamp is composed against: the conversation's owing tail,
/// withheld from an unsummoned bot's message, which must trigger nothing.
pub fn tail_for_stamp(bot: bool, summons: Summons, owing: Option<TailDebt>) -> (tail: Option<TailDebt>)
    ensures
        tail == (if bot && !summons.summoned {
            None
        } else {
            owing
        }),
{
    if bot && !summons.summoned {
        None
    } else {
        owing
    }
}

/// Whether the write must consult the budgets: only a summoned message
/// that is no command.
pub fn consults_budgets(commanded: bool, summons: Summons) -> (consults: bool)
    ensures
        consults == (!commanded && summons.summoned),
{
    !commanded && summons.summoned
}

/// Which fact limited this write's own debt: any recognized command takes
/// none; a summoned message is limited by the first refusing budget; an
/// unsummoned one by nothing.
pub fn limiting_fact(commanded: bool, summons: Summons, refusing: Option<LimitedBy>) -> (limited: Option<LimitedBy>)
    ensures
        limited == (if commanded {
            Some(LimitedBy::Command)
        } else if summons.summoned {
            refusing
        } else {
            None
        }),
{
    if commanded {
        Some(LimitedBy::Command)
    } else if summons.summoned {
        refusing
    } else {
        None
    }
}

/// Whether one budget refuses: enabled, and its window already holds as
/// many opened debts as it admits.
pub open spec fn budget_refuses(budget: Option<Budget>, opened: int) -> bool {
    budget matches Some(b) && opened >= b.answers
}

/// The first budget refusing a message's own debt, principal before
/// channel, or `None` when every enabled budget admits it.
pub open spec fn refusing_budget_spec(protection: ProtectionConfig, principal_opened: int, channel_opened: int) -> Option<
    LimitedBy,
> {
    if budget_refuses(protection.principal, principal_opened) {
        Some(LimitedBy::Principal)
    } else if budget_refuses(protection.channel, channel_opened) {
        Some(LimitedBy::Channel)
    } else {
        None
    }
}

/// The first budget refusing a message's own debt, from the counts of
/// debts opened inside each budget's window: the sender's across every
/// conversation, and the conversation's across every sender.
pub fn refusing_budget(protection: &ProtectionConfig, principal_opened: i64, channel_opened: i64) -> (refusing: Option<LimitedBy>)
    requires
        protection.valid(),
    ensures
        refusing == refusing_budget_spec(*protection, principal_opened as int, channel_opened as int),
{
    match protection.principal {
        Some(budget) => {
            if principal_opened >= budget.answers as i64 {
                return Some(LimitedBy::Principal);
            }
        },
        None => {},
    }
    match protection.channel {
        Some(budget) => {
            if channel_opened >= budget.answers as i64 {
                return Some(LimitedBy::Channel);
            }
        },
        None => {},
    }
    None
}

/// The channel admission ahead of any write: a channel mapped as the other
/// kind is refused terminally first; an unauthorized group is told to
/// withdraw; a direct channel with direct chats off is disregarded; any
/// other channel is admitted.
pub open spec fn admission_spec(
    stored: Option<ChannelKind>,
    claimed: ChannelKind,
    authorized: bool,
    direct_chats: DirectChats,
) -> Result<Option<IngestOutcome>, CoreError> {
    if stored matches Some(s) && s != claimed {
        Err(CoreError::ChannelKindMismatch { stored: stored.unwrap(), claimed })
    } else if claimed == ChannelKind::Group && !authorized {
        Ok(Some(IngestOutcome::Withdraw))
    } else if claimed == ChannelKind::Direct && direct_chats == DirectChats::Off {
        Ok(Some(IngestOutcome::Disregarded))
    } else {
        Ok(None)
    }
}

/// The channel admission, from the mapping's stored kind, the kind the
/// message claims, whether the group is authorized (read for groups only),
/// and the direct-chat switch: the refusal, if any.
pub fn admit_channel(
    stored: Option<ChannelKind>,
    claimed: ChannelKind,
    authorized: bool,
    direct_chats: DirectChats,
) -> (admitted: Result<Option<IngestOutcome>, CoreError>)
    ensures
        admitted == admission_spec(stored, claimed, authorized, direct_chats),
{
    match stored {
        Some(s) => {
            if s != claimed {
                return Err(CoreError::ChannelKindMismatch { stored: s, claimed });
            }
        },
        None => {},
    }
    match claimed {
        ChannelKind::Group => {
            if !authorized {
                return Ok(Some(IngestOutcome::Withdraw));
            }
        },
        ChannelKind::Direct => {
            match direct_chats {
                DirectChats::Off => return Ok(Some(IngestOutcome::Disregarded)),
                DirectChats::On => {},
            }
        },
    }
    Ok(None)
}

/// Where the writing path takes the sender's principal from.
#[derive(Debug, Clone, Copy, PartialEq, Eq, Structural)]
pub enum PrincipalSource {
    /// The read-only standing: an opted-out sender's exempt command is
    /// recorded under the principal it already has, with nothing written.
    Standing(i64),
    /// The resolving lookup, which creates or refreshes the principal row.
    Resolve,
}

/// What the writing path knows about an admitted sender.
#[derive(Debug, Clone, Copy, PartialEq, Eq, Structural)]
pub struct WritingSender {
    /// Where the principal comes from.
    pub principal: PrincipalSource,
    /// The delivered authority.
    pub authority: Authority,
    /// The catalogue command the message invokes, if any.
    pub command: Option<Command>,
    /// The privacy family member the command projects to, if any.
    pub family: Option<PrivacyCommand>,
    /// Whether the sender's suppression flag stands: only ever true on an
    /// exempt command.
    pub suppressed: bool,
}

/// The family a recognized command projects to.
pub open spec fn command_family(command: Option<Command>) -> Option<PrivacyCommand> {
    match command {
        Some(c) => family_spec(c),
        None => None,
    }
}

/// The writing resolution: a suppressed sender is disregarded unless the
/// message exercises a privacy right; an unresolved authority is refused;
/// an opted-out sender's exempt command keeps its stored principal, and
/// everyone else is resolved.
pub open spec fn writing_sender_spec(
    standing: Option<Standing>,
    command: Option<Command>,
    authority: Option<Authority>,
) -> Result<Option<WritingSender>, CoreError> {
    let suppressed = standing matches Some(s) && s.opted_out;
    let family = command_family(command);
    if suppressed && family is None {
        Ok(None)
    } else {
        match authority {
            None => Err(CoreError::AuthorityUnresolved),
            Some(a) => Ok(
                Some(
                    WritingSender {
                        principal: if suppressed {
                            PrincipalSource::Standing(standing.unwrap().principal_id)
                        } else {
                            PrincipalSource::Resolve
                        },
                        authority: a,
                        command,
                        family,
                        suppressed,
                    },
                ),
            ),
        }
    }
}

/// The suppression check and the writing resolution, in their order: the
/// read-only standing first, then the privacy family, then the drop, then
/// the authority the write needs.
pub fn writing_sender(
    standing: Option<Standing>,
    command: Option<Command>,
    authority: Option<Authority>,
) -> (sender: Result<Option<WritingSender>, CoreError>)
    ensures
        sender == writing_sender_spec(standing, command, authority),
{
    let suppressed = match standing {
        Some(s) => s.opted_out,
        None => false,
    };
    let family = match command {
        Some(c) => family_of(c),
        None => None,
    };
    if suppressed && family.is_none() {
        return Ok(None);
    }
    let authority = match authority {
        Some(a) => a,
        None => return Err(CoreError::AuthorityUnresolved),
    };
    let principal = match standing {
        Some(s) => if s.opted_out {
            PrincipalSource::Standing(s.principal_id)
        } else {
            PrincipalSource::Resolve
        },
        None => PrincipalSource::Resolve,
    };
    Ok(Some(WritingSender { principal, authority, command, family, suppressed }))
}

/// Whether a recorded row keeps the revision reference the adapter
/// reported.
#[derive(Debug, Clone, Copy, PartialEq, Eq, Structural)]
pub enum RevisionLink {
    /// Stored as reported; every ordinary message reads this way too.
    Kept,
    /// Not stored: the reviser is not the author of the stored version.
    Dropped,
}

/// What the stamp lock's own reading decides for a write.
#[derive(Debug, Clone, Copy, PartialEq, Eq, Structural)]
pub enum UnderLock {
    /// Nothing written, nothing delivered, the update acknowledged.
    Disregarded,
    /// The write proceeds, storing the revision reference this says.
    Recorded(RevisionLink),
}

/// The newest recorded version of a revised message.
#[derive(Debug, Clone, PartialEq, Eq)]
pub struct RecordedVersion {
    /// Its stored text.
    pub text: String,
    /// Its author.
    pub principal_id: i64,
}

/// The revision reading: an ordinary message records as ever; a revision
/// of a message the store holds no version of is dropped (the erasure
/// guard) unless it exercises a right; a revision of somebody else's
/// message records unlinked; a redelivery of the stored text is dropped
/// unless it exercises a right; anything else records linked.
pub open spec fn revision_spec(
    revises: bool,
    newest: Option<(Seq<char>, i64)>,
    exempt: bool,
    reviser: i64,
    text: Seq<char>,
) -> UnderLock {
    if !revises {
        UnderLock::Recorded(RevisionLink::Kept)
    } else {
        match newest {
            None => if exempt {
                UnderLock::Recorded(RevisionLink::Kept)
            } else {
                UnderLock::Disregarded
            },
            Some((stored, author)) => if author != reviser {
                UnderLock::Recorded(RevisionLink::Dropped)
            } else if !exempt && stored == text {
                UnderLock::Disregarded
            } else {
                UnderLock::Recorded(RevisionLink::Kept)
            },
        }
    }
}

/// The under-lock reading: the suppression re-read first, for every
/// message outside the privacy family, then the revision reading.
pub open spec fn under_lock_spec(
    family: Option<PrivacyCommand>,
    suppressed_now: bool,
    revises: bool,
    newest: Option<(Seq<char>, i64)>,
    reviser: i64,
    text: Seq<char>,
) -> UnderLock {
    if family is None && suppressed_now {
        UnderLock::Disregarded
    } else {
        revision_spec(revises, newest, family is Some, reviser, text)
    }
}

/// What the stamp lock's own reading decides: disregarded, or recorded
/// with or without the revision reference. `newest` is the newest recorded
/// version of the message a revision names, read only for a revision.
pub fn under_lock_reading(
    family: Option<PrivacyCommand>,
    suppressed_now: bool,
    revises: bool,
    newest: Option<&RecordedVersion>,
    reviser: i64,
    text: &str,
) -> (reading: UnderLock)
    ensures
        reading == under_lock_spec(
            family,
            suppressed_now,
            revises,
            match newest {
                Some(v) => Some((v.text@, v.principal_id)),
                None => None,
            },
            reviser,
            text@,
        ),
{
    let exempt = family.is_some();
    if !exempt && suppressed_now {
        return UnderLock::Disregarded;
    }
    if !revises {
        return UnderLock::Recorded(RevisionLink::Kept);
    }
    match newest {
        None => if exempt {
            UnderLock::Recorded(RevisionLink::Kept)
        } else {
            UnderLock::Disregarded
        },
        Some(version) => {
            if version.principal_id != reviser {
                UnderLock::Recorded(RevisionLink::Dropped)
            } else if !exempt && str_eq(version.text.as_str(), text) {
                UnderLock::Disregarded
            } else {
                UnderLock::Recorded(RevisionLink::Kept)
            }
        },
    }
}

/// The stored row one ingested message becomes: its text, the sender's
/// facts — no speaker for a suppressed sender's exempt command — the
/// platform identifiers, the revision reference only where the reading
/// kept the link, the reply fact, the send time and the composed stamp.
pub fn recorded_fields(
    message: &InboundMessage,
    principal_id: i64,
    authority: Authority,
    suppressed: bool,
    stamp: Stamp,
    link: RevisionLink,
) -> (fields: Fields)
    ensures
        fields.view() == chat_row(
            message.text@,
            principal_id,
            authority,
            if suppressed {
                None
            } else {
                match message.sender.username {
                    Some(u) => Some(u@),
                    None => None,
                }
            },
            match message.origin {
                Some(o) => Some(o@),
                None => None,
            },
            match (link, message.revises) {
                (RevisionLink::Kept, Some(r)) => Some(r@),
                _ => None,
            },
            message.reply_target,
            message.timestamp.text(),
            stamp,
        ),
{
    let speaker = if suppressed {
        None
    } else {
        match &message.sender.username {
            Some(u) => Some(u.as_str()),
            None => None,
        }
    };
    let origin = match &message.origin {
        Some(o) => Some(o.as_str()),
        None => None,
    };
    let revises = match (link, &message.revises) {
        (RevisionLink::Kept, Some(r)) => Some(r.as_str()),
        _ => None,
    };
    let sent_at = message.timestamp.to_rfc3339();
    ChatMessage::stored_fields(
        message.text.as_str(),
        RecordedSender { principal_id, authority, speaker },
        RecordedOrigin { origin, revises },
        match &message.reply_target {
            Some(t) => Some(t),
            None => None,
        },
        sent_at.as_str(),
        stamp,
    )
}

/// Whether the notice command is answered at all: only while every budget
/// admits its sender.
pub fn notice_admitted(family: Option<PrivacyCommand>, refusing: Option<LimitedBy>) -> (admitted: bool)
    ensures
        admitted == (family == Some(PrivacyCommand::Notice) && refusing is None),
{
    match family {
        Some(PrivacyCommand::Notice) => refusing.is_none(),
        _ => false,
    }
}

/// Which mechanism answers a recorded command.
#[derive(Debug, Clone, Copy, PartialEq, Eq, Structural)]
pub enum AnswerRoute {
    /// The moderation bot's deletion resolved a retraction: its fork and
    /// its directive answer.
    Retraction,
    /// The session starts over, empty.
    Wipe,
    /// The session is compacted, past the ingestion's holds.
    Compact,
    /// The policy pointer, on the channel's own window.
    Notice,
    /// A self-service right, on the person's own window.
    Rights(RightsCommand),
    /// Nothing is said.
    Silent,
}

/// The answer route: a resolved retraction answers first; a command not
/// offered to this sender in this kind of channel is answered with
/// silence; the resets take their own mechanisms; the notice answers only
/// when admitted; the rights take the per-person path.
pub open spec fn answer_route_spec(
    retraction: bool,
    command: Option<Command>,
    channel: ChannelKind,
    authority: Authority,
    notice_admitted: bool,
) -> AnswerRoute {
    if retraction {
        AnswerRoute::Retraction
    } else {
        match command {
            Some(c) => if !c.offered_spec(channel, authority) {
                AnswerRoute::Silent
            } else {
                match c {
                    Command::Wipe => AnswerRoute::Wipe,
                    Command::Compact => AnswerRoute::Compact,
                    _ => match family_spec(c) {
                        Some(PrivacyCommand::Notice) => if notice_admitted {
                            AnswerRoute::Notice
                        } else {
                            AnswerRoute::Silent
                        },
                        Some(PrivacyCommand::SelfService(r)) => AnswerRoute::Rights(r),
                        None => AnswerRoute::Silent,
                    },
                }
            },
            None => AnswerRoute::Silent,
        }
    }
}

/// Each privacy right is answered as the right its command names, wherever
/// and by whomever it is sent: `/privacyout` raises the opt-out,
/// `/unblockprivacy` clears it, `/privacydelete` asks for deletion and
/// `/confirmdelete` confirms it — each right comes from exactly its own
/// command, and a command whose privacy family is a right is answered as
/// that right.
pub proof fn each_right_is_answered_as_itself(
    command: Command,
    channel: ChannelKind,
    authority: Authority,
    notice_admitted: bool,
)
    ensures
        answer_route_spec(false, Some(command), channel, authority, notice_admitted)
            == AnswerRoute::Rights(RightsCommand::OptOut) <==> command == Command::PrivacyOut,
        answer_route_spec(false, Some(command), channel, authority, notice_admitted)
            == AnswerRoute::Rights(RightsCommand::OptIn) <==> command == Command::PrivacyIn,
        answer_route_spec(false, Some(command), channel, authority, notice_admitted)
            == AnswerRoute::Rights(RightsCommand::Delete) <==> command == Command::PrivacyDelete,
        answer_route_spec(false, Some(command), channel, authority, notice_admitted)
            == AnswerRoute::Rights(RightsCommand::Confirm) <==> command == Command::ConfirmDelete,
        family_spec(command) matches Some(PrivacyCommand::SelfService(r)) ==> answer_route_spec(
            false,
            Some(command),
            channel,
            authority,
            notice_admitted,
        ) == AnswerRoute::Rights(r),
{
}

/// Each command takes its own route: a resolved retraction answers first
/// whatever the command; otherwise a command not offered here to this
/// sender is answered with silence, `/wipe` wipes and `/compact` compacts
/// where they are offered, `/privacy` answers the notice exactly when the
/// notice is admitted, and a message that invokes no command is answered
/// with silence.
pub proof fn each_command_takes_its_own_route(
    command: Option<Command>,
    channel: ChannelKind,
    authority: Authority,
    notice_admitted: bool,
)
    ensures
        answer_route_spec(true, command, channel, authority, notice_admitted) == AnswerRoute::Retraction,
        command is None ==> answer_route_spec(false, command, channel, authority, notice_admitted)
            == AnswerRoute::Silent,
        command matches Some(c) && !c.offered_spec(channel, authority) ==> answer_route_spec(
            false,
            command,
            channel,
            authority,
            notice_admitted,
        ) == AnswerRoute::Silent,
        command == Some(Command::Wipe) && channel == ChannelKind::Group && authority.rank()
            >= RESET_FLOOR.rank() ==> answer_route_spec(false, command, channel, authority, notice_admitted)
            == AnswerRoute::Wipe,
        command == Some(Command::Compact) && channel == ChannelKind::Group && authority.rank()
            >= RESET_FLOOR.rank() ==> answer_route_spec(false, command, channel, authority, notice_admitted)
            == AnswerRoute::Compact,
        command == Some(Command::Privacy) ==> (answer_route_spec(
            false,
            command,
            channel,
            authority,
            notice_admitted,
        ) == AnswerRoute::Notice <==> notice_admitted),
        command == Some(Command::Privacy) && !notice_admitted ==> answer_route_spec(
            false,
            command,
            channel,
            authority,
            notice_admitted,
        ) == AnswerRoute::Silent,
{
}

/// Which mechanism answers one recorded command, decided after its row
/// stands.
pub fn answer_route(
    retraction: bool,
    command: Option<Command>,
    channel: ChannelKind,
    authority: Authority,
    notice_admitted: bool,
) -> (route: AnswerRoute)
    ensures
        route == answer_route_spec(retraction, command, channel, authority, notice_admitted),
{
    if retraction {
        return AnswerRoute::Retraction;
    }
    match command {
        Some(c) => {
            if !c.offered(channel, authority) {
                return AnswerRoute::Silent;
            }
            match c {
                Command::Wipe => AnswerRoute::Wipe,
                Command::Compact => AnswerRoute::Compact,
                _ => match family_of(c) {
                    Some(PrivacyCommand::Notice) => if notice_admitted {
                        AnswerRoute::Notice
                    } else {
                        AnswerRoute::Silent
                    },
                    Some(PrivacyCommand::SelfService(r)) => AnswerRoute::Rights(r),
                    None => AnswerRoute::Silent,
                },
            }
        },
        None => AnswerRoute::Silent,
    }
}

/// The tail a stamp is composed against, as a mathematical value.
pub open spec fn stamp_tail_spec(bot: bool, summons: Summons, owing: Option<TailDebt>) -> Option<TailDebt> {
    if bot && !summons.summoned {
        None
    } else {
        owing
    }
}

/// A bot's message that does not address the assistant triggers nothing,
/// under either answering mode and whatever the conversation owes: its row
/// is stamped owing nothing and carrying no debt, and the debt behind it
/// stays for the next message entitled to carry it.
pub proof fn an_unaddressed_bot_message_opens_no_turn(
    answering: AnsweringMode,
    sender: Authority,
    limited: Option<LimitedBy>,
    owing: Option<TailDebt>,
)
    ensures
        ({
            let summons = summons_spec(answering, false, true);
            let stamp = crate::kind::composed_stamp(
                summons,
                sender,
                limited,
                stamp_tail_spec(true, summons, owing),
            );
            !stamp.answer_due && stamp.debt_authority is None
        }),
{
}

/// A recognized command opens no debt of its own, whoever sent it and
/// however they addressed the assistant — and it never cancels a debt the
/// conversation already owes, which it carries on.
pub proof fn a_command_takes_no_debt_but_carries_one(
    summons: Summons,
    sender: Authority,
    owing: Option<TailDebt>,
)
    ensures
        ({
            let limited = Some(LimitedBy::Command);
            let stamp = crate::kind::composed_stamp(summons, sender, limited, owing);
            &&& !stamp.own_debt_taken_spec()
            &&& stamp.answer_due == (owing is Some)
        }),
{
}

/// A channel mapped as the other kind is refused before anything else is
/// looked at, and terminally.
pub proof fn a_kind_mismatch_is_refused_first(
    stored: ChannelKind,
    claimed: ChannelKind,
    authorized: bool,
    direct_chats: DirectChats,
)
    requires
        stored != claimed,
    ensures
        admission_spec(Some(stored), claimed, authorized, direct_chats) == Err::<Option<IngestOutcome>, CoreError>(
            CoreError::ChannelKindMismatch { stored, claimed },
        ),
        crate::error::failure_kind_spec(CoreError::ChannelKindMismatch { stored, claimed })
            == crate::error::FailureKind::Terminal,
{
}

/// A suppressed sender is heard only through a privacy right: any other
/// message is disregarded, and an exempt command is recorded under the
/// principal the standing already names, with nothing resolved or written.
pub proof fn a_suppressed_sender_is_heard_only_through_a_right(
    principal_id: i64,
    command: Option<Command>,
    authority: Authority,
)
    ensures
        ({
            let standing = Some(Standing { principal_id, opted_out: true });
            &&& command_family(command) is None ==> writing_sender_spec(standing, command, Some(authority))
                == Ok::<Option<WritingSender>, CoreError>(None)
            &&& command_family(command) is Some ==> (writing_sender_spec(
                standing,
                command,
                Some(authority),
            ) matches Ok(Some(sender)) && sender.principal == PrincipalSource::Standing(principal_id)
                && sender.suppressed)
        }),
{
}

/// An edit never resurrects an erased message: a revision naming a message
/// the store holds no version of records nothing, unless it exercises a
/// privacy right.
pub proof fn an_erased_message_is_never_resurrected_by_an_edit(
    family: Option<PrivacyCommand>,
    reviser: i64,
    text: Seq<char>,
)
    requires
        family is None,
    ensures
        under_lock_spec(family, false, true, None, reviser, text) == UnderLock::Disregarded,
{
}

/// Reading a tool choice as a set with multiplicity is symmetric: which
/// side was recorded and which registered does not matter.
pub proof fn the_same_set_reads_both_ways(a: Seq<Seq<char>>, b: Seq<Seq<char>>)
    ensures
        same_names(a, b) == same_names(b, a),
        same_names(a, a),
{
    if same_names(a, b) {
        assert forall|name: Seq<char>| occurrences(b, name) == occurrences(a, name) by {
            assert(occurrences(a, name) == occurrences(b, name));
        }
    }
    if same_names(b, a) {
        assert forall|name: Seq<char>| occurrences(a, name) == occurrences(b, name) by {
            assert(occurrences(b, name) == occurrences(a, name));
        }
    }
}

/// The wiring the assembly refuses to start without: the store must carry
/// the message kind's content table, and a registered provider module must
/// answer to the binding's vendor — checked in that order.
pub fn wiring_refusal(has_message_table: bool, vendor_registered: bool, vendor: &str) -> (refusal: Option<CoreError>)
    ensures
        refusal is None <==> (has_message_table && vendor_registered),
        !has_message_table ==> (refusal matches Some(CoreError::MissingContentTable { table }) && table@
            == CHAT_MESSAGE_TABLE@),
        has_message_table && !vendor_registered ==> (refusal matches Some(
            CoreError::UnknownVendor { vendor: named },
        ) && named@ == vendor@),
{
    if !has_message_table {
        Some(CoreError::MissingContentTable { table: CHAT_MESSAGE_TABLE.to_owned() })
    } else if !vendor_registered {
        Some(CoreError::UnknownVendor { vendor: vendor.to_owned() })
    } else {
        None
    }
}

/// What the tool-choice reconciliation does for one conversation.
#[derive(Debug, Clone, Copy, PartialEq, Eq, Structural)]
pub struct ChoiceReconciliation {
    /// Whether a fresh choice naming the registered set is appended.
    pub supersede: bool,
    /// Whether the contract notice is appended ahead of it, unless the
    /// conversation already holds one.
    pub notice_unless_held: bool,
}

/// The reconciliation: a conversation whose newest choice already names the
/// registered set is current; any other is superseded — one carrying no
/// choice at all included — and one whose prior choice existed without both
/// sending tools crossed into the sending contract and is told so.
pub fn reconcile_choice(recorded: Option<&[String]>, registered: &[String]) -> (step: ChoiceReconciliation)
    ensures
        step.supersede == match recorded {
            Some(names) => !same_names(names_of(names@), names_of(registered@)),
            None => true,
        },
        step.notice_unless_held == match recorded {
            Some(names) => !same_names(names_of(names@), names_of(registered@)) && !(names_tool(
                names_of(names@),
                SENDING_TOOLS[0]@,
            ) && names_tool(names_of(names@), SENDING_TOOLS[1]@)),
            None => false,
        },
{
    match recorded {
        Some(names) => {
            let current = names_the_same_set(names, registered);
            let crossed = !names_the_sending_tools(names);
            ChoiceReconciliation { supersede: !current, notice_unless_held: !current && crossed }
        },
        None => ChoiceReconciliation { supersede: true, notice_unless_held: false },
    }
}

/// The conversations whose tool choice this process already reconciled;
/// past the cap the memory is cleared whole.
#[derive(Debug)]
pub struct ReconciledMemory {
    seen: Vec<i64>,
}

impl ReconciledMemory {
    /// The remembered conversations.
    pub closed spec fn view(&self) -> Set<i64> {
        self.seen@.to_set()
    }

    /// How many conversations are remembered.
    pub closed spec fn size(&self) -> nat {
        self.seen@.len()
    }

    /// Each conversation is remembered once, and the memory never holds
    /// more than the cap.
    #[verifier::type_invariant]
    closed spec fn wf(&self) -> bool {
        &&& self.seen@.len() <= CHOICE_MEMORY_CAP
        &&& self.seen@.no_duplicates()
    }

    /// A memory holding nothing.
    pub fn new() -> (memory: ReconciledMemory)
        ensures
            memory.view() == Set::<i64>::empty(),
            memory.size() == 0,
    {
        let memory = ReconciledMemory { seen: Vec::new() };
        assert(memory.seen@.to_set() =~= Set::<i64>::empty());
        memory
    }

    /// Whether a conversation was already reconciled.
    pub fn contains(&self, conversation_id: i64) -> (seen: bool)
        ensures
            seen == self.view().contains(conversation_id),
    {
        let mut i: usize = 0;
        while i < self.seen.len()
            invariant
                i <= self.seen@.len(),
                forall|j: int| 0 <= j < i ==> self.seen@[j] != conversation_id,
            decreases self.seen@.len() - i,
        {
            if self.seen[i] == conversation_id {
                assert(self.seen@[i as int] == conversation_id);
                return true;
            }
            i = i + 1;
        }
        false
    }

    /// Remember a reconciled conversation, clearing the whole memory first
    /// when it reached its cap.
    pub fn remember(&mut self, conversation_id: i64)
        ensures
            final(self).view() == (if old(self).size() >= CHOICE_MEMORY_CAP {
                Set::<i64>::empty()
            } else {
                old(self).view()
            }).insert(conversation_id),
            final(self).size() <= CHOICE_MEMORY_CAP,
            final(self).size() == final(self).view().len(),
    {
        proof {
            use_type_invariant(&*self);
        }
        let mut seen: Vec<i64> = Vec::new();
        std::mem::swap(&mut seen, &mut self.seen);
        let ghost before = seen@;
        if seen.len() >= CHOICE_MEMORY_CAP {
            seen = Vec::new();
        }
        let ghost kept = seen@;
        assert(kept.to_set() =~= (if before.len() >= CHOICE_MEMORY_CAP {
            Set::<i64>::empty()
        } else {
            before.to_set()
        }));
        let mut i: usize = 0;
        let mut present = false;
        while i < seen.len()
            invariant
                seen@ == kept,
                i <= kept.len(),
                present == (exists|j: int| 0 <= j < i && kept[j] == conversation_id),
            decreases kept.len() - i,
        {
            if seen[i] == conversation_id {
                present = true;
            }
            i = i + 1;
        }
        if !present {
            seen.push(conversation_id);
            proof {
                assert(seen@.to_set() =~= kept.to_set().insert(conversation_id)) by {
                    assert forall|x: i64| seen@.to_set().contains(x) <==> kept.to_set().insert(conversation_id).contains(x) by {
                        if x == conversation_id {
                            assert(seen@[seen@.len() - 1] == x);
                        } else if kept.contains(x) {
                            let j = choose|j: int| 0 <= j < kept.len() && kept[j] == x;
                            assert(seen@[j] == x);
                        } else if seen@.contains(x) {
                            let j = choose|j: int| 0 <= j < seen@.len() && seen@[j] == x;
                            assert(j < kept.len());
                            assert(kept[j] == x);
                        }
                    }
                }
                assert(seen@.no_duplicates()) by {
                    assert forall|a: int, b: int| 0 <= a < seen@.len() && 0 <= b < seen@.len() && a != b implies seen@[a] != seen@[b] by {
                        if a < kept.len() && b < kept.len() {
                        } else if a < kept.len() {
                            assert(kept[a] != conversation_id);
                        } else {
                            assert(kept[b] != conversation_id);
                        }
                    }
                }
            }
        } else {
            proof {
                let j = choose|j: int| 0 <= j < kept.len() && kept[j] == conversation_id;
                assert(kept.contains(conversation_id));
                assert(kept.to_set().insert(conversation_id) =~= kept.to_set());
            }
        }
        proof {
            seen@.unique_seq_to_set();
        }
        self.seen = seen;
    }
}

/// Which rows a retired channel's successor inherits.
#[derive(Debug, Clone, Copy, PartialEq, Eq, Structural)]
pub enum InheritedRows {
    /// Every row past this one: the prompt is the head and stays behind.
    After(i64),
    /// Every row up to and including this one.
    UpTo(i64),
}

/// Whether a mapped channel's conversation is retired, and what its
/// successor inherits: a conversation whose recorded prompt is the current
/// wording, at its head, under the current model keeps serving; any other
/// forks — past its head prompt, up to the row before a prompt further in,
/// or whole when it has no prompt — unless it holds no block at all.
pub open spec fn retirement_spec(
    prompt: Option<(int, Seq<char>)>,
    current_prompt: Seq<char>,
    model_current: bool,
    block_ids: Seq<i64>,
) -> Option<InheritedRows> {
    let prompt_current = prompt matches Some((_, content)) && content == current_prompt;
    let prompt_first = prompt matches Some((row, _)) && row == 0;
    if prompt_current && model_current && prompt_first {
        None
    } else if block_ids.len() == 0 {
        None
    } else {
        match prompt {
            Some((row, _)) => if row == 0 {
                Some(InheritedRows::After(block_ids[0]))
            } else {
                Some(InheritedRows::UpTo(block_ids[row - 1]))
            },
            None => Some(InheritedRows::UpTo(block_ids.last())),
        }
    }
}

/// Whether a mapped channel's conversation retires, from where its
/// recorded prompt sits among its blocks and what it says, whether its
/// stored model is the current binding's, and its block ids in order.
pub fn retirement(
    prompt: Option<(usize, &str)>,
    current_prompt: &str,
    model_current: bool,
    block_ids: &[i64],
) -> (fork: Option<InheritedRows>)
    requires
        prompt matches Some((row, _)) ==> row < block_ids@.len(),
    ensures
        fork == retirement_spec(
            match prompt {
                Some((row, content)) => Some((row as int, content@)),
                None => None,
            },
            current_prompt@,
            model_current,
            block_ids@,
        ),
{
    let (prompt_current, prompt_first) = match prompt {
        Some((row, content)) => (str_eq(content, current_prompt), row == 0),
        None => (false, false),
    };
    if prompt_current && model_current && prompt_first {
        return None;
    }
    if block_ids.len() == 0 {
        return None;
    }
    match prompt {
        Some((row, _)) => if row == 0 {
            Some(InheritedRows::After(block_ids[0]))
        } else {
            Some(InheritedRows::UpTo(block_ids[row - 1]))
        },
        None => Some(InheritedRows::UpTo(block_ids[block_ids.len() - 1])),
    }
}

/// What one observation leads to.
#[derive(Debug, Clone, Copy, PartialEq, Eq, Structural)]
pub enum ObservationStep {
    /// Nothing is recorded and nothing delivered.
    Nothing,
    /// Refused fail-closed: the adapter withdraws from the group.
    Withdraw,
    /// The operator's own invitation: the group is authorized.
    Authorize,
    /// An authorized group's joiners are recorded.
    RecordJoins,
    /// An authorized group's title or pinned text is weighed as a note.
    ConsultNote,
}

/// The observation's decision: a channel mapped as the other kind is
/// refused; a direct channel observes nothing; the assistant's own add is
/// authorized only by the configured operator; every other fact needs an
/// authorized group.
pub open spec fn observation_spec(
    stored: Option<ChannelKind>,
    claimed: ChannelKind,
    fact: crate::message::ObservedFact,
    operator: Option<Seq<char>>,
    authorized: bool,
) -> Result<ObservationStep, CoreError> {
    if stored matches Some(s) && s != claimed {
        Err(CoreError::ChannelKindMismatch { stored: stored.unwrap(), claimed })
    } else if claimed != ChannelKind::Group {
        Ok(ObservationStep::Nothing)
    } else {
        match fact {
            crate::message::ObservedFact::Added { by } => if operator is Some && by is Some
                && by.unwrap().external_id@ == operator.unwrap() {
                Ok(ObservationStep::Authorize)
            } else {
                Ok(ObservationStep::Withdraw)
            },
            crate::message::ObservedFact::MembersJoined { .. } => if authorized {
                Ok(ObservationStep::RecordJoins)
            } else {
                Ok(ObservationStep::Withdraw)
            },
            _ => if authorized {
                Ok(ObservationStep::ConsultNote)
            } else {
                Ok(ObservationStep::Withdraw)
            },
        }
    }
}

/// What one observation leads to, from the mapping's stored kind, the
/// observed channel's kind and fact, the operator configured for the
/// observing adapter, and whether the group is authorized.
pub fn observation_step(
    stored: Option<ChannelKind>,
    claimed: ChannelKind,
    fact: &crate::message::ObservedFact,
    operator: Option<&str>,
    authorized: bool,
) -> (step: Result<ObservationStep, CoreError>)
    ensures
        step == observation_spec(
            stored,
            claimed,
            *fact,
            match operator {
                Some(o) => Some(o@),
                None => None,
            },
            authorized,
        ),
{
    match stored {
        Some(s) => {
            if s != claimed {
                return Err(CoreError::ChannelKindMismatch { stored: s, claimed });
            }
        },
        None => {},
    }
    match claimed {
        ChannelKind::Direct => return Ok(ObservationStep::Nothing),
        ChannelKind::Group => {},
    }
    match fact {
        crate::message::ObservedFact::Added { by } => {
            let adder = match by {
                Some(b) => Some(b),
                None => None,
            };
            if crate::authorization::operator_admits(operator, adder) {
                Ok(ObservationStep::Authorize)
            } else {
                Ok(ObservationStep::Withdraw)
            }
        },
        crate::message::ObservedFact::MembersJoined { .. } => if authorized {
            Ok(ObservationStep::RecordJoins)
        } else {
            Ok(ObservationStep::Withdraw)
        },
        _ => if authorized {
            Ok(ObservationStep::ConsultNote)
        } else {
            Ok(ObservationStep::Withdraw)
        },
    }
}

/// Whether a note is recorded: only when its text differs from the newest
/// one the conversation holds on that topic.
pub fn records_note(newest: Option<&str>, text: &str) -> (records: bool)
    ensures
        records == !(newest matches Some(n) && n@ == text@),
{
    match newest {
        Some(n) => !str_eq(n, text),
        None => true,
    }
}

/// Whether one joiner's entry is recorded: not while their suppression
/// flag stands.
pub fn records_joiner(standing: Option<Standing>) -> (records: bool)
    ensures
        records == !(standing matches Some(s) && s.opted_out),
{
    match standing {
        Some(s) => !s.opted_out,
        None => true,
    }
}

/// The reply line a self-service right answers with.
#[derive(Debug, Clone, Copy, PartialEq, Eq, Structural)]
pub enum RightsLine {
    /// The opt-out was raised now.
    OptOutDone,
    /// The opt-out already stood.
    OptOutAlready,
    /// The opt-out was cleared now.
    OptInDone,
    /// There was no opt-out to clear.
    OptInAlready,
    /// The deletion ask is filed; the confirm instruction answers it.
    ConfirmInstruction,
    /// A pending deletion was confirmed and the erasure started.
    DeletionStarted,
    /// A confirm with no deletion pending.
    NothingPending,
}

/// Which line a right answers with, from whether its state change took
/// effect: the flag raised or cleared now, or a pending deletion taken.
pub fn rights_line(command: RightsCommand, changed: bool) -> (line: RightsLine)
    ensures
        line == match command {
            RightsCommand::OptOut => if changed {
                RightsLine::OptOutDone
            } else {
                RightsLine::OptOutAlready
            },
            RightsCommand::OptIn => if changed {
                RightsLine::OptInDone
            } else {
                RightsLine::OptInAlready
            },
            RightsCommand::Delete => RightsLine::ConfirmInstruction,
            RightsCommand::Confirm => if changed {
                RightsLine::DeletionStarted
            } else {
                RightsLine::NothingPending
            },
        },
{
    match command {
        RightsCommand::OptOut => if changed {
            RightsLine::OptOutDone
        } else {
            RightsLine::OptOutAlready
        },
        RightsCommand::OptIn => if changed {
            RightsLine::OptInDone
        } else {
            RightsLine::OptInAlready
        },
        RightsCommand::Delete => RightsLine::ConfirmInstruction,
        RightsCommand::Confirm => if changed {
            RightsLine::DeletionStarted
        } else {
            RightsLine::NothingPending
        },
    }
}

/// A disabled budget admits every debt: with both budgets off, nothing is
/// ever refused, however many debts were opened.
pub proof fn disabled_budgets_refuse_nothing(principal_opened: int, channel_opened: int)
    ensures
        refusing_budget_spec(
            ProtectionConfig { principal: None, channel: None },
            principal_opened,
            channel_opened,
        ) is None,
{
}

/// A valid configuration refuses nobody whose window is still empty: a
/// first debt is always admitted, and a budget refuses only once its
/// window holds as many debts as it admits.
pub proof fn a_valid_budget_admits_an_empty_window(protection: ProtectionConfig)
    requires
        protection.valid(),
    ensures
        refusing_budget_spec(protection, 0, 0) is None,
        forall|principal_opened: int, channel_opened: int|
            #[trigger] refusing_budget_spec(protection, principal_opened, channel_opened)
                == Some(LimitedBy::Principal) ==> principal_opened >= 1,
        forall|principal_opened: int, channel_opened: int|
            #[trigger] refusing_budget_spec(protection, principal_opened, channel_opened)
                == Some(LimitedBy::Channel) ==> channel_opened >= 1,
{
}

/// A refusing budget keeps refusing while its window fills further: more
/// opened debts never reopen a refused sender or conversation.
pub proof fn a_refusing_budget_keeps_refusing(
    protection: ProtectionConfig,
    principal_opened: int,
    channel_opened: int,
    more_principal: int,
    more_channel: int,
)
    requires
        refusing_budget_spec(protection, principal_opened, channel_opened) is Some,
        more_principal >= principal_opened,
        more_channel >= channel_opened,
    ensures
        refusing_budget_spec(protection, more_principal, more_channel) is Some,
{
}

} // verus!
