//! The command catalogue: one list of the commands this assistant answers,
//! one recognition over it, and one reading of who is offered each command
//! in which kind of channel.
//!
//! Recognition folds ASCII case and matches the reported invocation token
//! alone. [`Command::offered`] decides the answer: a recognized command
//! that is not offered answers silence.

use vstd::prelude::*;

use crate::message::{Authority, ChannelKind, InvokedCommand};
use crate::strings::{ascii_folded, eq_ignore_ascii_case, eq_ignore_ascii_case_spec};

verus! {

/// `/privacy` — the policy pointer.
pub const PRIVACY_COMMAND: &'static str = "/privacy";

/// `/privacyout` — stop collecting and answering this person's messages.
pub const OPT_OUT_COMMAND: &'static str = "/privacyout";

/// `/privacydelete` — ask for deletion.
pub const DELETE_COMMAND: &'static str = "/privacydelete";

/// `/confirmdelete` — confirm the deletion just asked for.
pub const CONFIRM_COMMAND: &'static str = "/confirmdelete";

/// `/unblockprivacy` — start collecting this person's messages again.
pub const OPT_IN_COMMAND: &'static str = "/unblockprivacy";

/// The session wipe: the group's channel starts a new conversation.
pub const WIPE_COMMAND: &'static str = "/wipe";

/// The session compact: the first half of the group's conversation is
/// summarized and the rest of it comes along verbatim.
pub const COMPACT_COMMAND: &'static str = "/compact";

/// The least standing the two session resets accept.
pub const RESET_FLOOR: Authority = Authority::Moderator;

/// What `/wipe` answers when the reset stands.
pub const WIPE_DONE: &'static str =
    "Done. This group starts a fresh session; the old one stays on record.";

/// What `/compact` answers when the compaction stands.
pub const COMPACT_DONE: &'static str = "Compaction finished";

/// What `/compact` answers when the session does not split.
pub const COMPACT_ALREADY: &'static str = "This session is already compact. Nothing changed.";

/// One command this assistant answers.
#[derive(Debug, Clone, Copy, PartialEq, Eq, Structural)]
pub enum Command {
    /// `/privacy` — the policy pointer.
    Privacy,
    /// `/privacyout` — stop collecting and answering this person's
    /// messages.
    PrivacyOut,
    /// `/privacydelete` — ask for deletion, answered with the confirm
    /// instruction.
    PrivacyDelete,
    /// `/confirmdelete` — confirm the deletion just asked for.
    ConfirmDelete,
    /// `/unblockprivacy` — start collecting this person's messages again.
    PrivacyIn,
    /// `/wipe` — the group's session starts over, empty.
    Wipe,
    /// `/compact` — the group's session keeps its recent messages and
    /// carries a summary of the rest.
    Compact,
}

impl Command {
    /// Every command, in the order a person meets them.
    pub const ALL: [Command; 7] = [
        Command::Privacy,
        Command::PrivacyOut,
        Command::PrivacyDelete,
        Command::ConfirmDelete,
        Command::PrivacyIn,
        Command::Wipe,
        Command::Compact,
    ];

    /// The catalogue, as a sequence.
    pub open spec fn catalogue() -> Seq<Command> {
        seq![
            Command::Privacy,
            Command::PrivacyOut,
            Command::PrivacyDelete,
            Command::ConfirmDelete,
            Command::PrivacyIn,
            Command::Wipe,
            Command::Compact,
        ]
    }

    /// The token that invokes a command.
    pub open spec fn token(self) -> Seq<char> {
        match self {
            Command::Privacy => PRIVACY_COMMAND@,
            Command::PrivacyOut => OPT_OUT_COMMAND@,
            Command::PrivacyDelete => DELETE_COMMAND@,
            Command::ConfirmDelete => CONFIRM_COMMAND@,
            Command::PrivacyIn => OPT_IN_COMMAND@,
            Command::Wipe => WIPE_COMMAND@,
            Command::Compact => COMPACT_COMMAND@,
        }
    }

    /// Whether a command is one of the five privacy rights.
    pub open spec fn is_privacy(self) -> bool {
        !(self is Wipe || self is Compact)
    }

    /// Who is offered a command where: the privacy commands to everyone
    /// everywhere, the resets in a group from the floor up.
    pub open spec fn offered_spec(self, channel: ChannelKind, authority: Authority) -> bool {
        if self.is_privacy() {
            true
        } else {
            channel == ChannelKind::Group && authority.rank() >= RESET_FLOOR.rank()
        }
    }

    /// The token that invokes this command, leading marker included.
    pub fn invocation(self) -> (token: &'static str)
        ensures
            token@ == self.token(),
    {
        match self {
            Command::Privacy => PRIVACY_COMMAND,
            Command::PrivacyOut => OPT_OUT_COMMAND,
            Command::PrivacyDelete => DELETE_COMMAND,
            Command::ConfirmDelete => CONFIRM_COMMAND,
            Command::PrivacyIn => OPT_IN_COMMAND,
            Command::Wipe => WIPE_COMMAND,
            Command::Compact => COMPACT_COMMAND,
        }
    }

    /// Whether a person of at least this standing is offered this command
    /// in this kind of channel. The authority is a floor: the answer is
    /// monotone in it.
    pub fn offered(self, channel: ChannelKind, authority: Authority) -> (offered: bool)
        ensures
            offered == self.offered_spec(channel, authority),
    {
        match self {
            Command::Privacy
            | Command::PrivacyOut
            | Command::PrivacyDelete
            | Command::ConfirmDelete
            | Command::PrivacyIn => true,
            Command::Wipe | Command::Compact => {
                let in_group = match channel {
                    ChannelKind::Group => true,
                    ChannelKind::Direct => false,
                };
                in_group && authority.at_least(RESET_FLOOR)
            },
        }
    }
}

/// The command a token names under the ASCII case fold.
pub open spec fn names(token: Seq<char>, command: Command) -> bool {
    eq_ignore_ascii_case_spec(token, command.token())
}

/// No two invocations of the catalogue fold to the same spelling, so a
/// token names at most one command.
pub proof fn invocations_stay_apart_when_folded(token: Seq<char>, a: Command, b: Command)
    requires
        names(token, a),
        names(token, b),
    ensures
        a == b,
{
    reveal_strlit("/privacy");
    reveal_strlit("/privacyout");
    reveal_strlit("/privacydelete");
    reveal_strlit("/confirmdelete");
    reveal_strlit("/unblockprivacy");
    reveal_strlit("/wipe");
    reveal_strlit("/compact");
    if a != b {
        assert(a.token().len() == b.token().len());
        assert(ascii_folded(token[1]) == ascii_folded(a.token()[1]));
        assert(ascii_folded(token[1]) == ascii_folded(b.token()[1]));
        assert(ascii_folded(token[2]) == ascii_folded(a.token()[2]));
        assert(ascii_folded(token[2]) == ascii_folded(b.token()[2]));
    }
}

/// A character a command token's name may hold: an ASCII lowercase
/// letter, a digit or an underscore.
pub open spec fn is_token_char(c: char) -> bool {
    ('a' <= c && c <= 'z') || ('0' <= c && c <= '9') || c == '_'
}

/// The shape of a command token: the leading `/`, then a non-empty name
/// made of token characters only.
pub open spec fn is_command_token(token: Seq<char>) -> bool {
    &&& token.len() >= 2
    &&& token[0] == '/'
    &&& forall|i: int| 1 <= i < token.len() ==> is_token_char(#[trigger] token[i])
}

proof fn lemma_token_shape(command: Command)
    ensures
        is_command_token(command.token()),
{
    let t = command.token();
    match command {
        Command::Privacy => {
            reveal_strlit("/privacy");
        },
        Command::PrivacyOut => {
            reveal_strlit("/privacyout");
        },
        Command::PrivacyDelete => {
            reveal_strlit("/privacydelete");
        },
        Command::ConfirmDelete => {
            reveal_strlit("/confirmdelete");
        },
        Command::PrivacyIn => {
            reveal_strlit("/unblockprivacy");
        },
        Command::Wipe => {
            reveal_strlit("/wipe");
        },
        Command::Compact => {
            reveal_strlit("/compact");
        },
    }
    assert forall|i: int| 1 <= i < t.len() implies is_token_char(#[trigger] t[i]) by {
        if i == 1 {} else if i == 2 {} else if i == 3 {} else if i == 4 {} else if i == 5 {
        } else if i == 6 {} else if i == 7 {} else if i == 8 {} else if i == 9 {} else if i == 10 {
        } else if i == 11 {} else if i == 12 {} else if i == 13 {} else if i == 14 {}
    }
}

/// Every invocation is a lowercase ASCII token — the leading `/`, then a
/// non-empty name of lowercase letters, digits and underscores — and no
/// two commands' invocations are equal with ASCII case folded.
pub proof fn every_invocation_is_a_lowercase_ascii_token(a: Command, b: Command)
    ensures
        is_command_token(a.token()),
        a != b ==> !eq_ignore_ascii_case_spec(a.token(), b.token()),
{
    lemma_token_shape(a);
    if eq_ignore_ascii_case_spec(a.token(), b.token()) {
        invocations_stay_apart_when_folded(a.token(), a, b);
    }
}

/// Whether a token names some command of the catalogue under the case
/// fold, one command at a time.
pub open spec fn names_a_command(token: Seq<char>) -> bool {
    ||| names(token, Command::Privacy)
    ||| names(token, Command::PrivacyOut)
    ||| names(token, Command::PrivacyDelete)
    ||| names(token, Command::ConfirmDelete)
    ||| names(token, Command::PrivacyIn)
    ||| names(token, Command::Wipe)
    ||| names(token, Command::Compact)
}

/// The command a message invokes, if any: the adapter's reported token
/// matched against the catalogue with ASCII case folded.
pub fn recognized(command: Option<&InvokedCommand>) -> (found: Option<Command>)
    ensures
        command is None ==> found is None,
        command is Some && found is Some ==> names(command.unwrap().token(), found.unwrap()),
        command is Some ==> (found is None <==> !names_a_command(command.unwrap().token())),
{
    let token = match command {
        Some(c) => c.name(),
        None => return None,
    };
    let all = Command::ALL;
    let mut i: usize = 0;
    while i < 7
        invariant
            i <= 7,
            all@ == Command::catalogue(),
            command matches Some(c) && token@ == c.token(),
            forall|j: int| 0 <= j < i ==> !names(token@, #[trigger] Command::catalogue()[j]),
        decreases 7 - i,
    {
        let candidate = all[i];
        if eq_ignore_ascii_case(token, candidate.invocation()) {
            assert(names(token@, candidate));
            return Some(candidate);
        }
        i = i + 1;
    }
    proof {
        assert forall|k: Command| !names(token@, k) by {
            let index: int = match k {
                Command::Privacy => 0,
                Command::PrivacyOut => 1,
                Command::PrivacyDelete => 2,
                Command::ConfirmDelete => 3,
                Command::PrivacyIn => 4,
                Command::Wipe => 5,
                Command::Compact => 6,
            };
            assert(Command::catalogue()[index] == k);
        }
    }
    None
}

/// A token that recognition answers with nothing names no command of the
/// catalogue, under the case fold: neither any entry of the catalogue nor
/// any one command by name.
pub proof fn an_unrecognized_token_names_no_command(token: Seq<char>)
    requires
        !names_a_command(token),
    ensures
        forall|k: Command| !#[trigger] names(token, k),
        forall|i: int|
            0 <= i < Command::catalogue().len() ==> !eq_ignore_ascii_case_spec(
                token,
                #[trigger] Command::catalogue()[i].token(),
            ),
        !names(token, Command::Privacy),
        !names(token, Command::PrivacyOut),
        !names(token, Command::PrivacyDelete),
        !names(token, Command::ConfirmDelete),
        !names(token, Command::PrivacyIn),
        !names(token, Command::Wipe),
        !names(token, Command::Compact),
{
    assert forall|k: Command| !#[trigger] names(token, k) by {
        match k {
            Command::Privacy => {},
            Command::PrivacyOut => {},
            Command::PrivacyDelete => {},
            Command::ConfirmDelete => {},
            Command::PrivacyIn => {},
            Command::Wipe => {},
            Command::Compact => {},
        }
    }
    assert forall|i: int| 0 <= i < Command::catalogue().len() implies !eq_ignore_ascii_case_spec(
        token,
        #[trigger] Command::catalogue()[i].token(),
    ) by {
        assert(!names(token, Command::catalogue()[i]));
    }
    assert(!names(token, Command::Privacy));
    assert(!names(token, Command::PrivacyOut));
    assert(!names(token, Command::PrivacyDelete));
    assert(!names(token, Command::ConfirmDelete));
    assert(!names(token, Command::PrivacyIn));
    assert(!names(token, Command::Wipe));
    assert(!names(token, Command::Compact));
}

/// Offering grows with standing: whatever a lower standing is offered in
/// a kind of channel, every higher standing is offered too.
pub proof fn offered_grows_with_standing(
    command: Command,
    channel: ChannelKind,
    lower: Authority,
    higher: Authority,
)
    requires
        lower.rank() <= higher.rank(),
        command.offered_spec(channel, lower),
    ensures
        command.offered_spec(channel, higher),
{
}

/// Every command's own invocation names it, in any ASCII case.
pub proof fn every_invocation_names_its_command(command: Command, token: Seq<char>)
    requires
        eq_ignore_ascii_case_spec(token, command.token()),
    ensures
        names(token, command),
        forall|other: Command| names(token, other) ==> other == command,
{
    assert forall|other: Command| names(token, other) implies other == command by {
        invocations_stay_apart_when_folded(token, other, command);
    }
}

/// One of the four self-service rights a person exercises on their own
/// data.
#[derive(Debug, Clone, Copy, PartialEq, Eq, Structural)]
pub enum RightsCommand {
    /// Stop collecting and answering this person's messages.
    OptOut,
    /// Start collecting this person's messages again.
    OptIn,
    /// Ask for deletion.
    Delete,
    /// Confirm the deletion just asked for.
    Confirm,
}

/// The privacy family a command belongs to: the notice, or a self-service
/// right.
#[derive(Debug, Clone, Copy, PartialEq, Eq, Structural)]
pub enum PrivacyCommand {
    /// The policy pointer, answered per channel.
    Notice,
    /// A self-service right, answered per person.
    SelfService(RightsCommand),
}

/// The privacy family member a command projects to; the resets belong to
/// none.
pub open spec fn family_spec(command: Command) -> Option<PrivacyCommand> {
    match command {
        Command::Privacy => Some(PrivacyCommand::Notice),
        Command::PrivacyOut => Some(PrivacyCommand::SelfService(RightsCommand::OptOut)),
        Command::PrivacyDelete => Some(PrivacyCommand::SelfService(RightsCommand::Delete)),
        Command::ConfirmDelete => Some(PrivacyCommand::SelfService(RightsCommand::Confirm)),
        Command::PrivacyIn => Some(PrivacyCommand::SelfService(RightsCommand::OptIn)),
        Command::Wipe => None,
        Command::Compact => None,
    }
}

/// The privacy family member a command projects to, recorded once.
pub fn family_of(command: Command) -> (family: Option<PrivacyCommand>)
    ensures
        family == family_spec(command),
        family is Some <==> command.is_privacy(),
{
    match command {
        Command::Privacy => Some(PrivacyCommand::Notice),
        Command::PrivacyOut => Some(PrivacyCommand::SelfService(RightsCommand::OptOut)),
        Command::PrivacyDelete => Some(PrivacyCommand::SelfService(RightsCommand::Delete)),
        Command::ConfirmDelete => Some(PrivacyCommand::SelfService(RightsCommand::Confirm)),
        Command::PrivacyIn => Some(PrivacyCommand::SelfService(RightsCommand::OptIn)),
        Command::Wipe => None,
        Command::Compact => None,
    }
}

} // verus!
