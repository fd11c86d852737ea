use assistant_core::commands::{
    family_of, recognized, Command, PrivacyCommand, RightsCommand, COMPACT_ALREADY, COMPACT_COMMAND,
    COMPACT_DONE, RESET_FLOOR, WIPE_COMMAND, WIPE_DONE,
};
use assistant_core::message::{Authority, ChannelKind, InvokedCommand};
use assistant_core::mirror::DELETION_COMMAND;

#[test]
fn every_command_recognizes_its_own_spelling_with_case_folded() {
    for command in Command::ALL {
        let token = command.invocation();
        assert_eq!(
            recognized(Some(&InvokedCommand::new(token))),
            Some(command),
            "{token} recognizes itself"
        );
        assert_eq!(
            recognized(Some(&InvokedCommand::new(&token.to_uppercase()))),
            Some(command),
            "{token} recognizes its uppercase spelling"
        );
        let mixed: String = token
            .char_indices()
            .map(|(index, character)| {
                if index % 2 == 0 {
                    character
                } else {
                    character.to_ascii_uppercase()
                }
            })
            .collect();
        assert_eq!(
            recognized(Some(&InvokedCommand::new(&mixed))),
            Some(command),
            "{mixed} recognizes its command"
        );
    }
}

#[test]
fn a_foreign_token_and_no_token_recognize_nothing() {
    for token in [DELETION_COMMAND, "/Del", "/help", "/foo"] {
        assert_eq!(
            recognized(Some(&InvokedCommand::new(token))),
            None,
            "{token} is outside the catalogue"
        );
    }
    assert_eq!(recognized(None), None);
}

#[test]
fn every_invocation_is_a_lowercase_ascii_token() {
    for command in Command::ALL {
        let token = command.invocation();
        let rest = token
            .strip_prefix('/')
            .unwrap_or_else(|| panic!("{token} opens with the command marker"));
        assert!(!rest.is_empty(), "{token} carries a name");
        assert!(
            rest.chars().all(|character| character.is_ascii_lowercase()
                || character.is_ascii_digit()
                || character == '_'),
            "{token} spells its name in lowercase ASCII"
        );
    }
    let mut folded: Vec<String> = Command::ALL
        .iter()
        .map(|command| command.invocation().to_ascii_lowercase())
        .collect();
    folded.sort();
    let unique = folded.len();
    folded.dedup();
    assert_eq!(unique, folded.len(), "no two spellings collide when folded");
}

#[test]
fn the_catalogue_order_is_the_spec_order() {
    assert_eq!(
        Command::ALL,
        [
            Command::Privacy,
            Command::PrivacyOut,
            Command::PrivacyDelete,
            Command::ConfirmDelete,
            Command::PrivacyIn,
            Command::Wipe,
            Command::Compact,
        ]
    );
}

#[test]
fn the_audience_rows_are_the_spec_rows() {
    for authority in Authority::ALL {
        for channel in ChannelKind::ALL {
            for command in [
                Command::Privacy,
                Command::PrivacyOut,
                Command::PrivacyDelete,
                Command::ConfirmDelete,
                Command::PrivacyIn,
            ] {
                assert!(
                    command.offered(channel, authority),
                    "{command:?} is offered to {authority:?} in {channel:?}"
                );
            }
            for command in [Command::Wipe, Command::Compact] {
                assert_eq!(
                    command.offered(channel, authority),
                    channel == ChannelKind::Group && authority >= RESET_FLOOR,
                    "{command:?} is offered in a group from the floor up and nowhere else"
                );
            }
        }
    }
}

#[test]
fn the_offered_set_grows_with_standing() {
    for channel in ChannelKind::ALL {
        let offered = |authority: Authority| -> Vec<Command> {
            Command::ALL
                .into_iter()
                .filter(|command| command.offered(channel, authority))
                .collect()
        };
        for (lower, higher) in [
            (Authority::Member, Authority::Moderator),
            (Authority::Moderator, Authority::Admin),
        ] {
            let below = offered(lower);
            let above = offered(higher);
            for command in below {
                assert!(
                    above.contains(&command),
                    "{channel:?}: {command:?} offered at {lower:?} is offered at {higher:?}"
                );
            }
        }
    }
}

#[test]
fn the_fixed_lines_match_the_spec_copy_verbatim() {
    assert_eq!(
        WIPE_DONE,
        "Done. This group starts a fresh session; the old one stays on record."
    );
    assert_eq!(COMPACT_DONE, "Compaction finished");
    assert_eq!(
        COMPACT_ALREADY,
        "This session is already compact. Nothing changed."
    );
}

#[test]
fn the_reset_tokens_and_the_floor_are_the_spec_values() {
    assert_eq!(WIPE_COMMAND, "/wipe");
    assert_eq!(COMPACT_COMMAND, "/compact");
    assert_eq!(RESET_FLOOR, Authority::Moderator);
}

#[test]
fn the_privacy_family_is_the_five_rights_and_no_reset() {
    assert_eq!(family_of(Command::Privacy), Some(PrivacyCommand::Notice));
    assert_eq!(
        family_of(Command::PrivacyOut),
        Some(PrivacyCommand::SelfService(RightsCommand::OptOut))
    );
    assert_eq!(
        family_of(Command::PrivacyDelete),
        Some(PrivacyCommand::SelfService(RightsCommand::Delete))
    );
    assert_eq!(
        family_of(Command::ConfirmDelete),
        Some(PrivacyCommand::SelfService(RightsCommand::Confirm))
    );
    assert_eq!(
        family_of(Command::PrivacyIn),
        Some(PrivacyCommand::SelfService(RightsCommand::OptIn))
    );
    assert_eq!(family_of(Command::Wipe), None);
    assert_eq!(family_of(Command::Compact), None);
}

#[test]
fn an_unrecognized_token_names_none_of_the_catalogue() {
    let unknown = InvokedCommand::new("/privacyplease");
    assert_eq!(recognized(Some(&unknown)), None);
    for command in Command::ALL {
        assert!(!command.invocation().eq_ignore_ascii_case(unknown.name()));
    }
}
