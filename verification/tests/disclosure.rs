use assistant_core::disclosure::{composed_disclosure_line, first_message_to_someone, Disclosure};

#[test]
fn the_disclosed_shape_is_line_blank_line_answer() {
    let composed = Disclosure::resolve(None, "Probe");
    assert_eq!(
        composed.line(),
        "Hi, I'm Probe, an AI system, made to assist members of the community.",
        "an unset key composes the line from the name"
    );
    assert_eq!(
        composed.disclosed("the answer"),
        format!("{}\n\nthe answer", composed.line()),
        "the composition is the line, a blank line, then the answer"
    );
    assert!(
        !composed.line().contains('\n'),
        "the composed disclosure is one line"
    );

    let configured = Disclosure::resolve(Some("I am a configured machine."), "Probe");
    assert_eq!(
        configured.line(),
        "I am a configured machine.",
        "a configured text overrides the composition whole"
    );
    assert_eq!(
        configured.disclosed("the answer"),
        "I am a configured machine.\n\nthe answer"
    );
}

#[test]
fn the_prose_is_the_content_under_a_carried_line() {
    let disclosure = Disclosure::resolve(None, "Probe");
    assert_eq!(
        disclosure.prose_of(&disclosure.disclosed("the answer")),
        "the answer",
        "a lined block's prose is what stands under the line"
    );
    assert_eq!(
        disclosure.prose_of("the answer"),
        "the answer",
        "an unlined block is its own prose"
    );
    assert_eq!(
        disclosure.prose_of(&format!("Look: {}", disclosure.line())),
        format!("Look: {}", disclosure.line()),
        "the line quoted inside an answer is prose, not a carried line"
    );
}

#[test]
fn a_lined_text_is_recognized_and_a_quoted_line_is_not() {
    let disclosure = Disclosure::resolve(None, "Probe");
    assert!(disclosure.is_lined(&disclosure.disclosed("x")));
    assert!(!disclosure.is_lined(disclosure.line()), "the line alone lacks its blank line");
    assert!(!disclosure.is_lined("x"));
    assert_eq!(
        composed_disclosure_line("Ada"),
        "Hi, I'm Ada, an AI system, made to assist members of the community."
    );
}

#[test]
fn the_line_shows_when_any_summoner_is_new_or_the_summoners_cannot_be_told() {
    assert!(first_message_to_someone(&[], &[1, 2]));
    assert!(first_message_to_someone(&[Some(1), None], &[1]));
    assert!(first_message_to_someone(&[Some(1), Some(3)], &[1, 2]));
    assert!(!first_message_to_someone(&[Some(1), Some(2), Some(1)], &[2, 1]));
}
