use assistant_core::acknowledgment::{
    finished, instruction, Collected, Collection, GenerationFailure, StreamResponse, OUTPUT_CAP,
};

fn collect(responses: Vec<StreamResponse>) -> Result<String, GenerationFailure> {
    let mut collection = Collection::new();
    for response in responses {
        match collection.step(response) {
            Collected::Reading => {}
            Collected::Finished(text) => return Ok(text),
            Collected::Failed(failure) => return Err(failure),
        }
    }
    Err(GenerationFailure::ClosedWithoutDone)
}

#[test]
fn the_request_carries_the_rules_verbatim_under_the_named_instruction() {
    let text = instruction("Probe");
    assert!(text.contains("Probe"), "the instruction names the assistant");
    assert!(text.starts_with("You are Probe, a community group's assistant."));
    assert!(text.ends_with("Answer with the confirmation alone."));
}

#[test]
fn the_collection_accumulates_restarts_clean_and_honors_the_final() {
    assert_eq!(
        collect(vec![
            StreamResponse::Other,
            StreamResponse::TextDelta("the dropped ".into()),
            StreamResponse::Restart,
            StreamResponse::TextDelta("the partial".into()),
            StreamResponse::TextFinal("the whole acknowledgment".into()),
            StreamResponse::Done,
        ])
        .expect("the collection succeeds"),
        "the whole acknowledgment"
    );
}

#[test]
fn a_final_content_restates_only_where_it_carries_text() {
    assert_eq!(
        collect(vec![
            StreamResponse::TextDelta("kept".into()),
            StreamResponse::ContentFinal(vec![None]),
            StreamResponse::Done,
        ]),
        Ok("kept".to_owned())
    );
    assert_eq!(
        collect(vec![
            StreamResponse::TextDelta("replaced".into()),
            StreamResponse::ContentFinal(vec![Some("Noted, ".into()), None, Some("thanks.".into())]),
            StreamResponse::Done,
        ]),
        Ok("Noted, thanks.".to_owned())
    );
}

#[test]
fn a_stream_past_the_cap_is_abandoned_at_the_cap() {
    let failure = collect(vec![StreamResponse::TextDelta("a".repeat(OUTPUT_CAP + 1))])
        .expect_err("the over-cap stream is refused");
    assert!(
        matches!(failure, GenerationFailure::OverCap { collected } if collected > OUTPUT_CAP),
        "the failure names the cap: {failure:?}"
    );
    assert_eq!(
        collect(vec![StreamResponse::TextDelta("a".repeat(OUTPUT_CAP)), StreamResponse::Done]),
        Ok("a".repeat(OUTPUT_CAP)),
        "exactly the cap is still within it"
    );
}

#[test]
fn a_provider_error_is_the_completions_verdict() {
    let failure = collect(vec![StreamResponse::Error("scripted refusal".into())]).expect_err("the error surfaces");
    assert!(
        matches!(&failure, GenerationFailure::Failed(error) if error == "scripted refusal"),
        "the failure carries the provider's rendering: {failure:?}"
    );
}

#[test]
fn a_close_without_done_is_a_failure() {
    let failure = collect(vec![StreamResponse::TextDelta("half an ack".into())]).expect_err("the torn stream fails");
    assert!(matches!(failure, GenerationFailure::ClosedWithoutDone));
}

#[test]
fn a_finished_text_is_trimmed_and_an_empty_one_refused() {
    assert_eq!(finished("  Understood.\n"), Ok("Understood.".to_owned()));
    assert_eq!(finished(" \n\t "), Err(GenerationFailure::Empty));
}
