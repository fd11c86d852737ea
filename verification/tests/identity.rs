use assistant_core::identity::{conclusion, resolution, Conclusion, Resolution};

#[test]
fn a_principal_is_reused_only_while_its_username_matches() {
    assert_eq!(resolution(Some((4, Some("ada".into()))), Some("ada")), Resolution::Reuse(4));
    assert_eq!(resolution(Some((4, None)), None), Resolution::Reuse(4));
    assert_eq!(resolution(Some((4, None)), Some("ada")), Resolution::Upsert);
    assert_eq!(resolution(Some((4, Some("ada".into()))), Some("bob")), Resolution::Upsert);
    assert_eq!(resolution(None, Some("ada")), Resolution::Upsert);
}

#[test]
fn an_erasure_keeps_a_suppressed_persons_stub_and_deletes_anyone_else() {
    assert_eq!(conclusion(true), Conclusion::KeepSuppressed);
    assert_eq!(conclusion(false), Conclusion::Delete);
}
