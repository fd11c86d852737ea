use assistant_core::authorization::operator_admits;
use assistant_core::message::SenderIdentity;

#[test]
fn only_a_named_adder_matching_the_configured_operator_admits() {
    let adder = |external_id: &str| SenderIdentity {
        external_id: external_id.into(),
        username: None,
        bot: false,
    };
    assert!(operator_admits(Some("op-1"), Some(&adder("op-1"))));
    assert!(
        !operator_admits(Some("op-1"), Some(&adder("stranger"))),
        "a foreign adder is nobody's invitation"
    );
    assert!(
        !operator_admits(Some("op-1"), None),
        "an add nobody is named for fails closed"
    );
    assert!(
        !operator_admits(None, Some(&adder("op-1"))),
        "with no operator configured, even the operator's id fails closed"
    );
}
