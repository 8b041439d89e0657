use nautilus_server::intent::ResolvedIntent;
use nautilus_server::{IntentMessage, IntentMessageBytes, IntentScope};

#[test]
fn process_data_has_code_zero() {
    assert_eq!(IntentScope::ProcessData.code(), 0);
}

#[test]
fn code_zero_names_process_data() {
    assert_eq!(IntentScope::from_code(0), Some(IntentScope::ProcessData));
}

#[test]
fn other_codes_name_no_scope() {
    for code in 1..=255u8 {
        assert_eq!(IntentScope::from_code(code), None);
    }
}

#[test]
fn known_code_resolves_without_default() {
    assert_eq!(
        IntentScope::resolve(0),
        ResolvedIntent { scope: IntentScope::ProcessData, defaulted: false }
    );
}

#[test]
fn unknown_code_resolves_to_the_default_and_says_so() {
    for code in [1u8, 2, 7, 127, 128, 255] {
        assert_eq!(
            IntentScope::resolve(code),
            ResolvedIntent { scope: IntentScope::ProcessData, defaulted: true }
        );
    }
}

#[test]
fn every_scope_is_found_again_from_its_code() {
    for scope in [IntentScope::ProcessData] {
        assert_eq!(IntentScope::from_code(scope.code()), Some(scope));
        assert_eq!(IntentScope::resolve(scope.code()), ResolvedIntent { scope, defaulted: false });
    }
}

#[test]
fn envelopes_are_plain_values() {
    let bytes = IntentMessageBytes {
        intent: IntentScope::ProcessData,
        timestamp_ms: 42,
        data: vec![1, 2, 3],
    };
    assert_eq!(bytes.clone(), bytes);
    let generic = IntentMessage { intent: IntentScope::ProcessData, timestamp_ms: 42, data: "text" };
    assert_eq!(generic.clone(), generic);
    assert_eq!(generic.data, "text");
    assert_eq!(generic.timestamp_ms, bytes.timestamp_ms);
}
