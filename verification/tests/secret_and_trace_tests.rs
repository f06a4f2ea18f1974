use engine_relay::secret::ConstructionError;
use engine_relay::secret::SharedSecret;
use engine_relay::trace::BackendObservation;
use engine_relay::trace::RelayMethod;
use engine_relay::trace::SpanRecord;
use engine_relay::types::BackendId;

fn hex_bytes(s: &str) -> Vec<u8> {
    s.as_bytes().to_vec()
}

#[test]
fn secret_decodes_64_hex_digits() {
    let hex = hex_bytes(
        "00112233445566778899aabbccddeeff00112233445566778899AABBCCDDEEFF",
    );
    let secret = match SharedSecret::from_hex(&hex) {
        Ok(s) => s,
        Err(_) => panic!("well-formed secret rejected"),
    };
    let key = secret.key_bytes();
    assert_eq!(key.len(), 32);
    assert_eq!(key[0], 0x00);
    assert_eq!(key[1], 0x11);
    assert_eq!(key[9], 0x99);
    assert_eq!(key[10], 0xaa);
    assert_eq!(key[31], 0xff);
}

#[test]
fn secret_accepts_0x_prefix() {
    let plain = hex_bytes(
        "cbf29ce484222325cbf29ce484222325cbf29ce484222325cbf29ce484222325",
    );
    let prefixed = hex_bytes(
        "0xcbf29ce484222325cbf29ce484222325cbf29ce484222325cbf29ce484222325",
    );
    let a = match SharedSecret::from_hex(&plain) {
        Ok(s) => s,
        Err(_) => panic!("plain secret rejected"),
    };
    let b = match SharedSecret::from_hex(&prefixed) {
        Ok(s) => s,
        Err(_) => panic!("prefixed secret rejected"),
    };
    assert_eq!(a.key_bytes(), b.key_bytes());
}

#[test]
fn secret_rejects_wrong_length() {
    let short = hex_bytes("cbf29ce484222325");
    assert!(matches!(
        SharedSecret::from_hex(&short),
        Err(ConstructionError::SecretWrongLength)
    ));
    let empty: Vec<u8> = Vec::new();
    assert!(matches!(
        SharedSecret::from_hex(&empty),
        Err(ConstructionError::SecretWrongLength)
    ));
    let long = hex_bytes(
        "00112233445566778899aabbccddeeff00112233445566778899aabbccddeeff0",
    );
    assert!(matches!(
        SharedSecret::from_hex(&long),
        Err(ConstructionError::SecretWrongLength)
    ));
}

#[test]
fn secret_rejects_non_hex_digit() {
    let bad = hex_bytes(
        "00112233445566778899aabbccddeeff00112233445566778899aabbccddeefg",
    );
    assert!(matches!(
        SharedSecret::from_hex(&bad),
        Err(ConstructionError::SecretBadDigit)
    ));
}

#[test]
fn span_records_backend_events_and_outcome() {
    let mut span = SpanRecord::begin(RelayMethod::ForkchoiceUpdated);
    assert_eq!(span.method(), RelayMethod::ForkchoiceUpdated);
    assert_eq!(span.outcome(), None);
    assert!(span.observations().is_empty());

    span.observe_backend(BackendId::Building, 200, false);
    span.observe_backend(BackendId::Canonical, 50, true);
    span.finish(true);

    assert_eq!(span.outcome(), Some(true));
    let events = span.observations();
    assert_eq!(events.len(), 2);
    assert_eq!(
        events[0],
        BackendObservation { backend: BackendId::Building, duration_ms: 200, ok: false }
    );
    assert_eq!(
        events[1],
        BackendObservation { backend: BackendId::Canonical, duration_ms: 50, ok: true }
    );
}
