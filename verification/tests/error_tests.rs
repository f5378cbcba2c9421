use proxy_wasm::correlator::CalloutCorrelator;
use proxy_wasm::error::{DecodeError, FatalError, HostCallError, HostResponseError};
use proxy_wasm::types::{Action, LogLevel, PeerType, Status};

#[test]
fn test_host_call_error_fields() {
    let e = HostCallError::new("proxy_log", Status::InternalFailure);
    assert_eq!(e.module(), "env");
    assert_eq!(e.function(), "proxy_log");
    assert_eq!(e.status(), Status::InternalFailure);
    assert_eq!(e.status().code(), 10);
}

#[test]
fn test_host_response_error_fields() {
    let e = HostResponseError::new("proxy_get_header_map_pairs", DecodeError::Truncated);
    assert_eq!(e.module(), "env");
    assert_eq!(e.function(), "proxy_get_header_map_pairs");
    assert_eq!(e.error(), DecodeError::Truncated);
}

#[test]
fn test_status_codes() {
    assert_eq!(Status::Success.code(), 0);
    assert_eq!(Status::NotFound.code(), 1);
    assert_eq!(Status::BadArgument.code(), 2);
    assert_eq!(Status::Empty.code(), 7);
    assert_eq!(Status::CasMismatch.code(), 8);
    assert_eq!(Status::Unimplemented.code(), 12);

    assert_eq!(Status::from_code(3), Status::SerializationFailure);
    assert_eq!(Status::from_code(10), Status::InternalFailure);
    assert_eq!(Status::from_code(999), Status::Unimplemented);
    for raw in 0u32..13 {
        assert_eq!(Status::from_code(raw).code(), raw);
    }
}

#[test]
fn test_abi_code_mappings() {
    assert_eq!(Action::Continue.code(), 0);
    assert_eq!(Action::Pause.code(), 1);

    assert_eq!(LogLevel::Trace.code(), 0);
    assert_eq!(LogLevel::Critical.code(), 5);

    assert_eq!(PeerType::from_code(0), PeerType::Unknown);
    assert_eq!(PeerType::from_code(1), PeerType::Local);
    assert_eq!(PeerType::from_code(2), PeerType::Remote);
    assert_eq!(PeerType::from_code(42), PeerType::Unknown);
}

#[test]
fn test_correlator_register_and_consume_once() {
    let mut c = CalloutCorrelator::new();
    assert_eq!(c.register(42, 7), Ok(()));
    assert!(c.is_outstanding(42));
    assert_eq!(c.register(42, 8), Err(FatalError::DuplicateToken { token_id: 42 }));

    assert_eq!(c.resolve_and_consume(42), Ok(7));
    assert!(!c.is_outstanding(42));
    assert_eq!(c.resolve_and_consume(42), Err(FatalError::UnknownToken { token_id: 42 }));

    assert_eq!(c.resolve_and_consume(9), Err(FatalError::UnknownToken { token_id: 9 }));
}
