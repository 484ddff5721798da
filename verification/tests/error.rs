use aegis_core::error::CoreError;

#[test]
fn codes_are_unique() {
    let all = [
        CoreError::InvalidCommand,
        CoreError::UnsupportedCommand,
        CoreError::InvalidCapability,
        CoreError::InvalidConfiguration,
        CoreError::InvalidState,
        CoreError::Unauthorized,
        CoreError::StorageError,
        CoreError::CryptoError,
        CoreError::FirmwareError,
        CoreError::ProtocolError,
    ];
    for (i, a) in all.iter().enumerate() {
        for b in &all[i + 1..] {
            assert_ne!(a.code(), b.code(), "{a:?} and {b:?} share a code");
        }
    }
}

#[test]
fn display_matches_as_str() {
    assert_eq!(CoreError::CryptoError.as_str(), "crypto error");
}
