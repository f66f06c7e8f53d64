use nudge::error::NudgeError;

#[test]
fn test_buffer_size_limit_exceeded() {
    let nudge_error = NudgeError::BufferSizeLimitExceeded(70000);
    assert!(matches!(nudge_error, NudgeError::BufferSizeLimitExceeded(70000)));
    if let NudgeError::BufferSizeLimitExceeded(size) = nudge_error {
        assert_eq!(size, 70000);
    }
}

#[test]
fn test_data_packet_limit_exceeded() {
    let nudge_error = NudgeError::DataPacketLimitExceeded(70000);
    assert!(matches!(nudge_error, NudgeError::DataPacketLimitExceeded(70000)));
    if let NudgeError::DataPacketLimitExceeded(size) = nudge_error {
        assert_eq!(size, 70000);
    }
}

#[test]
fn test_error_messages() {
    assert_eq!(NudgeError::PassphraseNotFound.message(), "Passphrase not found");
    assert_eq!(NudgeError::UnknownCommand.message(), "Unknown command");
    assert_eq!(
        NudgeError::BufferSizeLimitExceeded(70000).message(),
        "Buffer size exceeds the maximum allowed limit of 65532 bytes. Received: 70000 bytes."
    );
    assert_eq!(
        NudgeError::DataPacketLimitExceeded(0).message(),
        "Data packet exceeds the maximum allowed limit of 65532 bytes. Received: 0 bytes."
    );
    assert_eq!(
        NudgeError::ReceiveExpectationNotMet(String::from("X2R_AFI"), String::from("X2S_PPM"))
            .message(),
        "Expected X2R_AFI, but received X2S_PPM"
    );
    assert_eq!(
        NudgeError::HashMismatch(String::from("aa"), String::from("bb")).message(),
        "Hash mismatch! Expected: aa, Received: bb"
    );
}
