use nudge::codec::frame_message;
use nudge::codec::frame_reply;
use nudge::codec::parse_and_expect;
use nudge::codec::split_frame;
use nudge::codec::str_eq;
use nudge::error::NudgeError;

#[test]
fn test_frame_message_joins_tag_and_body() {
    let framed = frame_message("S2X_RP", "{\"file_size\":5}");
    assert_eq!(framed, "S2X_RP {\"file_size\":5}");
}

#[test]
fn test_frame_reply_ends_the_line() {
    let framed = frame_reply("ERROR", "Passphrase not found");
    assert_eq!(framed, "ERROR Passphrase not found\n");
}

#[test]
fn test_split_frame_round_trip() {
    let framed = frame_message("R2X_RFI", "{\"passphrase\":\"a-b-c\"}");
    let (tag, body) = split_frame(&framed);
    assert_eq!(tag, "R2X_RFI");
    assert_eq!(body, "{\"passphrase\":\"a-b-c\"}");
}

#[test]
fn test_split_frame_without_body() {
    let (tag, body) = split_frame("R2X_RFI");
    assert_eq!(tag, "R2X_RFI");
    assert_eq!(body, "");
}

#[test]
fn test_parse_and_expect_accepts_matching_tag() {
    let body = parse_and_expect("X2S_PPM {\"passphrase\":\"a-b-c\"}", "X2S_PPM").unwrap();
    assert_eq!(body, "{\"passphrase\":\"a-b-c\"}");
}

#[test]
fn test_parse_and_expect_tolerates_trailing_noise() {
    let body =
        parse_and_expect("X2S_PPM {\"passphrase\":\"a-b-c\"}  \n\0\0\0\0", "X2S_PPM").unwrap();
    assert_eq!(body, "{\"passphrase\":\"a-b-c\"}");
}

#[test]
fn test_receive_expectation_not_met() {
    let result: Result<String, NudgeError> = parse_and_expect("Y {\"a\":1}", "X");
    match result {
        Err(NudgeError::ReceiveExpectationNotMet(expected, got)) => {
            assert_eq!(expected, "X");
            assert_eq!(got, "Y");
        }
        other => panic!("expected ReceiveExpectationNotMet, got {:?}", other),
    }
}

#[test]
fn test_error_line_becomes_server_error() {
    let result: Result<String, NudgeError> =
        parse_and_expect("ERROR Passphrase not found\n\0\0", "X2R_AFI");
    match result {
        Err(NudgeError::ServerError(line)) => {
            assert_eq!(line, "ERROR Passphrase not found\n");
        }
        other => panic!("expected ServerError, got {:?}", other),
    }
}

#[test]
fn test_str_eq() {
    assert!(str_eq("abc", "abc"));
    assert!(!str_eq("abc", "abd"));
    assert!(!str_eq("abc", "abcd"));
}
