use lambdo::protocol::{
    classify_line, decode_message, format_message, AgentChannel, ChannelAction, LineKind, Phase,
};
use lambdo::vmm::Error;

#[test]
fn frame_has_eight_digit_prefix() {
    assert_eq!(format_message("{\"a\":1}"), "00000007{\"a\":1}");
    assert_eq!(format_message(""), "00000000");
}

#[test]
fn frame_counts_bytes_not_characters() {
    assert_eq!(format_message("é"), "00000002é");
}

#[test]
fn frame_round_trip_with_special_characters() {
    let payloads = [
        "{\"steps\":[{\"command\":\"echo \\\"hi\\\"\"}]}",
        "line one\nline two\n{}",
        "",
        "naïve ✓ {\"q\":\"\\n\"}",
    ];
    for p in payloads {
        let framed = format_message(p);
        assert_eq!(decode_message(&framed), Some(p.to_string()));
    }
}

#[test]
fn decode_rejects_malformed_frames() {
    assert_eq!(decode_message("0000005"), None);
    assert_eq!(decode_message("0000000x"), None);
    assert_eq!(decode_message("00000003ab"), None);
    assert_eq!(decode_message("00000001ab"), None);
}

#[test]
fn classify_status_lines() {
    assert_eq!(classify_line("{\"type\":\"status\",\"code\":\"ready\"}"), LineKind::Ready);
    assert_eq!(classify_line("{\"code\":\"ready\",\"type\":\"status\"}"), LineKind::Ready);
    assert_eq!(classify_line("{\"type\":\"status\",\"code\":\"error\"}"), LineKind::BadStatus);
    assert_eq!(classify_line("{\"type\":\"status\",\"code\":\"readyx\"}"), LineKind::BadStatus);
    assert_eq!(classify_line("{\"type\":\"status\"}"), LineKind::BadStatus);
    assert_eq!(classify_line("{\"type\":\"status\",\"code\":}"), LineKind::BadStatus);
    assert_eq!(classify_line("{\"data\":{\"id\":\"1\"}}"), LineKind::Payload);
    assert_eq!(classify_line(""), LineKind::Payload);
}

#[test]
fn handshake_sends_once_and_collects_output() {
    let mut ch = AgentChannel::new("{\"id\":\"1\"}");
    assert!(matches!(ch.on_line("booting"), ChannelAction::Recorded));
    match ch.on_line("{\"type\":\"status\",\"code\":\"ready\"}") {
        ChannelAction::Send(f) => assert_eq!(f, "00000010{\"id\":\"1\"}"),
        other => panic!("unexpected {:?}", other),
    }
    assert_eq!(ch.phase, Phase::Executing);
    assert!(matches!(
        ch.on_line("{\"type\":\"status\",\"code\":\"ready\"}"),
        ChannelAction::Ignored
    ));
    assert!(matches!(ch.on_line(""), ChannelAction::Ignored));
    assert!(matches!(ch.on_line("{\"data\":1}"), ChannelAction::Recorded));
    assert_eq!(ch.on_close().unwrap(), "booting\n{\"data\":1}\n");
}

#[test]
fn handshake_rejects_bad_status() {
    let mut ch = AgentChannel::new("{}");
    assert!(matches!(
        ch.on_line("{\"type\":\"status\",\"code\":\"failed\"}"),
        ChannelAction::Fail(Error::BadAgentStatus)
    ));
    assert_eq!(ch.phase, Phase::Rejected);
    assert!(matches!(
        ch.on_line("{\"type\":\"status\",\"code\":\"ready\"}"),
        ChannelAction::Ignored
    ));
    assert!(matches!(ch.on_close(), Err(Error::BadAgentStatus)));
}

#[test]
fn closing_before_ready_fails() {
    let ch = AgentChannel::new("{}");
    assert!(matches!(ch.on_close(), Err(Error::BadAgentStatus)));
}

#[test]
fn deadline_fails_a_live_attempt() {
    let mut ch = AgentChannel::new("{}");
    assert_eq!(ch.on_deadline(), Some(Error::AgentTimeout));
    assert_eq!(ch.phase, Phase::Rejected);
    assert_eq!(ch.on_deadline(), None);
}
