//! Tests of the line protocol: framing, byte-stuffing, the status reply,
//! command encoding, the fetch plan and the connect handshake.

use linksy::errors::ProtocolError;
use linksy::pop3::{
    dele_command, encode_command, fetch_plan, is_positive_response, parse_stat_response,
    pass_command, quit_command, read_multiline_response, read_response, retr_command,
    retr_commands, stat_command, user_command, ConnectAction, ConnectStage, Pop3Handshake,
};
use linksy::text::{parse_dec_u16, parse_dec_u64, u64_dec_bytes, u64_dec_string};

#[test]
fn multiline_unstuffs_and_stops_at_sentinel() {
    let input = b"..hello\r\n.\r\n";
    let (lines, used) = read_multiline_response(input).expect("complete response");
    assert_eq!(lines.len(), 1);
    assert_eq!(lines[0], b".hello".to_vec());
    assert_eq!(used, input.len());
}

#[test]
fn multiline_keeps_lines_in_order() {
    let input = b"alpha\r\nbeta\r\n..dot\r\n.\r\ntrailing";
    let (lines, used) = read_multiline_response(input).expect("complete response");
    assert_eq!(lines.len(), 3);
    assert_eq!(lines[0], b"alpha".to_vec());
    assert_eq!(lines[1], b"beta".to_vec());
    assert_eq!(lines[2], b".dot".to_vec());
    assert_eq!(used, input.len() - "trailing".len());
}

#[test]
fn multiline_unstuffs_at_every_position() {
    let input = b"one\r\n..two\r\n.three\r\n....four\r\n.\r\n";
    let (lines, used) = read_multiline_response(input).expect("complete response");
    assert_eq!(lines.len(), 4);
    assert_eq!(lines[0], b"one".to_vec());
    assert_eq!(lines[1], b".two".to_vec());
    assert_eq!(lines[2], b".three".to_vec());
    assert_eq!(lines[3], b"...four".to_vec());
    assert_eq!(used, input.len());
}

#[test]
fn multiline_without_sentinel_is_incomplete() {
    assert!(read_multiline_response(b"alpha\r\nbeta\r\n").is_none());
    assert!(read_multiline_response(b"").is_none());
}

#[test]
fn multiline_sentinel_alone_is_empty_response() {
    let (lines, used) = read_multiline_response(b".\r\n").expect("complete response");
    assert_eq!(lines.len(), 0);
    assert_eq!(used, 3);
}

#[test]
fn single_line_reply_is_stripped() {
    let (line, used) = read_response(b"+OK hi\r\nrest").expect("complete line");
    assert_eq!(line, b"+OK hi".to_vec());
    assert_eq!(used, 8);
}

#[test]
fn single_line_reply_without_terminator_is_incomplete() {
    assert!(read_response(b"+OK hi").is_none());
}

#[test]
fn positive_status_token_is_recognised() {
    assert!(is_positive_response(b"+OK"));
    assert!(is_positive_response(b"+OK 3 450"));
    assert!(!is_positive_response(b"-ERR no"));
    assert!(!is_positive_response(b"+O"));
}

#[test]
fn stat_reply_reports_the_count() {
    assert_eq!(parse_stat_response(b"+OK 3 450"), Some(3));
    assert_eq!(parse_stat_response(b"+OK 12 99999 extra"), Some(12));
    assert_eq!(parse_stat_response(b"-ERR nope"), None);
    assert_eq!(parse_stat_response(b"+OK 3"), None);
    assert_eq!(parse_stat_response(b"+OK x 450"), None);
}

#[test]
fn commands_end_with_the_terminator() {
    assert_eq!(encode_command(b"CAPA"), b"CAPA\r\n".to_vec());
    assert_eq!(linksy::pop3::noop_command(), b"NOOP\r\n".to_vec());
    assert_eq!(user_command("alice"), b"USER alice\r\n".to_vec());
    assert_eq!(pass_command("sesame"), b"PASS sesame\r\n".to_vec());
    assert_eq!(stat_command(), b"STAT\r\n".to_vec());
    assert_eq!(quit_command(), b"QUIT\r\n".to_vec());
    assert_eq!(retr_command(12), b"RETR 12\r\n".to_vec());
    assert_eq!(dele_command(3), b"DELE 3\r\n".to_vec());
}

#[test]
fn fetch_plan_selects_the_most_recent_messages() {
    assert_eq!(fetch_plan(3, 2), (2, 3));
    assert_eq!(fetch_plan(3, 5), (1, 3));
    assert_eq!(fetch_plan(3, 3), (1, 3));
    assert_eq!(fetch_plan(0, 2), (1, 0));
    assert_eq!(fetch_plan(3, 0), (1, 0));
}

#[test]
fn retrieval_commands_cover_exactly_the_plan() {
    assert_eq!(
        retr_commands(3, 2),
        vec![b"RETR 2\r\n".to_vec(), b"RETR 3\r\n".to_vec()]
    );
    assert_eq!(
        retr_commands(2, 5),
        vec![b"RETR 1\r\n".to_vec(), b"RETR 2\r\n".to_vec()]
    );
    assert_eq!(retr_commands(0, 5), Vec::<Vec<u8>>::new());
    assert_eq!(retr_commands(3, 0), Vec::<Vec<u8>>::new());
}

#[test]
fn handshake_walks_greeting_identity_secret_status() {
    let mut hs = Pop3Handshake::new();
    assert_eq!(hs.stage, ConnectStage::AwaitGreeting);
    assert_eq!(hs.step(b"+OK ready").unwrap(), ConnectAction::SendUser);
    assert_eq!(hs.step(b"+OK user ok").unwrap(), ConnectAction::SendPass);
    assert_eq!(hs.step(b"+OK pass ok").unwrap(), ConnectAction::SendStat);
    assert_eq!(hs.step(b"+OK 3 450").unwrap(), ConnectAction::Done);
    assert_eq!(hs.stage, ConnectStage::Ready);
    assert_eq!(hs.message_count, Some(3));
}

#[test]
fn handshake_rejects_bad_greeting() {
    let mut hs = Pop3Handshake::new();
    match hs.step(b"-ERR busy") {
        Err(ProtocolError::BadGreeting(line)) => assert_eq!(line, b"-ERR busy".to_vec()),
        _ => panic!("expected a greeting failure"),
    }
    assert_eq!(hs.stage, ConnectStage::AwaitGreeting);
}

#[test]
fn handshake_rejects_failed_authentication() {
    let mut hs = Pop3Handshake::new();
    hs.step(b"+OK ready").unwrap();
    hs.step(b"+OK").unwrap();
    match hs.step(b"-ERR wrong secret") {
        Err(ProtocolError::AuthFailed(line)) => {
            assert_eq!(line, b"-ERR wrong secret".to_vec())
        },
        _ => panic!("expected an authentication failure"),
    }
    assert_eq!(hs.stage, ConnectStage::AwaitPassOk);
}

#[test]
fn handshake_keeps_count_unset_on_malformed_status() {
    let mut hs = Pop3Handshake::new();
    hs.step(b"+OK").unwrap();
    hs.step(b"+OK").unwrap();
    hs.step(b"+OK").unwrap();
    assert_eq!(hs.step(b"+OK done").unwrap(), ConnectAction::Done);
    assert_eq!(hs.stage, ConnectStage::Ready);
    assert_eq!(hs.message_count, None);
}

#[test]
fn decimal_rendering_is_exact() {
    assert_eq!(u64_dec_string(0), "0".to_string());
    assert_eq!(u64_dec_string(7), "7".to_string());
    assert_eq!(u64_dec_string(12345), "12345".to_string());
    assert_eq!(u64_dec_bytes(450), b"450".to_vec());
}

#[test]
fn decimal_parsing_is_exact() {
    assert_eq!(parse_dec_u64(b"450"), Some(450));
    assert_eq!(parse_dec_u64(b"0"), Some(0));
    assert_eq!(parse_dec_u64(b""), None);
    assert_eq!(parse_dec_u64(b"4a0"), None);
    assert_eq!(parse_dec_u64(b"18446744073709551615"), Some(u64::MAX));
    assert_eq!(parse_dec_u64(b"18446744073709551616"), None);
    assert_eq!(parse_dec_u16("993"), Some(993));
    assert_eq!(parse_dec_u16("65535"), Some(65535));
    assert_eq!(parse_dec_u16("65536"), None);
    assert_eq!(parse_dec_u16(""), None);
    assert_eq!(parse_dec_u16("9x"), None);
}
