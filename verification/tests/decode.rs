use spawner_driver::message::{Message, MessageKind};
use spawner_driver::wire::{AgentIdx, DecodeError};

fn error_of(line: &[u8]) -> DecodeError {
    match Message::parse(line) {
        Ok(message) => panic!("decoded {:?}", message),
        Err(e) => e,
    }
}

fn decoded(line: &[u8]) -> Message<'_> {
    match Message::parse(line) {
        Ok(message) => message,
        Err(e) => panic!("refused with {:?}", e),
    }
}

#[test]
fn data_line_for_first_agent() {
    let message = decoded(b"1#hello\n");
    assert_eq!(message.agent_idx(), Some(AgentIdx(0)));
    assert_eq!(*message.kind(), MessageKind::Data(b"hello"));
}

#[test]
fn terminate_line_for_third_agent() {
    let message = decoded(b"3S#\n");
    assert_eq!(message.agent_idx(), Some(AgentIdx(2)));
    assert_eq!(*message.kind(), MessageKind::Terminate);
}

#[test]
fn resume_line_without_target() {
    let message = decoded(b"0W#\n");
    assert_eq!(message.agent_idx(), None);
    assert_eq!(*message.kind(), MessageKind::Resume);
}

#[test]
fn data_line_without_target() {
    let message = decoded(b"0#hello\n");
    assert_eq!(message.agent_idx(), None);
    assert_eq!(*message.kind(), MessageKind::Data(b"hello"));
}

#[test]
fn resume_line_for_second_agent() {
    let message = decoded(b"2W#\n");
    assert_eq!(message.agent_idx(), Some(AgentIdx(1)));
    assert_eq!(*message.kind(), MessageKind::Resume);
}

#[test]
fn data_line_abc() {
    let message = decoded(b"1#abc\n");
    assert_eq!(message.agent_idx(), Some(AgentIdx(0)));
    assert_eq!(*message.kind(), MessageKind::Data(b"abc"));
}

#[test]
fn control_lines_ignore_their_payload() {
    let message = decoded(b"4S#ignored\n");
    assert_eq!(message.agent_idx(), Some(AgentIdx(3)));
    assert_eq!(*message.kind(), MessageKind::Terminate);
    let message = decoded(b"4W#ignored\n");
    assert_eq!(*message.kind(), MessageKind::Resume);
}

#[test]
fn empty_line_is_empty_message() {
    assert_eq!(error_of(b""), DecodeError::EmptyMessage);
}

#[test]
fn line_without_newline_is_missing_terminator() {
    assert_eq!(error_of(b"abc"), DecodeError::MissingTerminator);
    assert_eq!(error_of(b"1#hello"), DecodeError::MissingTerminator);
    assert_eq!(error_of(b"1#hello\n "), DecodeError::MissingTerminator);
}

#[test]
fn line_without_hash_is_missing_separator() {
    assert_eq!(error_of(b"0abc\n"), DecodeError::MissingSeparator);
    assert_eq!(error_of(b"\n"), DecodeError::MissingSeparator);
}

#[test]
fn line_starting_with_hash_is_missing_header() {
    assert_eq!(error_of(b"#payload\n"), DecodeError::MissingHeader);
    assert_eq!(error_of(b"#\n"), DecodeError::MissingHeader);
}

#[test]
fn header_that_is_not_utf8_is_invalid_encoding() {
    assert_eq!(error_of(b"\xff#x\n"), DecodeError::InvalidHeaderEncoding);
    assert_eq!(error_of(b"1\xc3#x\n"), DecodeError::InvalidHeaderEncoding);
    assert_eq!(error_of(b"1\xed\xa0\x80#x\n"), DecodeError::InvalidHeaderEncoding);
}

#[test]
fn payload_need_not_be_utf8() {
    let message = decoded(b"1#\xff\xfe\n");
    assert_eq!(*message.kind(), MessageKind::Data(b"\xff\xfe"));
}

#[test]
fn unknown_command_is_invalid_command() {
    assert_eq!(error_of(b"1X#payload\n"), DecodeError::InvalidCommand);
    assert_eq!(error_of(b"1w#\n"), DecodeError::InvalidCommand);
    assert_eq!(error_of(b"1WS#\n"), DecodeError::InvalidCommand);
    assert_eq!(error_of(b"1WW#\n"), DecodeError::InvalidCommand);
    assert_eq!(error_of(b"1 #\n"), DecodeError::InvalidCommand);
    assert_eq!(error_of(b"1W1#\n"), DecodeError::InvalidCommand);
    assert_eq!(error_of("1\u{e9}#x\n".as_bytes()), DecodeError::InvalidCommand);
}

#[test]
fn overflowing_index_is_invalid_index() {
    assert_eq!(error_of(b"99999999999999999999#x\n"), DecodeError::InvalidIndex);
    assert_eq!(
        error_of(b"99999999999999999999999999999999999999999W#\n"),
        DecodeError::InvalidIndex
    );
}

#[test]
fn header_without_digits_is_invalid_index() {
    assert_eq!(error_of(b"W#\n"), DecodeError::InvalidIndex);
    assert_eq!(error_of(b"S#x\n"), DecodeError::InvalidIndex);
    assert_eq!(error_of(b"-1#x\n"), DecodeError::InvalidIndex);
    assert_eq!(error_of(b"+1#x\n"), DecodeError::InvalidIndex);
    assert_eq!(error_of(b" 1#x\n"), DecodeError::InvalidIndex);
    assert_eq!(error_of("\u{e9}#x\n".as_bytes()), DecodeError::InvalidIndex);
}

#[test]
fn largest_index_is_accepted() {
    let line = format!("{}#x\n", usize::MAX);
    let message = decoded(line.as_bytes());
    assert_eq!(message.agent_idx(), Some(AgentIdx(usize::MAX - 1)));
    assert_eq!(*message.kind(), MessageKind::Data(b"x"));
}

#[test]
fn index_past_the_largest_is_refused() {
    let largest = format!("{}", usize::MAX);
    let (head, last) = largest.split_at(largest.len() - 1);
    let next = format!("{}{}#x\n", head, last.parse::<u8>().unwrap() + 1);
    assert_eq!(error_of(next.as_bytes()), DecodeError::InvalidIndex);
    let tenfold = format!("{}0#x\n", largest);
    assert_eq!(error_of(tenfold.as_bytes()), DecodeError::InvalidIndex);
}

#[test]
fn leading_zeros_do_not_change_the_number() {
    let message = decoded(b"007#x\n");
    assert_eq!(message.agent_idx(), Some(AgentIdx(6)));
    let message = decoded(b"000W#\n");
    assert_eq!(message.agent_idx(), None);
    assert_eq!(*message.kind(), MessageKind::Resume);
    let message = decoded(b"0000000000000000000000000000012S#\n");
    assert_eq!(message.agent_idx(), Some(AgentIdx(11)));
}

#[test]
fn numbers_are_read_in_base_ten() {
    assert_eq!(decoded(b"10#\n").agent_idx(), Some(AgentIdx(9)));
    assert_eq!(decoded(b"1234567#\n").agent_idx(), Some(AgentIdx(1234566)));
    assert_eq!(decoded(b"4294967295#\n").agent_idx(), Some(AgentIdx(4294967294)));
}

#[test]
fn well_formed_lines_decode_to_what_they_say() {
    let suffixes: [&str; 3] = ["", "W", "S"];
    let payloads: [&str; 4] = ["", "x", "some words", "#"];
    for n in 0usize..40 {
        for suffix in suffixes {
            for payload in payloads {
                let line = format!("{}{}#{}\n", n, suffix, payload);
                let message = decoded(line.as_bytes());
                if n == 0 {
                    assert_eq!(message.agent_idx(), None);
                } else {
                    assert_eq!(message.agent_idx(), Some(AgentIdx(n - 1)));
                }
                match suffix {
                    "" => assert_eq!(*message.kind(), MessageKind::Data(payload.as_bytes())),
                    "W" => assert_eq!(*message.kind(), MessageKind::Resume),
                    _ => assert_eq!(*message.kind(), MessageKind::Terminate),
                }
            }
        }
    }
}

#[test]
fn decoding_twice_gives_the_same() {
    let lines: [&[u8]; 8] = [
        b"1#hello\n", b"3S#\n", b"0W#\n", b"", b"abc", b"0abc\n", b"#payload\n", b"1X#payload\n",
    ];
    for line in lines {
        assert_eq!(Message::parse(line), Message::parse(line));
    }
}

#[test]
fn payload_is_handed_over_unchanged() {
    let message = decoded(b"1#a#b\n");
    assert_eq!(*message.kind(), MessageKind::Data(b"a#b"));
    let message = decoded(b"1###\n");
    assert_eq!(*message.kind(), MessageKind::Data(b"##"));
    let message = decoded(b"1#\n");
    assert_eq!(*message.kind(), MessageKind::Data(b""));
    let message = decoded(b"1#  two  spaces \t\n");
    assert_eq!(*message.kind(), MessageKind::Data(b"  two  spaces \t"));
}

#[test]
fn every_payload_byte_but_newline_round_trips() {
    let mut payload: Vec<u8> = Vec::new();
    for b in 0u8..=255 {
        if b != b'\n' {
            payload.push(b);
        }
    }
    let mut line: Vec<u8> = Vec::new();
    line.extend_from_slice(b"12#");
    line.extend_from_slice(&payload);
    line.push(b'\n');
    let message = decoded(&line);
    assert_eq!(message.agent_idx(), Some(AgentIdx(11)));
    assert_eq!(*message.kind(), MessageKind::Data(&payload));
}

#[test]
fn only_the_last_newline_is_taken_off() {
    let message = decoded(b"1#a\nb\n");
    assert_eq!(*message.kind(), MessageKind::Data(b"a\nb"));
    let message = decoded(b"1#\n\n");
    assert_eq!(*message.kind(), MessageKind::Data(b"\n"));
}

#[test]
fn payload_borrows_from_the_line() {
    let line: Vec<u8> = b"5#payload\n".to_vec();
    let message = decoded(&line);
    match *message.kind() {
        MessageKind::Data(payload) => {
            assert_eq!(payload.as_ptr(), line[2..].as_ptr());
            assert_eq!(payload.len(), 7);
        }
        _ => panic!("not a data message"),
    }
}

#[test]
fn a_bad_line_does_not_spoil_the_next() {
    assert_eq!(error_of(b"1X#payload\n"), DecodeError::InvalidCommand);
    let message = decoded(b"1#payload\n");
    assert_eq!(*message.kind(), MessageKind::Data(b"payload"));
}

#[test]
fn every_error_says_what_was_wrong() {
    assert_eq!(DecodeError::EmptyMessage.description(), "Empty controller message");
    assert_eq!(
        DecodeError::MissingTerminator.description(),
        "Controller message must end with '\\n'"
    );
    assert_eq!(DecodeError::MissingSeparator.description(), "Missing '#' in controller message");
    assert_eq!(DecodeError::MissingHeader.description(), "Missing header in controller message");
    assert_eq!(
        DecodeError::InvalidHeaderEncoding.description(),
        "Invalid header in controller message"
    );
    assert_eq!(
        DecodeError::InvalidIndex.description(),
        "Unable to parse agent index in controller message"
    );
    assert_eq!(
        DecodeError::InvalidCommand.description(),
        "Invalid controller command in controller message"
    );
}
