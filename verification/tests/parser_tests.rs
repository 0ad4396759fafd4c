use roker::parser::parse_frame;
use roker::parser::split_lines;
use roker::stomp::StompCommand;
use roker::stomp::StompError;

#[test]
fn split_lines_basics() {
    assert_eq!(split_lines(""), Vec::<String>::new());
    assert_eq!(split_lines("a"), vec!["a".to_string()]);
    assert_eq!(split_lines("a\n"), vec!["a".to_string()]);
    assert_eq!(split_lines("a\n\nb"), vec!["a".to_string(), "".to_string(), "b".to_string()]);
    assert_eq!(split_lines("\n"), vec!["".to_string()]);
}

#[test]
fn parse_send_with_headers_and_body() {
    let frame = parse_frame("SEND\ndestination:/queue/a\ncontent-type:text/plain\n\nhello")
        .expect("a valid frame");
    assert_eq!(frame.command(), StompCommand::Send);
    assert_eq!(
        frame.headers(),
        &[
            ("destination".to_string(), "/queue/a".to_string()),
            ("content-type".to_string(), "text/plain".to_string()),
        ]
    );
    assert_eq!(frame.body(), Some("hello"));
}

#[test]
fn header_value_keeps_colons() {
    let frame = parse_frame("SEND\ntimestamp:12:30:00\n\n").expect("a valid frame");
    assert_eq!(frame.command(), StompCommand::Send);
    assert_eq!(frame.headers(), &[("timestamp".to_string(), "12:30:00".to_string())]);
    assert!(frame.body().is_none());
}

#[test]
fn bare_disconnect_has_no_headers_and_no_body() {
    let frame = parse_frame("DISCONNECT\n\n").expect("a valid frame");
    assert_eq!(frame.command(), StompCommand::Disconnect);
    assert!(frame.headers().is_empty());
    assert!(frame.body().is_none());
}

#[test]
fn multi_line_body_keeps_single_newline_separators() {
    let frame = parse_frame("SEND\n\nline1\nline2\nline3").expect("a valid frame");
    assert_eq!(frame.command(), StompCommand::Send);
    assert!(frame.headers().is_empty());
    assert_eq!(frame.body(), Some("line1\nline2\nline3"));
}

#[test]
fn body_keeps_embedded_blank_lines() {
    let frame = parse_frame("SEND\n\nline1\n\nline3").expect("a valid frame");
    assert_eq!(frame.body(), Some("line1\n\nline3"));
}

#[test]
fn empty_message_is_a_parse_error() {
    assert!(matches!(parse_frame(""), Err(StompError::UnknownCommand)));
}

#[test]
fn whitespace_only_messages_are_parse_errors() {
    assert!(matches!(parse_frame("\n"), Err(StompError::UnknownCommand)));
    assert!(matches!(parse_frame("\n\n\n"), Err(StompError::UnknownCommand)));
    assert!(matches!(parse_frame("   "), Err(StompError::UnknownCommand)));
    assert!(matches!(parse_frame(" \n \n"), Err(StompError::UnknownCommand)));
}

#[test]
fn unknown_command_is_fatal_for_the_frame() {
    assert!(matches!(parse_frame("SHOUT\ndestination:/queue/a\n\nhello"), Err(StompError::UnknownCommand)));
    assert!(matches!(parse_frame("send\n\n"), Err(StompError::UnknownCommand)));
}

#[test]
fn header_line_without_colon_is_malformed() {
    assert!(matches!(parse_frame("SEND\nnocolon\n\nbody"), Err(StompError::MalformedHeader)));
    assert!(matches!(parse_frame("SEND\ndestination:/queue/a\nbroken header\n\n"), Err(StompError::MalformedHeader)));
}

#[test]
fn headers_may_run_to_end_of_message() {
    let frame = parse_frame("SEND\ndestination:/queue/a").expect("a valid frame");
    assert_eq!(frame.command(), StompCommand::Send);
    assert_eq!(frame.headers(), &[("destination".to_string(), "/queue/a".to_string())]);
    assert!(frame.body().is_none());
}

#[test]
fn command_line_may_follow_leading_blank_lines() {
    let frame = parse_frame("\nDISCONNECT\n\n").expect("a valid frame");
    assert_eq!(frame.command(), StompCommand::Disconnect);
    assert!(frame.headers().is_empty());
}

#[test]
fn empty_header_value_is_kept() {
    let frame = parse_frame("SEND\nreceipt:\n\n").expect("a valid frame");
    assert_eq!(frame.headers(), &[("receipt".to_string(), "".to_string())]);
}

#[test]
fn trailing_newline_does_not_add_a_body_line() {
    let frame = parse_frame("SEND\n\nhello\n").expect("a valid frame");
    assert_eq!(frame.body(), Some("hello"));
}
