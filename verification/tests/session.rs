use mailing_list::client_handler::states::connected::{handle_connected, ConnectedState};
use mailing_list::client_handler::states::from::{handle_from, FromState};
use mailing_list::client_handler::states::idle::{handle_idle, IdleState};
use mailing_list::client_handler::states::recieving::{handle_recieving, RecievingState};
use mailing_list::client_handler::{
    get_recipients, get_sender, handle_client, init_connection, parse_message, read_command,
    recieve_mail, Message, State, StateType, Step,
};
use mailing_list::config::{ForwardingOptions, List, LocalList, ServerConfig};
use mailing_list::error::Error;
use mailing_list::mail::{Dispatch, Mail};
use mailing_list::smtp::Request;
use mailing_list::stream::Stream;

fn plain_config() -> ServerConfig {
    ServerConfig::new("mail.test".to_string())
}

fn written(state: &mut State) -> String {
    String::from_utf8(state.stream.take_outbound()).unwrap()
}

fn say(
    state: &mut State,
    messages: &mut Vec<Mail>,
    config: &ServerConfig,
    text: &str,
) -> (Result<Step, Error>, String) {
    state.stream.feed(text.as_bytes());
    let result = handle_client(state, messages, config);
    let reply = written(state);
    (result, reply)
}

fn idle_session(host: &str) -> State {
    let mut state = State::new();
    let mut messages = Vec::new();
    let config = plain_config();
    let _ = written(&mut state);
    let (result, _) = say(&mut state, &mut messages, &config, &format!("HELO {host}\r\n"));
    assert_eq!(result, Ok(Step::Continue));
    state
}

#[test]
fn new_session_greets_in_the_clear() {
    let mut state = State::new();
    assert!(matches!(state.state_type, StateType::Connected(_)));
    assert!(!state.stream.is_tls());
    assert_eq!(written(&mut state), "220 2.2.0 SMTP mailing-list\r\n");
}

#[test]
fn end_to_end_session() {
    let config = plain_config();
    let mut messages = Vec::new();
    let mut state = State::new();
    assert!(written(&mut state).starts_with("220 "));

    let (result, reply) = say(&mut state, &mut messages, &config, "EHLO client.test\r\n");
    assert_eq!(result, Ok(Step::Continue));
    assert_eq!(reply, "250 2.5.0 Welcome client.test\r\n");
    assert!(reply.starts_with("250"));

    let (result, reply) = say(&mut state, &mut messages, &config, "MAIL FROM:<u@a>\r\n");
    assert_eq!(result, Ok(Step::Continue));
    assert_eq!(reply, "250 2.1.0 Originator u@a okay\r\n");

    let (result, reply) = say(&mut state, &mut messages, &config, "RCPT TO:<v@b>\r\n");
    assert_eq!(result, Ok(Step::Continue));
    assert_eq!(reply, "250 2.1.0 Reciever v@b okay\r\n");

    let (result, reply) = say(&mut state, &mut messages, &config, "DATA\r\n");
    assert_eq!(result, Ok(Step::Continue));
    assert_eq!(reply, "354 2.0.0 End with CRLF.CRLF\r\n");
    assert!(matches!(state.state_type, StateType::Recieving(_)));

    let (result, reply) = say(&mut state, &mut messages, &config, "test\r\n.\r\n");
    assert_eq!(result, Ok(Step::Deliver(vec![])));
    assert_eq!(reply, "250 2.6.0 Message Recieved Succesfully!!\r\n");
    assert_eq!(
        messages,
        vec![Mail {
            from: "u@a".to_string(),
            to: vec!["v@b".to_string()],
            payload: b"test\r\n".to_vec(),
        }]
    );
    match &state.state_type {
        StateType::Idle(idle) => assert_eq!(idle.foreign_host, "client.test"),
        other => panic!("not idle: {other:?}"),
    }

    let (result, reply) = say(&mut state, &mut messages, &config, "QUIT\r\n");
    assert_eq!(result, Err(Error::Quit));
    assert_eq!(reply, "221 2.0.0 Byebye!\r\n");
}

#[test]
fn data_block_payload_excludes_terminator() {
    let config = plain_config();
    let mut messages = Vec::new();
    let mut state = idle_session("peer");
    say(&mut state, &mut messages, &config, "MAIL FROM:<a@b>\r\n");
    say(&mut state, &mut messages, &config, "RCPT TO:<c@d>\r\n");
    say(&mut state, &mut messages, &config, "DATA\r\n");
    let (result, _) = say(&mut state, &mut messages, &config, "Hello\r\n.\r\n");
    assert_eq!(result, Ok(Step::Deliver(vec![])));
    assert_eq!(messages.len(), 1);
    assert_eq!(messages[0].payload, b"Hello\r\n".to_vec());
}

#[test]
fn data_with_zero_recipients_is_taken() {
    let config = plain_config();
    let mut messages = Vec::new();
    let mut state = idle_session("peer");
    let (result, _) = say(&mut state, &mut messages, &config, "MAIL FROM:<a@b>\r\n");
    assert_eq!(result, Ok(Step::Continue));
    let (result, reply) = say(&mut state, &mut messages, &config, "DATA\r\n");
    assert_eq!(result, Ok(Step::Continue));
    assert!(reply.starts_with("354 "));
    match &state.state_type {
        StateType::Recieving(s) => {
            assert_eq!(s.from, "a@b");
            assert!(s.to.is_empty());
        }
        other => panic!("not receiving: {other:?}"),
    }
    let (result, reply) = say(&mut state, &mut messages, &config, "x\r\n.\r\n");
    assert_eq!(result, Ok(Step::Deliver(vec![])));
    assert!(reply.starts_with("250 "));
    assert_eq!(messages[0].to, Vec::<String>::new());
    assert_eq!(messages[0].from, "a@b");
}

#[test]
fn data_with_zero_recipients_and_relay_is_refused_with_552() {
    let mut config = plain_config();
    config.forwarding = Some(ForwardingOptions {
        enable: true,
        server: Some("relay.test".to_string()),
        server_tls: "relay.test".to_string(),
        port: None,
    });
    let mut messages = Vec::new();
    let mut state = idle_session("peer");
    say(&mut state, &mut messages, &config, "MAIL FROM:<a@b>\r\n");
    say(&mut state, &mut messages, &config, "DATA\r\n");
    let (result, reply) = say(&mut state, &mut messages, &config, "x\r\n.\r\n");
    assert_eq!(result, Ok(Step::Continue));
    assert_eq!(reply, "552 5.5.0 Woopsie\r\n");
    assert!(matches!(state.state_type, StateType::Idle(_)));
    assert_eq!(messages.len(), 1);
}

#[test]
fn starttls_twice_is_protocol_misuse() {
    let config = plain_config();
    let mut messages = Vec::new();
    let mut state = idle_session("peer");

    let (result, reply) = say(&mut state, &mut messages, &config, "STARTTLS\r\n");
    assert_eq!(result, Ok(Step::Upgrade));
    assert_eq!(reply, "220 2.2.0 Go ahead\r\n");
    assert!(state.stream.is_tls());
    assert!(matches!(state.state_type, StateType::Connected(_)));

    let (result, _) = say(&mut state, &mut messages, &config, "MAIL FROM:<a@b>\r\n");
    assert_eq!(result, Ok(Step::Continue));
    assert!(matches!(state.state_type, StateType::Connected(_)));

    let (result, _) = say(&mut state, &mut messages, &config, "EHLO peer\r\n");
    assert_eq!(result, Ok(Step::Continue));

    let (result, reply) = say(&mut state, &mut messages, &config, "STARTTLS\r\n");
    assert_eq!(result, Err(Error::ProtocolMisuse));
    assert_eq!(reply, "");
    assert!(state.stream.is_tls());
    assert_eq!(state.stream.unread(), 0);
    match &state.state_type {
        StateType::Idle(idle) => assert_eq!(idle.foreign_host, "peer"),
        other => panic!("not idle: {other:?}"),
    }
}

#[test]
fn round_trip_keeps_envelope() {
    let mut config = plain_config();
    config.forwarding = Some(ForwardingOptions {
        enable: true,
        server: None,
        server_tls: "tls.test".to_string(),
        port: Some(2525),
    });
    let mut messages = Vec::new();
    let mut state = idle_session("peer");
    say(&mut state, &mut messages, &config, "MAIL FROM:<a@b>\r\n");
    say(&mut state, &mut messages, &config, "RCPT TO:<c@d>\r\n");
    say(&mut state, &mut messages, &config, "DATA\r\n");
    let (result, _) = say(&mut state, &mut messages, &config, "body\r\n.\r\n");
    assert_eq!(messages[0].from, "a@b");
    assert_eq!(messages[0].to, vec!["c@d".to_string()]);
    assert_eq!(
        result,
        Ok(Step::Deliver(vec![Dispatch::Forward {
            to: "c@d".to_string(),
            from: "a@b".to_string(),
            server: "d".to_string(),
            port: Some(2525),
            tls_name: "tls.test".to_string(),
        }]))
    );
    assert_eq!(messages[0].handle(&config), Ok(vec![Dispatch::Forward {
        to: "c@d".to_string(),
        from: "a@b".to_string(),
        server: "d".to_string(),
        port: Some(2525),
        tls_name: "tls.test".to_string(),
    }]));
}

#[test]
fn message_to_a_list_gives_a_group_dispatch() {
    let mut config = plain_config();
    let list = List::Local(LocalList { members: vec!["<m1@x>".to_string(), "<m2@y>".to_string()] });
    config.insert("list@here".to_string(), list.clone());
    let mut messages = Vec::new();
    let mut state = idle_session("peer");
    say(&mut state, &mut messages, &config, "MAIL FROM:<a@b>\r\n");
    say(&mut state, &mut messages, &config, "RCPT TO:<list@here>\r\n");
    say(&mut state, &mut messages, &config, "DATA\r\n");
    let (result, reply) = say(&mut state, &mut messages, &config, "hi\r\n.\r\n");
    assert!(reply.starts_with("250 "));
    assert_eq!(
        result,
        Ok(Step::Deliver(vec![Dispatch::Group { from: "list@here".to_string(), list }]))
    );
}

#[test]
fn commands_out_of_place_get_500_and_keep_the_state() {
    let config = plain_config();
    let mut messages = Vec::new();
    let mut state = State::new();
    let _ = written(&mut state);
    for line in ["MAIL FROM:<a@b>\r\n", "DATA\r\n", "QUIT\r\n", "NOOP\r\n", "\r\n", "HELO\r\n"] {
        let (result, reply) = say(&mut state, &mut messages, &config, line);
        assert_eq!(result, Ok(Step::Continue), "{line:?}");
        assert_eq!(reply, "500 5.5.0 Syntax Error\r\n", "{line:?}");
        assert!(matches!(state.state_type, StateType::Connected(_)), "{line:?}");
    }
    let mut state = idle_session("peer");
    for line in ["RCPT TO:<a@b>\r\n", "DATA\r\n", "MAIL <a@b>\r\n", "mail from:<a@b>\r\n"] {
        let (result, reply) = say(&mut state, &mut messages, &config, line);
        assert_eq!(result, Ok(Step::Continue), "{line:?}");
        assert_eq!(reply, "500 5.5.0 Syntax Error\r\n", "{line:?}");
        assert!(matches!(state.state_type, StateType::Idle(_)), "{line:?}");
    }
    say(&mut state, &mut messages, &config, "MAIL FROM:<a@b>\r\n");
    for line in ["MAIL FROM:<c@d>\r\n", "QUIT\r\n", "RSET\r\n", "EHLO x\r\n", "RCPT <a@b>\r\n"] {
        let (result, reply) = say(&mut state, &mut messages, &config, line);
        assert_eq!(result, Ok(Step::Continue), "{line:?}");
        assert_eq!(reply, "500 5.5.0 Syntax Error\r\n", "{line:?}");
        assert!(matches!(state.state_type, StateType::From(_)), "{line:?}");
    }
    assert!(messages.is_empty());
}

#[test]
fn ehlo_and_helo_are_answered_with_one_line() {
    let config = plain_config();
    let mut messages = Vec::new();
    for verb in ["EHLO", "HELO"] {
        let mut state = State::new();
        let _ = written(&mut state);
        let (result, reply) =
            say(&mut state, &mut messages, &config, &format!("{verb} client.test\r\n"));
        assert_eq!(result, Ok(Step::Continue));
        assert!(reply.starts_with("250 "));
        assert!(reply.ends_with("\r\n"));
        assert_eq!(reply.matches('\n').count(), 1);
        match &state.state_type {
            StateType::Idle(idle) => assert_eq!(idle.foreign_host, "client.test"),
            other => panic!("not idle: {other:?}"),
        }
        assert!(!state.stream.is_tls());
    }
}

#[test]
fn rset_is_answered_with_250_okay() {
    let mut state = idle_session("h");
    state.stream.feed(b"RSET\r\n");
    assert_eq!(handle_idle(&mut state), Ok(Step::Continue));
    assert_eq!(state.stream.take_outbound(), b"250 Okay\r\n".to_vec());
    match &state.state_type {
        StateType::Idle(idle) => assert_eq!(idle.foreign_host, "h"),
        other => panic!("not idle: {other:?}"),
    }
}

#[test]
fn idle_takes_rset_and_greeting_without_change() {
    let config = plain_config();
    let mut messages = Vec::new();
    let mut state = idle_session("first");
    let (result, reply) = say(&mut state, &mut messages, &config, "RSET\r\n");
    assert_eq!(result, Ok(Step::Continue));
    assert_eq!(reply, "250 Okay\r\n");
    let (result, reply) = say(&mut state, &mut messages, &config, "EHLO second\r\n");
    assert_eq!(result, Ok(Step::Continue));
    assert_eq!(reply, "250 2.5.0 Hello first\r\n");
    let (result, reply) = say(&mut state, &mut messages, &config, "helo third\r\n");
    assert_eq!(result, Ok(Step::Continue));
    assert_eq!(reply, "250 2.5.0 Hello first\r\n");
    match &state.state_type {
        StateType::Idle(idle) => assert_eq!(idle.foreign_host, "first"),
        other => panic!("not idle: {other:?}"),
    }
}

#[test]
fn verb_is_case_insensitive() {
    let config = plain_config();
    let mut messages = Vec::new();
    let mut state = State::new();
    let _ = written(&mut state);
    let (result, reply) = say(&mut state, &mut messages, &config, "hElO peer.test\r\n");
    assert_eq!(result, Ok(Step::Continue));
    assert_eq!(reply, "250 2.5.0 Welcome peer.test\r\n");
    let (result, _) = say(&mut state, &mut messages, &config, "Mail FROM:<a@b>\r\n");
    assert_eq!(result, Ok(Step::Continue));
    let (result, _) = say(&mut state, &mut messages, &config, "rcpt TO:<c@d> \r\n");
    assert_eq!(result, Ok(Step::Continue));
    let (result, _) = say(&mut state, &mut messages, &config, "data\r\n");
    assert_eq!(result, Ok(Step::Continue));
    match &state.state_type {
        StateType::Recieving(s) => assert_eq!(s.to, vec!["c@d".to_string()]),
        other => panic!("not receiving: {other:?}"),
    }
}

#[test]
fn step_waits_for_a_whole_line_and_a_whole_body() {
    let config = plain_config();
    let mut messages = Vec::new();
    let mut state = State::new();
    let _ = written(&mut state);
    let (result, reply) = say(&mut state, &mut messages, &config, "EHLO pe");
    assert_eq!(result, Ok(Step::Wait));
    assert_eq!(reply, "");
    let (result, _) = say(&mut state, &mut messages, &config, "er\r\nMAIL FROM:<a@b>\r\n");
    assert_eq!(result, Ok(Step::Continue));
    let (result, _) = say(&mut state, &mut messages, &config, "");
    assert_eq!(result, Ok(Step::Continue));
    assert!(matches!(state.state_type, StateType::From(_)));
    say(&mut state, &mut messages, &config, "DATA\r\n");
    let (result, _) = say(&mut state, &mut messages, &config, "line one\r\nline two\r\n.");
    assert_eq!(result, Ok(Step::Wait));
    let (result, _) = say(&mut state, &mut messages, &config, "\r\nRSET\r\n");
    assert_eq!(result, Ok(Step::Deliver(vec![])));
    assert_eq!(messages[0].payload, b"line one\r\nline two\r\n".to_vec());
    let (result, reply) = say(&mut state, &mut messages, &config, "");
    assert_eq!(result, Ok(Step::Continue));
    assert_eq!(reply, "250 Okay\r\n");
}

#[test]
fn body_lines_with_dots_are_kept_as_they_come() {
    let config = plain_config();
    let mut messages = Vec::new();
    let mut state = idle_session("peer");
    say(&mut state, &mut messages, &config, "MAIL FROM:<a@b>\r\n");
    say(&mut state, &mut messages, &config, "DATA\r\n");
    let (result, _) = say(&mut state, &mut messages, &config, "..stuffed\r\n.x\r\n.\r\n");
    assert_eq!(result, Ok(Step::Deliver(vec![])));
    assert_eq!(messages[0].payload, b"..stuffed\r\n.x\r\n".to_vec());
}

#[test]
fn a_full_stop_right_after_data_does_not_end_the_body() {
    let config = plain_config();
    let mut messages = Vec::new();
    let mut state = idle_session("peer");
    say(&mut state, &mut messages, &config, "MAIL FROM:<a@b>\r\n");
    say(&mut state, &mut messages, &config, "DATA\r\n");
    let (result, _) = say(&mut state, &mut messages, &config, ".\r\n");
    assert_eq!(result, Ok(Step::Wait));
    assert!(matches!(state.state_type, StateType::Recieving(_)));
}

#[test]
fn line_that_is_no_utf8_is_refused() {
    let config = plain_config();
    let mut messages = Vec::new();
    let mut state = State::new();
    let _ = written(&mut state);
    state.stream.feed(&[0x48, 0xff, 0xfe, 0x0d, 0x0a]);
    assert_eq!(handle_connected(&mut state), Err(Error::InvalidCommand(None)));
    assert_eq!(state.stream.unread(), 0);
    state.stream.feed(&[0xff, 0x0a]);
    assert_eq!(handle_client(&mut state, &mut messages, &config), Ok(Step::Continue));
    assert_eq!(written(&mut state), "500 5.5.0 Syntax Error\r\n");
}

#[test]
fn handlers_report_the_refused_text() {
    let mut state = State::new();
    state.stream.feed(b"   \r\nFOO bar\r\nHELO\r\n");
    assert_eq!(handle_connected(&mut state), Err(Error::InvalidCommand(Some("".to_string()))));
    assert_eq!(handle_connected(&mut state), Err(Error::InvalidCommand(Some("FOO".to_string()))));
    assert_eq!(handle_connected(&mut state), Err(Error::InvalidCommand(Some("HELO".to_string()))));
    assert_eq!(handle_connected(&mut state), Ok(Step::Wait));

    let mut state = idle_session("peer");
    state.stream.feed(b"MAIL TO:<a@b>\r\nDATA\r\nvrfy x\r\nQUIT\r\n");
    assert_eq!(
        handle_idle(&mut state),
        Err(Error::InvalidCommand(Some("TO:<a@b>".to_string())))
    );
    assert_eq!(handle_idle(&mut state), Err(Error::InvalidCommand(Some("DATA".to_string()))));
    assert_eq!(handle_idle(&mut state), Err(Error::InvalidCommand(Some("VRFY".to_string()))));
    assert_eq!(handle_idle(&mut state), Err(Error::Quit));

    let mut state = idle_session("peer");
    state.stream.feed(b"MAIL FROM:<a@b>\r\nRCPT FROM:<a@b>\r\nRSET\r\nRCPT TO:<x@y>\r\nDATA\r\n");
    assert_eq!(handle_idle(&mut state), Ok(Step::Continue));
    assert_eq!(
        handle_from(&mut state),
        Err(Error::InvalidCommand(Some("FROM:<a@b>".to_string())))
    );
    assert_eq!(handle_from(&mut state), Err(Error::InvalidCommand(Some("RSET".to_string()))));
    assert_eq!(handle_from(&mut state), Ok(Step::Continue));
    assert_eq!(handle_from(&mut state), Ok(Step::Continue));
    let copy = RecievingState::from(&state);
    assert_eq!(copy.foreign_host, "peer");
    assert_eq!(copy.from, "a@b");
    assert_eq!(copy.to, vec!["x@y".to_string()]);
    let mut messages = Vec::new();
    assert_eq!(handle_recieving(&mut state, &mut messages, &plain_config()), Ok(Step::Wait));
    assert!(messages.is_empty());
}

#[test]
fn state_copies_hold_what_the_session_holds() {
    let state = idle_session("peer.test");
    assert_eq!(IdleState::from(&state).foreign_host, "peer.test");
    let state = State {
        state_type: StateType::From(FromState {
            foreign_host: "h".to_string(),
            from: "s@x".to_string(),
            to: vec!["r@y".to_string(), "q@z".to_string()],
        }),
        stream: Stream::new(),
    };
    let copy = FromState::from(&state);
    assert_eq!(copy.foreign_host, "h");
    assert_eq!(copy.from, "s@x");
    assert_eq!(copy.to, vec!["r@y".to_string(), "q@z".to_string()]);
    let _ = ConnectedState;
}

#[test]
fn parse_message_cuts_verb_and_arguments() {
    assert_eq!(parse_message(""), None);
    assert_eq!(parse_message(" \t\r\n"), None);
    assert_eq!(
        parse_message("data"),
        Some(Message { command: "DATA".to_string(), args: vec![] })
    );
    assert_eq!(
        parse_message("  mail FROM:<a@b> SIZE=10\r\n"),
        Some(Message {
            command: "MAIL".to_string(),
            args: vec!["FROM:<a@b>".to_string(), "SIZE=10".to_string()],
        })
    );
    assert_eq!(
        parse_message("rcpt  TO:<a@b>"),
        Some(Message {
            command: "RCPT".to_string(),
            args: vec!["".to_string(), "TO:<a@b>".to_string()],
        })
    );
    assert_eq!(
        parse_message("helo\tthere"),
        Some(Message { command: "HELO".to_string(), args: vec!["there".to_string()] })
    );
    assert_eq!(
        parse_message("stra\u{df}e x"),
        Some(Message { command: "STRA\u{df}E".to_string(), args: vec!["x".to_string()] })
    );
}

#[test]
fn read_command_makes_requests() {
    assert_eq!(read_command("EHLO a.b"), Ok(Request::Ehlo { host: "a.b".to_string() }));
    assert_eq!(read_command("helo a.b c"), Ok(Request::Helo { host: "a.b".to_string() }));
    assert_eq!(
        read_command("MAIL FROM:<<a@b>>"),
        Ok(Request::Mail { from: "a@b".to_string() })
    );
    assert_eq!(read_command("MAIL FROM:a@b"), Ok(Request::Mail { from: "a@b".to_string() }));
    assert_eq!(
        read_command("MAIL FROM:<a@b> SIZE=10 BODY=8BITMIME"),
        Ok(Request::Mail { from: "a@b".to_string() })
    );
    assert_eq!(read_command("MAIL FROM:\t<a@b>\t"), Ok(Request::Mail { from: "a@b".to_string() }));
    assert_eq!(read_command("MAIL FROM: <a@b>"), Ok(Request::Mail { from: "a@b".to_string() }));
    assert_eq!(read_command("RCPT TO:  <c@d>  x"), Ok(Request::Rcpt { to: "c@d".to_string() }));
    assert_eq!(read_command("MAIL FROM:"), Ok(Request::Mail { from: "".to_string() }));
    assert_eq!(
        read_command("RCPT  TO:<a@b>"),
        Err(Error::InvalidCommand(Some(" TO:<a@b>".to_string())))
    );
    assert_eq!(read_command("RCPT TO:<>"), Ok(Request::Rcpt { to: "".to_string() }));
    assert_eq!(read_command("DATA now"), Ok(Request::Data));
    assert_eq!(read_command("rset"), Ok(Request::Rset));
    assert_eq!(read_command("Quit"), Ok(Request::Quit));
    assert_eq!(read_command("starttls"), Ok(Request::StartTls));
    assert_eq!(read_command("NOOP"), Err(Error::InvalidCommand(Some("NOOP".to_string()))));
    assert_eq!(read_command("  "), Err(Error::InvalidCommand(Some("  ".to_string()))));
    assert_eq!(
        read_command("MAIL FROM <a@b>"),
        Err(Error::InvalidCommand(Some("FROM <a@b>".to_string())))
    );
    assert_eq!(
        Message { command: "EHLO".to_string(), args: vec![] }.request(),
        Err(Error::InvalidCommand(Some("EHLO".to_string())))
    );
}

#[test]
fn address_with_a_space_is_cut_at_the_space() {
    assert_eq!(read_command("MAIL FROM:<a b@c>"), Ok(Request::Mail { from: "a".to_string() }));
    assert_eq!(read_command("RCPT TO:<x y@z> w"), Ok(Request::Rcpt { to: "x".to_string() }));
    for line in ["MAIL FROM:<a b@c>", "RCPT TO:\"a b\"@c", "MAIL FROM:a@b c", "RCPT TO:< a@b >"] {
        match read_command(line) {
            Ok(Request::Mail { from }) => assert!(!from.contains(' '), "{line:?}"),
            Ok(Request::Rcpt { to }) => assert!(!to.contains(' '), "{line:?}"),
            other => panic!("{line:?}: {other:?}"),
        }
    }
}

#[test]
fn typed_steps_answer_and_refuse() {
    let mut stream = Stream::new();
    assert_eq!(
        init_connection(&mut stream, &Request::Ehlo { host: "h".to_string() }),
        Ok("h".to_string())
    );
    assert_eq!(stream.take_outbound(), b"250 2.5.0 Welcome h\r\n".to_vec());
    assert_eq!(
        init_connection(&mut stream, &Request::Helo { host: "h".to_string() }),
        Ok("h".to_string())
    );
    assert_eq!(stream.take_outbound(), b"250 2.5.0 Welcome h\r\n".to_vec());
    assert_eq!(
        init_connection(&mut stream, &Request::Data),
        Err(Error::InvalidCommand(Some("DATA".to_string())))
    );
    assert_eq!(init_connection(&mut stream, &Request::Other), Err(Error::InvalidCommand(None)));
    assert_eq!(stream.take_outbound(), Vec::<u8>::new());

    assert_eq!(
        get_sender(&mut stream, &Request::Mail { from: "a@b".to_string() }),
        Ok("a@b".to_string())
    );
    assert_eq!(stream.take_outbound(), b"250 2.1.0 Originator a@b okay\r\n".to_vec());
    assert_eq!(
        get_sender(&mut stream, &Request::Rcpt { to: "a@b".to_string() }),
        Err(Error::InvalidCommand(Some("RCPT".to_string())))
    );

    let mut recipients = vec!["x@y".to_string()];
    assert_eq!(
        get_recipients(&mut stream, &mut recipients, &Request::Rcpt { to: "c@d".to_string() }),
        Ok(false)
    );
    assert_eq!(recipients, vec!["x@y".to_string(), "c@d".to_string()]);
    assert_eq!(stream.take_outbound(), b"250 2.1.0 Reciever c@d okay\r\n".to_vec());
    assert_eq!(get_recipients(&mut stream, &mut recipients, &Request::Data), Ok(true));
    assert_eq!(stream.take_outbound(), b"354 2.0.0 End with CRLF.CRLF\r\n".to_vec());
    assert_eq!(
        get_recipients(&mut stream, &mut recipients, &Request::StartTls),
        Err(Error::InvalidCommand(Some("STARTTLS".to_string())))
    );
    assert_eq!(recipients.len(), 2);

    assert_eq!(recieve_mail(&mut stream, "a@b", &recipients), None);
    stream.feed(b"one\r\n.\r\ntwo");
    assert_eq!(
        recieve_mail(&mut stream, "a@b", &recipients),
        Some(Mail { from: "a@b".to_string(), to: recipients.clone(), payload: b"one\r\n".to_vec() })
    );
    assert_eq!(stream.unread(), 3);
}

#[test]
fn strict_requests_drive_the_same_steps() {
    let mut stream = Stream::new();
    stream.feed(b"EHLO client.test\r\nMAIL FROM:<u@a.test>\r\nRCPT TO:<v@b.test>\r\nDATA\r\n");
    let hello = stream.recieve_request().unwrap().unwrap();
    assert_eq!(init_connection(&mut stream, &hello), Ok("client.test".to_string()));
    let mail = stream.recieve_request().unwrap().unwrap();
    assert_eq!(get_sender(&mut stream, &mail), Ok("u@a.test".to_string()));
    let mut recipients = Vec::new();
    let rcpt = stream.recieve_request().unwrap().unwrap();
    assert_eq!(get_recipients(&mut stream, &mut recipients, &rcpt), Ok(false));
    let data = stream.recieve_request().unwrap().unwrap();
    assert_eq!(get_recipients(&mut stream, &mut recipients, &data), Ok(true));
    assert_eq!(recipients, vec!["v@b.test".to_string()]);
}
