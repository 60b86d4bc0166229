use mailing_list::error::Error;
use mailing_list::io::{rx, tx};
use mailing_list::smtp::{domain, strip, Reading, Request, Response};
use mailing_list::stream::Stream;
use mailing_list::text::{
    clone_texts, count_back, count_front, find_bytes, find_chars, is_blank, join_texts,
    same_text, split_chars, to_chars, to_upper, trimmed, CharClass,
};

fn text(bytes: Vec<u8>) -> String {
    String::from_utf8(bytes).unwrap()
}

fn words(list: &[&str]) -> Vec<String> {
    list.iter().map(|s| s.to_string()).collect()
}

#[test]
fn new_stream_is_plain_and_empty() {
    let mut stream = Stream::new();
    assert!(!stream.is_tls());
    assert_eq!(stream.unread(), 0);
    assert_eq!(stream.take_outbound(), Vec::<u8>::new());
}

#[test]
fn feed_and_take_line() {
    let mut stream = Stream::new();
    stream.feed(b"ab");
    assert_eq!(stream.take_line(), None);
    stream.feed(b"c\nde\r\nf");
    assert_eq!(stream.unread(), 9);
    assert_eq!(stream.take_line(), Some(b"abc\n".to_vec()));
    assert_eq!(stream.take_line(), Some(b"de\r\n".to_vec()));
    assert_eq!(stream.take_line(), None);
    assert_eq!(stream.unread(), 1);
}

#[test]
fn send_response_writes_code_status_and_text() {
    let mut stream = Stream::new();
    stream.send_response(&Response::new(250, 2, 5, 0, "Welcome x"));
    stream.send_response(&Response::new(552, 5, 5, 0, "Woopsie"));
    assert_eq!(text(stream.take_outbound()), "250 2.5.0 Welcome x\r\n552 5.5.0 Woopsie\r\n");
    assert_eq!(stream.take_outbound(), Vec::<u8>::new());
}

#[test]
fn send_response_writes_any_number_in_decimal() {
    let mut stream = Stream::new();
    stream.send_response(&Response::new(7, 12, 0, 255, "odd"));
    stream.send_response(&Response::new(65535, 9, 10, 3, "gr\u{fc}n"));
    assert_eq!(text(stream.take_outbound()), "7 12.0.255 odd\r\n65535 9.10.3 gr\u{fc}n\r\n");
    assert_eq!(Response::new(100, 0, 0, 0, "").to_bytes(), b"100 0.0.0 \r\n".to_vec());
}

#[test]
fn response_is_positive_for_2xx_and_3xx() {
    assert!(Response::new(200, 0, 0, 0, "").is_positive());
    assert!(Response::new(354, 0, 0, 0, "").is_positive());
    assert!(Response::new(399, 0, 0, 0, "").is_positive());
    assert!(!Response::new(199, 0, 0, 0, "").is_positive());
    assert!(!Response::new(400, 0, 0, 0, "").is_positive());
    assert!(!Response::new(550, 0, 0, 0, "").is_positive());
}

#[test]
fn recieve_request_reads_strict_commands() {
    let mut stream = Stream::new();
    stream.feed(b"EHLO there.test\r\n");
    assert_eq!(
        stream.recieve_request(),
        Ok(Some(Request::Ehlo { host: "there.test".to_string() }))
    );
    stream.feed(b"helo h.test\r\nMAIL FROM:<a@b.test> SIZE=10\r\nRCPT TO:<c@d.test>\r\n");
    assert_eq!(stream.recieve_request(), Ok(Some(Request::Helo { host: "h.test".to_string() })));
    assert_eq!(
        stream.recieve_request(),
        Ok(Some(Request::Mail { from: "a@b.test".to_string() }))
    );
    assert_eq!(stream.recieve_request(), Ok(Some(Request::Rcpt { to: "c@d.test".to_string() })));
    stream.feed(b"DATA\r\nRSET\r\nSTARTTLS\r\nNOOP\r\nVRFY someone\r\n");
    assert_eq!(stream.recieve_request(), Ok(Some(Request::Data)));
    assert_eq!(stream.recieve_request(), Ok(Some(Request::Rset)));
    assert_eq!(stream.recieve_request(), Ok(Some(Request::StartTls)));
    assert_eq!(stream.recieve_request(), Ok(Some(Request::Other)));
    assert_eq!(stream.recieve_request(), Ok(Some(Request::Other)));
    assert_eq!(stream.recieve_request(), Ok(None));
    assert_eq!(stream.take_outbound(), Vec::<u8>::new());
}

#[test]
fn recieve_request_passes_over_blank_and_bad_lines() {
    let mut stream = Stream::new();
    stream.feed(b"\r\n \t \r\nFOO\r\n\nMAIL FROM:a@b\r\nDATA\r\nEHL");
    assert_eq!(stream.recieve_request(), Ok(Some(Request::Data)));
    assert_eq!(
        text(stream.take_outbound()),
        "500 5.5.0 Syntax Error\r\n500 5.5.0 Syntax Error\r\n"
    );
    assert_eq!(stream.recieve_request(), Ok(None));
    assert_eq!(stream.unread(), 3);
    stream.feed(b"O x\r\n");
    assert_eq!(stream.recieve_request(), Ok(Some(Request::Ehlo { host: "x".to_string() })));
}

#[test]
fn recieve_request_ends_on_quit() {
    let mut stream = Stream::new();
    stream.feed(b"BAD\r\nQUIT\r\nDATA\r\n");
    assert_eq!(stream.recieve_request(), Err(Error::Quit));
    assert_eq!(text(stream.take_outbound()), "500 5.5.0 Syntax Error\r\n221 2.0.0 Byebye!\r\n");
    assert_eq!(stream.unread(), 6);
}

#[test]
fn send_request_writes_the_line() {
    let mut stream = Stream::new();
    stream.send_request(&Request::Ehlo { host: "me.test".to_string() });
    stream.send_request(&Request::Helo { host: "me.test".to_string() });
    stream.send_request(&Request::Mail { from: "a@b".to_string() });
    stream.send_request(&Request::Rcpt { to: "c@d".to_string() });
    stream.send_request(&Request::Data);
    stream.send_request(&Request::Rset);
    stream.send_request(&Request::StartTls);
    stream.send_request(&Request::Quit);
    assert_eq!(
        text(stream.take_outbound()),
        "EHLO me.test\r\nHELO me.test\r\nMAIL FROM:<a@b>\r\nRCPT TO:<c@d>\r\nDATA\r\nRSET\r\n\
         STARTTLS\r\nQUIT\r\n"
    );
    assert_eq!(Request::Mail { from: "a@b".to_string() }.line(), "MAIL FROM:<a@b>");
    assert_eq!(Request::Quit.verb(), Some("QUIT".to_string()));
    assert_eq!(Request::Other.verb(), None);
}

#[test]
fn what_is_sent_as_a_request_is_read_as_that_request() {
    let requests = vec![
        Request::Ehlo { host: "me.test".to_string() },
        Request::Mail { from: "a@b.test".to_string() },
        Request::Rcpt { to: "c@d.test".to_string() },
        Request::Data,
        Request::Rset,
        Request::StartTls,
    ];
    let mut client = Stream::new();
    for request in &requests {
        client.send_request(request);
    }
    let mut server = Stream::new();
    server.feed(&client.take_outbound());
    for request in &requests {
        assert_eq!(server.recieve_request(), Ok(Some(request.clone())));
    }
    assert_eq!(server.recieve_request(), Ok(None));
}

#[test]
fn recieve_response_reads_one_reply() {
    let mut stream = Stream::new();
    stream.feed(b"250 2.1.0 OK\r\n354 go\r\n");
    assert_eq!(stream.recieve_response(), Ok(Some(Response::new(250, 2, 1, 0, "OK"))));
    assert_eq!(stream.recieve_response(), Ok(Some(Response::new(354, 0, 0, 0, "go"))));
    assert_eq!(stream.recieve_response(), Ok(None));
    stream.feed(b"250-first\r\n250-sec");
    assert_eq!(stream.recieve_response(), Ok(None));
    assert_eq!(stream.unread(), 18);
    stream.feed(b"ond\r\n250 third\r\n220");
    assert_eq!(
        stream.recieve_response(),
        Ok(Some(Response::new(250, 0, 0, 0, "first\nsecond\nthird")))
    );
    assert_eq!(stream.unread(), 3);
}

#[test]
fn recieve_response_refuses_what_is_no_reply() {
    let mut stream = Stream::new();
    stream.feed(b"hello\r\n");
    assert_eq!(stream.recieve_response(), Err(Error::TransportError));
    assert!(stream.unread() < 7);
}

#[test]
fn what_is_sent_as_a_response_is_read_as_that_response() {
    let response = Response::new(250, 2, 1, 0, "Originator a@b okay");
    let mut server = Stream::new();
    server.send_response(&response);
    let mut client = Stream::new();
    client.feed(&server.take_outbound());
    assert_eq!(client.recieve_response(), Ok(Some(response)));
}

#[test]
fn settle_takes_what_a_reading_has_used() {
    let reply = Response::new(250, 0, 0, 0, "ok");
    let mut stream = Stream::new();
    stream.feed(b"250 ok\r\nnext");
    assert_eq!(stream.settle(Reading::Incomplete, 4), Ok(None));
    assert_eq!(stream.unread(), 12);
    assert_eq!(
        stream.settle(Reading::Complete(reply.clone()), 4),
        Ok(Some((reply, b"250 ok\r\n".to_vec())))
    );
    assert_eq!(stream.unread(), 4);
    assert_eq!(stream.settle(Reading::Malformed, 1), Err(Error::TransportError));
    assert_eq!(stream.take_line(), None);
    assert_eq!(stream.unread(), 1);
}

#[test]
fn answer_passes_over_refuses_or_ends() {
    let mut stream = Stream::new();
    assert_eq!(stream.answer(None), None);
    assert_eq!(text(stream.take_outbound()), "500 5.5.0 Syntax Error\r\n");
    assert_eq!(stream.answer(Some(Request::Quit)), Some(Err(Error::Quit)));
    assert_eq!(text(stream.take_outbound()), "221 2.0.0 Byebye!\r\n");
    assert_eq!(stream.answer(Some(Request::Data)), Some(Ok(Request::Data)));
    assert_eq!(stream.answer(Some(Request::Other)), Some(Ok(Request::Other)));
    assert_eq!(stream.take_outbound(), Vec::<u8>::new());
}

#[test]
fn start_tls_named_goes_by_whether_the_name_is_a_name() {
    let mut stream = Stream::new();
    assert_eq!(stream.start_tls_named(false), Err(Error::TransportError));
    assert!(!stream.is_tls());
    assert_eq!(stream.start_tls_named(true), Ok(()));
    assert!(stream.is_tls());
    assert_eq!(stream.start_tls_named(true), Err(Error::ProtocolMisuse));
    assert_eq!(stream.start_tls_named(false), Err(Error::ProtocolMisuse));
    assert!(stream.is_tls());
}

#[test]
fn recieve_mail_stops_at_the_first_terminator() {
    let mut stream = Stream::new();
    stream.feed(b"a\r\nb\r\n.");
    assert_eq!(stream.recieve_mail(), None);
    assert_eq!(stream.unread(), 7);
    stream.feed(b"\r\nrest\r\n.\r\n");
    assert_eq!(stream.recieve_mail(), Some(b"a\r\nb".to_vec()));
    assert_eq!(stream.recieve_mail(), Some(b"rest".to_vec()));
    assert_eq!(stream.recieve_mail(), None);
    stream.feed(b"\r\n.\r\n");
    assert_eq!(stream.recieve_mail(), Some(Vec::new()));
}

#[test]
fn send_mail_writes_the_bytes_as_they_are() {
    let mut stream = Stream::new();
    stream.send_mail(b"x\r\n");
    stream.send_mail(&[0, 255, 10]);
    assert_eq!(stream.take_outbound(), vec![b'x', 13, 10, 0, 255, 10]);
}

#[test]
fn quit_and_protocol_error_queue_their_replies() {
    let mut stream = Stream::new();
    assert_eq!(stream.quit(), Error::Quit);
    stream.protocol_error();
    assert_eq!(text(stream.take_outbound()), "221 2.0.0 Byebye!\r\n500 5.5.0 Syntax Error\r\n");
}

#[test]
fn start_tls_server_works_once() {
    let mut stream = Stream::new();
    stream.feed(b"in");
    stream.send_mail(b"out");
    assert_eq!(stream.start_tls_server(), Ok(()));
    assert!(stream.is_tls());
    assert_eq!(stream.unread(), 2);
    assert_eq!(stream.start_tls_server(), Err(Error::ProtocolMisuse));
    assert!(stream.is_tls());
    assert_eq!(stream.unread(), 2);
    assert_eq!(stream.take_outbound(), b"out".to_vec());
}

#[test]
fn start_tls_client_wants_a_server_name() {
    let mut stream = Stream::new();
    assert_eq!(stream.start_tls_client("not a name!"), Err(Error::TransportError));
    assert!(!stream.is_tls());
    assert_eq!(stream.start_tls_client(""), Err(Error::TransportError));
    assert_eq!(stream.start_tls_client("-x.test"), Err(Error::TransportError));
    assert_eq!(stream.start_tls_client("mx.example.com."), Ok(()));
    assert!(stream.is_tls());
    assert_eq!(stream.start_tls_client("mx.example.com"), Err(Error::ProtocolMisuse));
    assert_eq!(stream.start_tls_client("not a name!"), Err(Error::ProtocolMisuse));
    let mut stream = Stream::new();
    assert_eq!(stream.start_tls_client("192.0.2.1"), Ok(()));
    let mut stream = Stream::new();
    assert_eq!(stream.start_tls_client("2001:db8::1"), Ok(()));
}

#[test]
fn recieve_capabilities_reads_the_keywords() {
    let mut stream = Stream::new();
    stream.feed(b"250-mx.test\r\n250-STARTTLS\r\n250-SIZE 100\r\n250 HELP me\r\n220 next\r\n");
    assert_eq!(
        stream.recieve_capabilities(),
        Ok(Some(words(&["STARTTLS", "SIZE 100", "me", ""])))
    );
    assert_eq!(stream.unread(), 10);
    stream.feed(b"250-a\r\n");
    assert_eq!(stream.recieve_capabilities(), Ok(Some(words(&[""]))));
    assert_eq!(stream.recieve_capabilities(), Ok(None));
    assert_eq!(stream.unread(), 7);
}

#[test]
fn recieve_capabilities_replaces_what_is_no_utf8() {
    let mut stream = Stream::new();
    stream.feed(b"250-mx\r\n250 X\xffY\r\n");
    assert_eq!(stream.recieve_capabilities(), Ok(Some(words(&["X\u{fffd}Y", ""]))));
}

#[test]
fn recieve_capabilities_refuses_a_refusal() {
    let mut stream = Stream::new();
    stream.feed(b"502 5.5.1 no\r\n");
    assert_eq!(stream.recieve_capabilities(), Err(Error::TransportError));
    assert_eq!(stream.unread(), 0);
    stream.feed(b"what\r\n");
    assert_eq!(stream.recieve_capabilities(), Err(Error::TransportError));
}

#[test]
fn parse_capabilties_takes_the_last_part_of_each_line() {
    assert_eq!(
        Stream::parse_capabilties("250-smtp.test\r\n250-STARTTLS\r\n250 ENHANCEDSTATUSCODES"),
        words(&["STARTTLS", "ENHANCEDSTATUSCODES"])
    );
    assert_eq!(Stream::parse_capabilties("250 only"), Vec::<String>::new());
    assert_eq!(Stream::parse_capabilties(""), Vec::<String>::new());
    assert_eq!(
        Stream::parse_capabilties("x\r\n250-MT-PRIORITY\r\nplain\r\n\r\nA B C"),
        words(&["PRIORITY", "plain", "", "C"])
    );
    assert_eq!(Stream::parse_capabilties("a\nb\r\nc\nd"), words(&["c\nd"]));
}

#[test]
fn tx_writes_text_with_or_without_line_end() {
    let mut stream = Stream::new();
    tx(&mut stream, "EHLO me", true);
    tx(&mut stream, "raw", false);
    tx(&mut stream, "gr\u{fc}n", true);
    assert_eq!(stream.take_outbound(), "EHLO me\r\nrawgr\u{fc}n\r\n".as_bytes().to_vec());
}

#[test]
fn rx_reads_a_trimmed_line() {
    let mut stream = Stream::new();
    stream.feed(b"  hello  world \r\nnext\nlast");
    assert_eq!(rx(&mut stream), Ok(Some("hello  world".to_string())));
    assert_eq!(rx(&mut stream), Ok(Some("next".to_string())));
    assert_eq!(rx(&mut stream), Ok(None));
    assert_eq!(stream.unread(), 4);
    stream.feed(b"\r\n\r\n");
    assert_eq!(rx(&mut stream), Ok(Some("last".to_string())));
    assert_eq!(rx(&mut stream), Ok(Some("".to_string())));
}

#[test]
fn rx_refuses_what_is_no_utf8() {
    let mut stream = Stream::new();
    stream.feed(&[b'a', 0xc3, b'\n', b'b', b'\n']);
    assert_eq!(rx(&mut stream), Err(Error::InvalidCommand(None)));
    assert_eq!(rx(&mut stream), Ok(Some("b".to_string())));
    stream.feed("gr\u{fc}n\u{a0}\r\n".as_bytes());
    assert_eq!(rx(&mut stream), Ok(Some("gr\u{fc}n".to_string())));
}

#[test]
fn strip_takes_the_angle_brackets_off() {
    assert_eq!(strip("<a@b>"), "a@b");
    assert_eq!(strip("a@b"), "a@b");
    assert_eq!(strip("<<a@b>>>"), "a@b");
    assert_eq!(strip("<>"), "");
    assert_eq!(strip("><"), "><");
    assert_eq!(strip("<a<b>c>"), "a<b>c");
    assert_eq!(strip(&strip("<<x>>")), strip("<<x>>"));
}

#[test]
fn domain_is_what_follows_the_first_at() {
    assert_eq!(domain("a@b.test"), Some("b.test".to_string()));
    assert_eq!(domain("<a@b.test>"), Some("b.test".to_string()));
    assert_eq!(domain("a@b@c"), Some("b".to_string()));
    assert_eq!(domain("a@"), Some("".to_string()));
    assert_eq!(domain("@>>"), Some("".to_string()));
    assert_eq!(domain("nobody"), None);
    assert_eq!(domain(""), None);
}

#[test]
fn text_tools_count_cut_and_join() {
    let v = to_chars("  ab c\u{a0}\t");
    assert_eq!(v.len(), 8);
    assert_eq!(count_front(&v, 0, CharClass::Space), 2);
    assert_eq!(count_front(&v, 2, CharClass::NotSpace), 2);
    assert_eq!(count_front(&v, 2, CharClass::IsNot('c')), 3);
    assert_eq!(count_front(&v, 0, CharClass::Nothing), 0);
    assert_eq!(count_back(&v, 0, 8, CharClass::Space), 2);
    assert_eq!(count_back(&v, 0, 6, CharClass::Is('c')), 1);
    assert_eq!(trimmed(&v), "ab c");
    assert_eq!(trimmed(&to_chars(" \r\n")), "");
    let parts = split_chars(&to_chars("a, b,, c"), &to_chars(", "));
    assert_eq!(parts, words(&["a", "b,", "c"]));
    assert_eq!(split_chars(&to_chars(""), &to_chars(" ")), words(&[""]));
    assert_eq!(split_chars(&to_chars(" x "), &to_chars(" ")), words(&["", "x", ""]));
    assert_eq!(join_texts(&words(&["", "x", ""]), " "), " x ");
    assert_eq!(join_texts(&words(&[]), " "), "");
    assert_eq!(join_texts(&words(&["one"]), ", "), "one");
    assert_eq!(join_texts(&parts, "--"), "a--b,--c");
    assert_eq!(find_chars(&to_chars("abcabc"), 1, &to_chars("bc")), 0);
    assert_eq!(find_chars(&to_chars("abcabc"), 2, &to_chars("bc")), 2);
    assert_eq!(find_chars(&to_chars("abcabc"), 5, &to_chars("bc")), 1);
    assert_eq!(find_bytes(&b"xx\r\n.\r\ny".to_vec(), &b"\r\n.\r\n".to_vec()), 2);
    assert_eq!(find_bytes(&b"xx\r\n.\r".to_vec(), &b"\r\n.\r\n".to_vec()), 6);
    assert!(is_blank(&b" \t\r\n\x0c".to_vec()));
    assert!(!is_blank(&b" \x0b".to_vec()));
    assert_eq!(to_upper('a'), 'A');
    assert_eq!(to_upper('z'), 'Z');
    assert_eq!(to_upper('{'), '{');
    assert_eq!(to_upper('\u{e4}'), '\u{e4}');
    assert!(same_text("x", "x"));
    assert!(!same_text("x", "X"));
    assert_eq!(clone_texts(&words(&["a", "b"])), words(&["a", "b"]));
}

#[test]
fn white_space_is_what_char_calls_white_space() {
    let mut c = 0u32;
    while c < 0x3100 {
        if let Some(ch) = char::from_u32(c) {
            assert_eq!(CharClass::Space.holds(ch), ch.is_whitespace(), "{c:#x}");
            assert_eq!(CharClass::NotSpace.holds(ch), !ch.is_whitespace(), "{c:#x}");
            assert_eq!(to_upper(ch), ch.to_ascii_uppercase(), "{c:#x}");
        }
        c += 1;
    }
}
