use superheap::session::{
    command_text_of, classify_command, complete_message, queued_reply, Command, Reply, Session,
    SessionState, MAX_MESSAGE_BYTES,
};

fn line(s: &str) -> Vec<u8> {
    s.as_bytes().to_vec()
}

fn sent(r: Reply) -> String {
    match r {
        Reply::Send(s) => s,
        other => panic!("expected a reply that keeps the session open, got {:?}", other),
    }
}

const MESSAGE: &str = "From: Sender <x@example.com>\r\nTo: Receiver <y@example.com>\r\nSubject: Weekly digest\r\nContent-Type: text/html\r\n\r\n<p>Hello</p>\r\n";

/// Feeds a body line by line, as the connection would.
fn send_body(session: &mut Session, body: &str) -> bool {
    for l in body.split_inclusive("\r\n") {
        if session.data_line(&line(l)) {
            return true;
        }
    }
    session.data_line(&line(".\r\n"))
}

#[test]
fn greeting_opens_the_session() {
    let mut s = Session::new();
    assert_eq!(s.state, SessionState::Greeting);
    let g = s.greet();
    assert_eq!(g, "220 smtp.example.com Simple Mail Transfer Service Ready\r\n");
    assert_eq!(s.state, SessionState::Ready);
}

#[test]
fn full_transcript_yields_one_record() {
    let mut s = Session::new();
    s.greet();
    assert_eq!(sent(s.command(&line("EHLO a\r\n"))), "250 Hello\r\n");
    assert_eq!(sent(s.command(&line("MAIL FROM:<x>\r\n"))), "250 Ok\r\n");
    assert_eq!(sent(s.command(&line("RCPT TO:<y>\r\n"))), "250 Ok\r\n");
    assert_eq!(
        sent(s.command(&line("DATA\r\n"))),
        "354 Start mail input; end with <CRLF>.<CRLF>\r\n"
    );
    assert_eq!(s.state, SessionState::ReceivingData);
    assert!(send_body(&mut s, MESSAGE));
    assert_eq!(s.state, SessionState::Closed);
    assert_eq!(s.data, MESSAGE.as_bytes().to_vec());
    let (email, reply) = complete_message(&s.data, 7);
    let email = email.expect("a record");
    assert_eq!(email.id, 7);
    assert_eq!(email.from_address, "x@example.com");
    assert_eq!(email.to_address, "y@example.com");
    assert_eq!(email.subject, "Weekly digest");
    assert!(email.content.contains("<p>Hello</p>"));
    assert_eq!(reply, "250 Ok: queued as 7\r\n221 Bye\r\n");
}

#[test]
fn unknown_command_fails_the_session() {
    let mut s = Session::new();
    s.greet();
    assert_eq!(sent(s.command(&line("EHLO a\r\n"))), "250 Hello\r\n");
    match s.command(&line("FOO\r\n")) {
        Reply::SendAndFail(t) => assert_eq!(t, "500 Unknown command\r\n"),
        other => panic!("unexpected {:?}", other),
    }
    assert_eq!(s.state, SessionState::Closed);
    assert!(s.data.is_empty());
}

#[test]
fn commands_are_case_insensitive() {
    let mut s = Session::new();
    s.greet();
    assert_eq!(sent(s.command(&line("helo there\r\n"))), "250 Hello\r\n");
    assert_eq!(sent(s.command(&line("mail from:<a@b>\r\n"))), "250 Ok\r\n");
    assert_eq!(sent(s.command(&line("Rcpt To:<c@d>\r\n"))), "250 Ok\r\n");
    assert_eq!(
        sent(s.command(&line("  data \r\n"))),
        "354 Start mail input; end with <CRLF>.<CRLF>\r\n"
    );
}

#[test]
fn quit_says_goodbye() {
    let mut s = Session::new();
    s.greet();
    match s.command(&line("quit\r\n")) {
        Reply::SendAndClose(t) => assert_eq!(t, "221 Bye\r\n"),
        other => panic!("unexpected {:?}", other),
    }
    assert_eq!(s.state, SessionState::Closed);
}

#[test]
fn data_with_argument_is_unknown() {
    let mut s = Session::new();
    s.greet();
    assert!(matches!(s.command(&line("DATA now\r\n")), Reply::SendAndFail(_)));
}

#[test]
fn missing_subject_gives_no_record_but_queued_reply() {
    let raw = line("From: x@example.com\r\nTo: y@example.com\r\n\r\nbody\r\n");
    let (email, reply) = complete_message(&raw, 12);
    assert!(email.is_none());
    assert_eq!(reply, "250 Ok: queued as 12\r\n221 Bye\r\n");
}

#[test]
fn missing_sender_gives_no_record() {
    let raw = line("To: y@example.com\r\nSubject: s\r\n\r\nbody\r\n");
    assert!(complete_message(&raw, 1).0.is_none());
}

#[test]
fn plain_text_body_is_rendered() {
    let raw = line("From: x@example.com\r\nTo: y@example.com\r\nSubject: s\r\n\r\nplain words\r\n");
    let email = complete_message(&raw, 1).0.expect("a record");
    assert!(email.content.contains("plain words"));
}

#[test]
fn body_stops_at_size_cap() {
    let mut s = Session::new();
    s.greet();
    s.command(&line("DATA\r\n"));
    let mut big = vec![b'a'; MAX_MESSAGE_BYTES - 2];
    big.extend_from_slice(b"\r\n");
    assert!(s.data_line(&big));
    assert_eq!(s.state, SessionState::Closed);
    assert_eq!(s.data.len(), MAX_MESSAGE_BYTES);
}

#[test]
fn body_below_cap_continues() {
    let mut s = Session::new();
    s.greet();
    s.command(&line("DATA\r\n"));
    assert!(!s.data_line(&line("Subject: x\r\n")));
    assert!(!s.data_line(&line("..\r\n")));
    assert!(!s.data_line(&line(".\n")));
    assert_eq!(s.state, SessionState::ReceivingData);
    assert_eq!(s.data, line("Subject: x\r\n..\r\n.\n"));
}

#[test]
fn peer_close_during_data_delivers_body() {
    let mut s = Session::new();
    s.greet();
    s.command(&line("DATA\r\n"));
    s.data_line(&line("Subject: x\r\n"));
    assert!(s.peer_closed());
    assert_eq!(s.state, SessionState::Closed);
    assert_eq!(s.data, line("Subject: x\r\n"));
}

#[test]
fn peer_close_while_ready_delivers_nothing() {
    let mut s = Session::new();
    s.greet();
    assert!(!s.peer_closed());
    assert_eq!(s.state, SessionState::Closed);
}

#[test]
fn command_text_is_trimmed_and_upper_cased() {
    assert_eq!(command_text_of(&line("\t mail From:<q>  \r\n")), line("MAIL FROM:<Q>"));
    assert_eq!(command_text_of(&line(" \r\n")), Vec::<u8>::new());
    assert_eq!(command_text_of(&line("")), Vec::<u8>::new());
}

#[test]
fn classification_of_command_texts() {
    assert_eq!(classify_command(&line("EHLOX")), Command::Hello);
    assert_eq!(classify_command(&line("HELO")), Command::Hello);
    assert_eq!(classify_command(&line("MAIL FROM:")), Command::MailFrom);
    assert_eq!(classify_command(&line("MAIL FROM")), Command::Unknown);
    assert_eq!(classify_command(&line("RCPT TO:<a>")), Command::RcptTo);
    assert_eq!(classify_command(&line("DATA")), Command::Data);
    assert_eq!(classify_command(&line("QUIT")), Command::Quit);
    assert_eq!(classify_command(&line("QUITS")), Command::Unknown);
    assert_eq!(classify_command(&line("")), Command::Unknown);
}

#[test]
fn queued_reply_writes_the_id_in_decimal() {
    assert_eq!(queued_reply(0), "250 Ok: queued as 0\r\n221 Bye\r\n");
    assert_eq!(queued_reply(1234567890), "250 Ok: queued as 1234567890\r\n221 Bye\r\n");
    assert_eq!(
        queued_reply(u64::MAX),
        "250 Ok: queued as 18446744073709551615\r\n221 Bye\r\n"
    );
}
