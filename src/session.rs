use vstd::prelude::*;

use crate::types::{
    Email, mime_from_of, mime_html_of, mime_subject_of, mime_to_of, opt_email_view, record_of,
};

verus! {

/// Upper bound, in bytes, on the message body accumulated by one session.
pub const MAX_MESSAGE_BYTES: usize = 10_000_000;

/// Where a session stands in the protocol.
#[derive(Clone, Copy, Debug, PartialEq, Eq, Structural)]
pub enum SessionState {
    Greeting,
    Ready,
    ReceivingData,
    Closed,
}

/// What a command line asks for.
#[derive(Clone, Copy, Debug, PartialEq, Eq, Structural)]
pub enum Command {
    Hello,
    MailFrom,
    RcptTo,
    Data,
    Quit,
    Unknown,
}

/// What the connection does after a command line: send the text and go on
/// reading, send it and end the session, or send it and end the session with
/// a failure.
#[derive(Debug)]
pub enum Reply {
    Send(String),
    SendAndClose(String),
    SendAndFail(String),
}

/// The protocol state of one connection, with the message body received so far.
#[derive(Debug)]
pub struct Session {
    pub state: SessionState,
    pub data: Vec<u8>,
}

pub open spec fn is_space(b: u8) -> bool {
    b == 32 || b == 9 || b == 10 || b == 11 || b == 12 || b == 13
}

pub open spec fn upper_byte(b: u8) -> u8 {
    if 97 <= b <= 122 {
        (b - 32) as u8
    } else {
        b
    }
}

/// The position of the first byte at or after `i` that is not white space.
pub open spec fn first_kept(s: Seq<u8>, i: int) -> int
    decreases s.len() - i,
{
    if 0 <= i < s.len() && is_space(s[i]) {
        first_kept(s, i + 1)
    } else {
        i
    }
}

/// The end of `s[lo..j]` once trailing white space is removed.
pub open spec fn last_kept(s: Seq<u8>, j: int, lo: int) -> int
    decreases j - lo,
{
    if lo < j <= s.len() && is_space(s[j - 1]) {
        last_kept(s, j - 1, lo)
    } else {
        j
    }
}

/// `s` without leading and trailing white space.
pub open spec fn trimmed(s: Seq<u8>) -> Seq<u8> {
    let a = first_kept(s, 0);
    s.subrange(a, last_kept(s, s.len() as int, a))
}

/// The command text of a line: trimmed, with ASCII letters in upper case.
pub open spec fn command_text(line: Seq<u8>) -> Seq<u8> {
    trimmed(line).map_values(|b: u8| upper_byte(b))
}

pub open spec fn helo_word() -> Seq<u8> {
    seq![72u8, 69, 76, 79]
}

pub open spec fn ehlo_word() -> Seq<u8> {
    seq![69u8, 72, 76, 79]
}

pub open spec fn mail_from_word() -> Seq<u8> {
    seq![77u8, 65, 73, 76, 32, 70, 82, 79, 77, 58]
}

pub open spec fn rcpt_to_word() -> Seq<u8> {
    seq![82u8, 67, 80, 84, 32, 84, 79, 58]
}

pub open spec fn data_word() -> Seq<u8> {
    seq![68u8, 65, 84, 65]
}

pub open spec fn quit_word() -> Seq<u8> {
    seq![81u8, 85, 73, 84]
}

/// The line that ends a message body: a dot and CRLF.
pub open spec fn end_of_data_line() -> Seq<u8> {
    seq![46u8, 13, 10]
}

pub open spec fn starts_with(t: Seq<u8>, p: Seq<u8>) -> bool {
    p.len() <= t.len() && t.subrange(0, p.len() as int) == p
}

/// The command that a command text names.
pub open spec fn classify(t: Seq<u8>) -> Command {
    if starts_with(t, helo_word()) || starts_with(t, ehlo_word()) {
        Command::Hello
    } else if starts_with(t, mail_from_word()) {
        Command::MailFrom
    } else if starts_with(t, rcpt_to_word()) {
        Command::RcptTo
    } else if t == data_word() {
        Command::Data
    } else if t == quit_word() {
        Command::Quit
    } else {
        Command::Unknown
    }
}

pub open spec fn greeting_text() -> Seq<char> {
    "220 smtp.example.com Simple Mail Transfer Service Ready\r\n"@
}

pub open spec fn hello_text() -> Seq<char> {
    "250 Hello\r\n"@
}

pub open spec fn ok_text() -> Seq<char> {
    "250 Ok\r\n"@
}

pub open spec fn start_input_text() -> Seq<char> {
    "354 Start mail input; end with <CRLF>.<CRLF>\r\n"@
}

pub open spec fn bye_text() -> Seq<char> {
    "221 Bye\r\n"@
}

pub open spec fn unknown_text() -> Seq<char> {
    "500 Unknown command\r\n"@
}

pub open spec fn digit_char(d: nat) -> char {
    seq!['0', '1', '2', '3', '4', '5', '6', '7', '8', '9'][d as int]
}

/// The decimal digits of `n`.
pub open spec fn decimal(n: nat) -> Seq<char>
    decreases n,
{
    if n < 10 {
        seq![digit_char(n)]
    } else {
        decimal(n / 10).push(digit_char(n % 10))
    }
}

/// The replies that close a session whose message was taken: the queue
/// confirmation with the message's id, then the farewell.
pub open spec fn queued_text(id: u64) -> Seq<char> {
    "250 Ok: queued as "@ + decimal(id as nat) + "\r\n"@ + bye_text()
}

/// The byte sequence `p`, checked against the start of `t`.
fn has_prefix(t: &Vec<u8>, p: &[u8]) -> (r: bool)
    ensures
        r == starts_with(t@, p@),
{
    if p.len() > t.len() {
        return false;
    }
    let mut k: usize = 0;
    while k < p.len()
        invariant
            p.len() <= t.len(),
            k <= p.len(),
            forall|x: int| 0 <= x < k ==> t@[x] == p@[x],
        decreases p.len() - k,
    {
        if t[k] != p[k] {
            assert(t@.subrange(0, p@.len() as int)[k as int] != p@[k as int]);
            return false;
        }
        k = k + 1;
    }
    assert(t@.subrange(0, p@.len() as int) =~= p@);
    true
}

fn equals_bytes(t: &Vec<u8>, p: &[u8]) -> (r: bool)
    ensures
        r == (t@ == p@),
{
    let r = t.len() == p.len() && has_prefix(t, p);
    proof {
        if t@.len() == p@.len() {
            assert(t@.subrange(0, p@.len() as int) =~= t@);
        }
    }
    r
}

/// The command text of `line`.
pub fn command_text_of(line: &Vec<u8>) -> (r: Vec<u8>)
    ensures
        r@ == command_text(line@),
{
    let ghost s = line@;
    let mut a: usize = 0;
    while a < line.len() && (line[a] == 32 || line[a] == 9 || line[a] == 10 || line[a] == 11
        || line[a] == 12 || line[a] == 13)
        invariant
            a <= line.len(),
            s == line@,
            first_kept(s, a as int) == first_kept(s, 0),
        decreases line.len() - a,
    {
        a = a + 1;
    }
    let mut b: usize = line.len();
    while b > a && (line[b - 1] == 32 || line[b - 1] == 9 || line[b - 1] == 10 || line[b - 1] == 11
        || line[b - 1] == 12 || line[b - 1] == 13)
        invariant
            a <= b <= line.len(),
            s == line@,
            a == first_kept(s, 0),
            last_kept(s, b as int, a as int) == last_kept(s, s.len() as int, a as int),
        decreases b,
    {
        b = b - 1;
    }
    let mut out: Vec<u8> = Vec::new();
    let mut k: usize = a;
    while k < b
        invariant
            a <= k <= b <= line.len(),
            s == line@,
            out@ == s.subrange(a as int, k as int).map_values(|x: u8| upper_byte(x)),
        decreases b - k,
    {
        let c = line[k];
        let u = if 97 <= c && c <= 122 {
            c - 32
        } else {
            c
        };
        out.push(u);
        assert(s.subrange(a as int, k + 1) =~= s.subrange(a as int, k as int).push(c));
        assert(out@ =~= s.subrange(a as int, k + 1).map_values(|x: u8| upper_byte(x)));
        k = k + 1;
    }
    out
}

/// The command named by a command text.
pub fn classify_command(t: &Vec<u8>) -> (r: Command)
    ensures
        r == classify(t@),
{
    let helo: [u8; 4] = [72u8, 69, 76, 79];
    let ehlo: [u8; 4] = [69u8, 72, 76, 79];
    let mail_from: [u8; 10] = [77u8, 65, 73, 76, 32, 70, 82, 79, 77, 58];
    let rcpt_to: [u8; 8] = [82u8, 67, 80, 84, 32, 84, 79, 58];
    let data: [u8; 4] = [68u8, 65, 84, 65];
    let quit: [u8; 4] = [81u8, 85, 73, 84];
    assert(helo@ =~= helo_word());
    assert(ehlo@ =~= ehlo_word());
    assert(mail_from@ =~= mail_from_word());
    assert(rcpt_to@ =~= rcpt_to_word());
    assert(data@ =~= data_word());
    assert(quit@ =~= quit_word());
    if has_prefix(t, helo.as_slice()) || has_prefix(t, ehlo.as_slice()) {
        Command::Hello
    } else if has_prefix(t, mail_from.as_slice()) {
        Command::MailFrom
    } else if has_prefix(t, rcpt_to.as_slice()) {
        Command::RcptTo
    } else if equals_bytes(t, data.as_slice()) {
        Command::Data
    } else if equals_bytes(t, quit.as_slice()) {
        Command::Quit
    } else {
        Command::Unknown
    }
}

fn text(s: &str) -> (r: String)
    ensures
        r@ == s@,
{
    s.to_owned()
}

fn digit_text(d: u64) -> (r: &'static str)
    requires
        d < 10,
    ensures
        r@ == seq![digit_char(d as nat)],
{
    proof {
        reveal_strlit("0");
        reveal_strlit("1");
        reveal_strlit("2");
        reveal_strlit("3");
        reveal_strlit("4");
        reveal_strlit("5");
        reveal_strlit("6");
        reveal_strlit("7");
        reveal_strlit("8");
        reveal_strlit("9");
    }
    if d == 0 {
        "0"
    } else if d == 1 {
        "1"
    } else if d == 2 {
        "2"
    } else if d == 3 {
        "3"
    } else if d == 4 {
        "4"
    } else if d == 5 {
        "5"
    } else if d == 6 {
        "6"
    } else if d == 7 {
        "7"
    } else if d == 8 {
        "8"
    } else {
        "9"
    }
}

/// Appends the decimal digits of `n` to `s`.
fn push_decimal(s: &mut String, n: u64)
    ensures
        final(s)@ == old(s)@ + decimal(n as nat),
    decreases n,
{
    if n >= 10 {
        push_decimal(s, n / 10);
    }
    s.append(digit_text(n % 10));
    proof {
        if n >= 10 {
            assert(old(s)@ + decimal(n as nat) =~= old(s)@ + decimal((n / 10) as nat) + seq![
                digit_char((n % 10) as nat),
            ]);
        }
    }
}

/// The replies that close a session whose message was taken.
pub fn queued_reply(id: u64) -> (r: String)
    ensures
        r@ == queued_text(id),
{
    let mut s = text("250 Ok: queued as ");
    push_decimal(&mut s, id);
    s.append("\r\n");
    s.append("221 Bye\r\n");
    s
}

impl Session {
    /// A session for a connection that has just been accepted.
    pub fn new() -> (r: Session)
        ensures
            r.state == SessionState::Greeting,
            r.data@.len() == 0,
    {
        Session { state: SessionState::Greeting, data: Vec::new() }
    }

    /// The greeting sent as soon as the connection opens; the session then
    /// accepts commands.
    pub fn greet(&mut self) -> (r: String)
        requires
            old(self).state == SessionState::Greeting,
        ensures
            r@ == greeting_text(),
            final(self).state == SessionState::Ready,
            final(self).data@ == old(self).data@,
    {
        self.state = SessionState::Ready;
        text("220 smtp.example.com Simple Mail Transfer Service Ready\r\n")
    }

    /// Handles one command line. Greetings, senders and recipients are
    /// acknowledged; `DATA` starts the message body; `QUIT` says goodbye and
    /// closes; anything else is refused and ends the session with a failure.
    pub fn command(&mut self, line: &Vec<u8>) -> (r: Reply)
        requires
            old(self).state == SessionState::Ready,
        ensures
            ({
                let c = classify(command_text(line@));
                match c {
                    Command::Hello => r is Send && r->Send_0@ == hello_text() && final(self).state
                        == SessionState::Ready,
                    Command::MailFrom | Command::RcptTo => r is Send && r->Send_0@ == ok_text()
                        && final(self).state == SessionState::Ready,
                    Command::Data => r is Send && r->Send_0@ == start_input_text()
                        && final(self).state == SessionState::ReceivingData,
                    Command::Quit => r is SendAndClose && r->SendAndClose_0@ == bye_text()
                        && final(self).state == SessionState::Closed,
                    Command::Unknown => r is SendAndFail && r->SendAndFail_0@ == unknown_text()
                        && final(self).state == SessionState::Closed,
                }
            }),
            final(self).data@ == old(self).data@,
    {
        let t = command_text_of(line);
        match classify_command(&t) {
            Command::Hello => Reply::Send(text("250 Hello\r\n")),
            Command::MailFrom | Command::RcptTo => Reply::Send(text("250 Ok\r\n")),
            Command::Data => {
                self.state = SessionState::ReceivingData;
                Reply::Send(text("354 Start mail input; end with <CRLF>.<CRLF>\r\n"))
            },
            Command::Quit => {
                self.state = SessionState::Closed;
                Reply::SendAndClose(text("221 Bye\r\n"))
            },
            Command::Unknown => {
                self.state = SessionState::Closed;
                Reply::SendAndFail(text("500 Unknown command\r\n"))
            },
        }
    }

    /// Takes one line of the message body. The terminating line ends the body
    /// and is not part of it; any other line is appended, and the body ends
    /// once it holds at least `MAX_MESSAGE_BYTES` bytes. Returns whether the
    /// body is complete, in which case the session is closed.
    pub fn data_line(&mut self, line: &Vec<u8>) -> (done: bool)
        requires
            old(self).state == SessionState::ReceivingData,
            old(self).data@.len() < MAX_MESSAGE_BYTES,
        ensures
            line@ == end_of_data_line() ==> done && final(self).data@ == old(self).data@,
            line@ != end_of_data_line() ==> final(self).data@ == old(self).data@ + line@ && done
                == (final(self).data@.len() >= MAX_MESSAGE_BYTES),
            done ==> final(self).state == SessionState::Closed,
            !done ==> final(self).state == SessionState::ReceivingData && final(self).data@.len()
                < MAX_MESSAGE_BYTES,
    {
        let dot: [u8; 3] = [46u8, 13, 10];
        assert(dot@ =~= end_of_data_line());
        if equals_bytes(line, dot.as_slice()) {
            self.state = SessionState::Closed;
            return true;
        }
        let mut k: usize = 0;
        let ghost start = self.data@;
        while k < line.len()
            invariant
                k <= line.len(),
                self.data@ == start + line@.subrange(0, k as int),
                self.state == SessionState::ReceivingData,
            decreases line.len() - k,
        {
            self.data.push(line[k]);
            assert(line@.subrange(0, k + 1) =~= line@.subrange(0, k as int).push(line@[k as int]));
            k = k + 1;
        }
        assert(line@.subrange(0, line@.len() as int) =~= line@);
        if self.data.len() >= MAX_MESSAGE_BYTES {
            self.state = SessionState::Closed;
            true
        } else {
            false
        }
    }

    /// The peer has closed the connection. A body in progress is complete as
    /// received so far; the result says whether there is one. The session is
    /// closed either way.
    pub fn peer_closed(&mut self) -> (deliver: bool)
        ensures
            deliver == (old(self).state == SessionState::ReceivingData),
            final(self).state == SessionState::Closed,
            final(self).data@ == old(self).data@,
    {
        let deliver = self.state == SessionState::ReceivingData;
        self.state = SessionState::Closed;
        deliver
    }
}

/// Ends the data phase of a message with id `mail_id`: decodes the body into
/// a record, if it has a sender, a recipient and a subject, and gives the
/// replies that tell the peer the message was queued and say goodbye. The
/// replies are the same whether or not a record came out.
pub fn complete_message(raw: &Vec<u8>, mail_id: u64) -> (r: (Option<Email>, String))
    ensures
        r.1@ == queued_text(mail_id),
        r.0 is Some <==> (mime_from_of(raw@) is Some && mime_to_of(raw@) is Some
            && mime_subject_of(raw@) is Some),
        r.0 is Some ==> opt_email_view(r.0) == record_of(
            mime_from_of(raw@),
            mime_to_of(raw@),
            mime_subject_of(raw@),
            mime_html_of(raw@),
            mail_id,
            r.0->0.received_at.unix_nanos as int,
        ),
{
    let email = Email::parse(raw.as_slice(), mail_id);
    (email, queued_reply(mail_id))
}

} // verus!
