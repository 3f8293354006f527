use vstd::prelude::*;

use mail_parser::MessageParser;
use time::format_description::well_known::{Iso8601, Rfc3339};
use time::OffsetDateTime;

verus! {

/// An instant, as nanoseconds since the Unix epoch in UTC.
#[derive(Clone, Copy, Debug, PartialEq, Eq, Structural)]
pub struct Timestamp {
    pub unix_nanos: i128,
}

/// One received message.
#[derive(Clone, Debug)]
pub struct Email {
    pub id: u64,
    pub received_at: Timestamp,
    pub from_address: String,
    pub to_address: String,
    pub subject: String,
    pub content: String,
}

/// The mathematical value of a message record.
pub struct EmailView {
    pub id: u64,
    pub received_at: int,
    pub from_address: Seq<char>,
    pub to_address: Seq<char>,
    pub subject: Seq<char>,
    pub content: Seq<char>,
}

impl View for Email {
    type V = EmailView;

    open spec fn view(&self) -> EmailView {
        EmailView {
            id: self.id,
            received_at: self.received_at.unix_nanos as int,
            from_address: self.from_address@,
            to_address: self.to_address@,
            subject: self.subject@,
            content: self.content@,
        }
    }
}

/// The views of a sequence of records.
pub open spec fn views(s: Seq<Email>) -> Seq<EmailView> {
    s.map_values(|e: Email| e@)
}

impl Email {
    /// A copy of this record with the same value.
    pub fn duplicate(&self) -> (r: Email)
        ensures
            r@ == self@,
    {
        Email {
            id: self.id,
            received_at: self.received_at,
            from_address: self.from_address.clone(),
            to_address: self.to_address.clone(),
            subject: self.subject.clone(),
            content: self.content.clone(),
        }
    }
}

/// The header fields and body that a message's MIME decoding yields; all
/// absent where the bytes do not decode as a message.
#[derive(Debug)]
pub struct MimeFields {
    pub from: Option<String>,
    pub to: Option<String>,
    pub subject: Option<String>,
    pub html: Option<String>,
}

pub open spec fn opt_view(o: Option<String>) -> Option<Seq<char>> {
    match o {
        Some(s) => Some(s@),
        None => None,
    }
}

/// The address of the first `From` mailbox of the decoded message `raw`.
pub uninterp spec fn mime_from_of(raw: Seq<u8>) -> Option<Seq<char>>;

/// The address of the first `To` mailbox of the decoded message `raw`.
pub uninterp spec fn mime_to_of(raw: Seq<u8>) -> Option<Seq<char>>;

/// The `Subject` header of the decoded message `raw`.
pub uninterp spec fn mime_subject_of(raw: Seq<u8>) -> Option<Seq<char>>;

/// The first HTML-renderable body part of the decoded message `raw`.
pub uninterp spec fn mime_html_of(raw: Seq<u8>) -> Option<Seq<char>>;

/// Relies on mail_parser's `MessageParser::parse` and the accessors `from`,
/// `to` (first mailbox, its address), `subject` and `body_html(0)` of the
/// decoded message; each is a function of the bytes alone.
#[verifier::external_body]
fn read_mime(raw: &[u8]) -> (r: MimeFields)
    ensures
        opt_view(r.from) == mime_from_of(raw@),
        opt_view(r.to) == mime_to_of(raw@),
        opt_view(r.subject) == mime_subject_of(raw@),
        opt_view(r.html) == mime_html_of(raw@),
{
    match MessageParser::new().parse(raw) {
        None => MimeFields { from: None, to: None, subject: None, html: None },
        Some(m) => MimeFields {
            from: m.from().and_then(|a| a.first()).and_then(|a| a.address()).map(|a| a.to_string()),
            to: m.to().and_then(|a| a.first()).and_then(|a| a.address()).map(|a| a.to_string()),
            subject: m.subject().map(|t| t.to_string()),
            html: m.body_html(0).map(|b| b.to_string()),
        },
    }
}

/// Relies on time's `OffsetDateTime::now_utc`: the current wall-clock time.
#[verifier::external_body]
fn now_utc() -> (r: Timestamp) {
    Timestamp { unix_nanos: OffsetDateTime::now_utc().unix_timestamp_nanos() }
}

/// First and last nanosecond, since the Unix epoch, of the years 0 through
/// 9999, the instants that RFC 3339 text can write.
pub const RFC3339_MIN_NANOS: i128 = -62_167_219_200_000_000_000;

pub const RFC3339_MAX_NANOS: i128 = 253_402_300_799_999_999_999;

pub open spec fn in_rfc3339_range(unix_nanos: int) -> bool {
    RFC3339_MIN_NANOS <= unix_nanos <= RFC3339_MAX_NANOS
}

/// The RFC 3339 text, in UTC, of the instant `unix_nanos`.
pub uninterp spec fn rfc3339_of(unix_nanos: i128) -> Seq<char>;

/// The instant, in nanoseconds since the Unix epoch, that ISO 8601 text
/// `s` denotes, if it is one.
pub uninterp spec fn iso8601_nanos_of(s: Seq<char>) -> Option<i128>;

/// Relies on time's `OffsetDateTime::from_unix_timestamp_nanos` and
/// `format(&Rfc3339)`: in UTC both succeed exactly for the years 0 through 9999.
#[verifier::external_body]
fn format_rfc3339(unix_nanos: i128) -> (r: Option<String>)
    ensures
        r is Some <==> in_rfc3339_range(unix_nanos as int),
        r is Some ==> r->0@ == rfc3339_of(unix_nanos),
{
    OffsetDateTime::from_unix_timestamp_nanos(unix_nanos).ok().and_then(|t| t.format(&Rfc3339).ok())
}

/// Relies on time's `OffsetDateTime::parse` with the default ISO 8601
/// description, read back as nanoseconds since the Unix epoch.
#[verifier::external_body]
pub(crate) fn parse_iso8601(s: &str) -> (r: Option<i128>)
    ensures
        r == iso8601_nanos_of(s@),
{
    OffsetDateTime::parse(s, &Iso8601::DEFAULT).ok().map(|t| t.unix_timestamp_nanos())
}

/// The record that decoded fields give: present exactly when the sender,
/// the recipient and the subject are all present.
pub open spec fn record_of(
    from: Option<Seq<char>>,
    to: Option<Seq<char>>,
    subject: Option<Seq<char>>,
    html: Option<Seq<char>>,
    id: u64,
    received_at: int,
) -> Option<EmailView> {
    if from is Some && to is Some && subject is Some {
        Some(
            EmailView {
                id,
                received_at,
                from_address: from->0,
                to_address: to->0,
                subject: subject->0,
                content: match html {
                    Some(h) => h,
                    None => Seq::empty(),
                },
            },
        )
    } else {
        None
    }
}

pub open spec fn opt_email_view(o: Option<Email>) -> Option<EmailView> {
    match o {
        Some(e) => Some(e@),
        None => None,
    }
}

impl Email {
    /// The RFC 3339 text of the time this message was received.
    pub fn recv_at(&self) -> (r: String)
        requires
            in_rfc3339_range(self.received_at.unix_nanos as int),
        ensures
            r@ == rfc3339_of(self.received_at.unix_nanos),
    {
        match format_rfc3339(self.received_at.unix_nanos) {
            Some(t) => t,
            None => String::new(),
        }
    }

    /// The record made of decoded fields: none where the sender, the
    /// recipient or the subject is missing; the body is empty where there is
    /// no HTML-renderable part.
    pub fn from_fields(fields: MimeFields, mail_id: u64, received_at: Timestamp) -> (r: Option<Email>)
        ensures
            opt_email_view(r) == record_of(
                opt_view(fields.from),
                opt_view(fields.to),
                opt_view(fields.subject),
                opt_view(fields.html),
                mail_id,
                received_at.unix_nanos as int,
            ),
    {
        match (fields.from, fields.to, fields.subject) {
            (Some(from_address), Some(to_address), Some(subject)) => {
                let content = match fields.html {
                    Some(h) => h,
                    None => String::new(),
                };
                Some(
                    Email {
                        id: mail_id,
                        received_at,
                        from_address,
                        to_address,
                        subject,
                        content,
                    },
                )
            },
            _ => None,
        }
    }

    /// Decodes the bytes of one message transmission into a record with id
    /// `mail_id`, stamped with the current time.
    pub fn parse(raw_data: &[u8], mail_id: u64) -> (r: Option<Email>)
        ensures
            r is Some <==> (mime_from_of(raw_data@) is Some && mime_to_of(raw_data@) is Some
                && mime_subject_of(raw_data@) is Some),
            r is Some ==> opt_email_view(r) == record_of(
                mime_from_of(raw_data@),
                mime_to_of(raw_data@),
                mime_subject_of(raw_data@),
                mime_html_of(raw_data@),
                mail_id,
                r->0.received_at.unix_nanos as int,
            ),
    {
        let fields = read_mime(raw_data);
        let received_at = now_utc();
        Email::from_fields(fields, mail_id, received_at)
    }
}

/// One feed: the recipient address it selects and how it is presented.
#[derive(Clone, Debug)]
pub struct FeedConfig {
    pub display_name: String,
    pub to_email: String,
    pub feed_name: String,
    pub feed_author: String,
    pub original_url: String,
}

/// The settings of a run.
#[derive(Clone, Debug)]
pub struct Config {
    pub bind_ip: String,
    pub port: u16,
    pub dst_email_to_feed: Vec<FeedConfig>,
    pub db_path: String,
    pub num_entries_per_feed: u8,
    pub feed_path: String,
}

impl Config {
    /// Settings that listen on all interfaces and publish one feed, for
    /// `to_email`, with no link.
    pub fn new(
        port: u16,
        to_email: String,
        display_name: String,
        feed_name: String,
        feed_author: String,
        db_path: String,
        num_entries_per_feed: u8,
        feed_path: String,
    ) -> (r: Config)
        ensures
            r.bind_ip@ == "0.0.0.0"@,
            r.port == port,
            r.dst_email_to_feed@.len() == 1,
            r.dst_email_to_feed@[0].display_name == display_name,
            r.dst_email_to_feed@[0].to_email == to_email,
            r.dst_email_to_feed@[0].feed_name == feed_name,
            r.dst_email_to_feed@[0].feed_author == feed_author,
            r.dst_email_to_feed@[0].original_url@.len() == 0,
            r.db_path == db_path,
            r.num_entries_per_feed == num_entries_per_feed,
            r.feed_path == feed_path,
    {
        let dst_email_to_feed = vec![
            FeedConfig {
                display_name,
                to_email,
                feed_name,
                feed_author,
                original_url: String::new(),
            },
        ];
        Config {
            bind_ip: "0.0.0.0".to_owned(),
            port,
            dst_email_to_feed,
            db_path,
            num_entries_per_feed,
            feed_path,
        }
    }
}

} // verus!
