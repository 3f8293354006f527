use vstd::prelude::*;

use rusqlite::Connection;

use crate::store::{latest_per_subject, latest_per_subject_spec, lemma_latest_per_subject_ordered};
use crate::types::{
    Email, EmailView, Timestamp, in_rfc3339_range, iso8601_nanos_of, parse_iso8601, rfc3339_of,
    views,
};

verus! {

#[verifier::external_type_specification]
#[verifier::external_body]
pub struct ExConnection(rusqlite::Connection);

#[verifier::external_type_specification]
#[verifier::external_body]
pub struct ExSqlError(rusqlite::Error);

/// Why a store operation failed.
#[derive(Debug)]
pub enum DbError {
    /// The database refused the statement or could not be reached.
    Sql(rusqlite::Error),
    /// The record's time has no RFC 3339 text (outside the years 0 to 9999).
    TimestampOutOfRange,
    /// A stored row has a negative id.
    BadId,
    /// A stored row's time is not ISO 8601 text.
    BadTimestamp,
    /// The stored rows did not come in ascending id order.
    OutOfOrder,
}

/// One row of the message table, as stored.
#[derive(Debug)]
pub struct StoredRow {
    pub id: i64,
    pub received_at: String,
    pub from_address: String,
    pub to_address: String,
    pub subject: String,
    pub content: String,
}

/// The append-only message store.
pub struct Database {
    conn: Connection,
    path: Ghost<Seq<char>>,
}

/// Relies on rusqlite's `Connection::open`: opens or creates the database file.
#[verifier::external_body]
fn open_connection(path: &str) -> (r: Result<Connection, rusqlite::Error>) {
    Connection::open(path)
}

/// Relies on rusqlite's `Connection::execute`: runs one statement with the
/// given text parameters.
#[verifier::external_body]
fn execute(conn: &Connection, sql: &str, params: &Vec<String>) -> (r: Result<usize, rusqlite::Error>) {
    conn.execute(sql, rusqlite::params_from_iter(params.iter()))
}

/// Relies on rusqlite's `Connection::prepare` and `Statement::query_map`:
/// runs a query whose six columns are the fields of a stored row.
#[verifier::external_body]
fn query_rows(conn: &Connection, sql: &str, params: &Vec<String>) -> (r: Result<
    Vec<StoredRow>,
    rusqlite::Error,
>) {
    let mut stmt = conn.prepare(sql)?;
    let rows = stmt.query_map(rusqlite::params_from_iter(params.iter()), |row| {
        Ok(StoredRow {
            id: row.get(0)?,
            received_at: row.get(1)?,
            from_address: row.get(2)?,
            to_address: row.get(3)?,
            subject: row.get(4)?,
            content: row.get(5)?,
        })
    })?;
    rows.collect()
}

/// The record that a stored row holds, given that its time reads as ISO 8601.
pub open spec fn row_record(row: StoredRow) -> EmailView {
    EmailView {
        id: row.id as u64,
        received_at: iso8601_nanos_of(row.received_at@)->0 as int,
        from_address: row.from_address@,
        to_address: row.to_address@,
        subject: row.subject@,
        content: row.content@,
    }
}

pub open spec fn ids_valid(rows: Seq<StoredRow>) -> bool {
    forall|i: int| 0 <= i < rows.len() ==> rows[i].id >= 0
}

pub open spec fn times_valid(rows: Seq<StoredRow>) -> bool {
    forall|i: int| 0 <= i < rows.len() ==> (#[trigger] iso8601_nanos_of(rows[i].received_at@)) is Some
}

pub open spec fn ids_ascending(rows: Seq<StoredRow>) -> bool {
    forall|i: int, j: int| 0 <= i < j < rows.len() ==> rows[i].id < rows[j].id
}

/// Rows that can be read back as records: valid ids, readable times, and
/// ids ascending in store order.
pub open spec fn rows_well_formed(rows: Seq<StoredRow>) -> bool {
    ids_valid(rows) && times_valid(rows) && ids_ascending(rows)
}

/// The latest-per-subject selection, for recipient `to`, over stored rows.
pub open spec fn stored_selection(rows: Seq<StoredRow>, to: Seq<char>, limit: nat) -> Seq<
    EmailView,
> {
    latest_per_subject_spec(rows.map_values(|row: StoredRow| row_record(row)), to, limit)
}

/// The statement text that creates the message table where it is missing.
pub open spec fn create_table_text() -> Seq<char> {
    "CREATE TABLE IF NOT EXISTS emails (id INTEGER PRIMARY KEY AUTOINCREMENT, received_at DATETIME NOT NULL, from_address TEXT NOT NULL, to_address TEXT NOT NULL, subject TEXT NOT NULL, content TEXT NOT NULL)"@
}

/// The query text that reads a recipient's rows in store order.
pub open spec fn select_text() -> Seq<char> {
    "SELECT id, received_at, from_address, to_address, subject, content FROM emails WHERE to_address = ? ORDER BY id"@
}

/// The statement text that appends one row.
pub open spec fn insert_text() -> Seq<char> {
    "INSERT INTO emails (received_at, from_address, to_address, subject, content) VALUES (?, ?, ?, ?, ?)"@
}

/// The latest-per-subject selection over stored rows, in store order: the
/// rows must have valid ids, readable times and ascending ids, checked in
/// that order; rows that pass all three give the selection.
pub fn emails_from_rows(rows: Vec<StoredRow>, to_address: &String, limit: u8) -> (r: Result<
    Vec<Email>,
    DbError,
>)
    ensures
        !ids_valid(rows@) <==> r matches Err(DbError::BadId),
        ids_valid(rows@) && !times_valid(rows@) <==> r matches Err(DbError::BadTimestamp),
        ids_valid(rows@) && times_valid(rows@) && !ids_ascending(rows@) <==> r matches Err(
            DbError::OutOfOrder,
        ),
        rows_well_formed(rows@) ==> r is Ok,
        r is Ok ==> views(r->Ok_0@) == latest_per_subject_spec(
            rows@.map_values(|row: StoredRow| row_record(row)),
            to_address@,
            limit as nat,
        ),
        r is Ok ==> forall|a: int, b: int|
            0 <= a < b < r->Ok_0@.len() ==> r->Ok_0@[a].id < r->Ok_0@[b].id,
{
    let mut i: usize = 0;
    while i < rows.len()
        invariant
            i <= rows.len(),
            forall|k: int| 0 <= k < i ==> rows@[k].id >= 0,
        decreases rows.len() - i,
    {
        if rows[i].id < 0 {
            return Err(DbError::BadId);
        }
        i = i + 1;
    }
    let ghost recs = rows@.map_values(|row: StoredRow| row_record(row));
    let mut emails: Vec<Email> = Vec::new();
    let mut j: usize = 0;
    while j < rows.len()
        invariant
            j <= rows.len(),
            ids_valid(rows@),
            recs == rows@.map_values(|row: StoredRow| row_record(row)),
            forall|k: int| 0 <= k < j ==> (#[trigger] iso8601_nanos_of(rows@[k].received_at@)) is Some,
            views(emails@) == recs.take(j as int),
        decreases rows.len() - j,
    {
        let row = &rows[j];
        match parse_iso8601(row.received_at.as_str()) {
            None => {
                return Err(DbError::BadTimestamp);
            },
            Some(n) => {
                let e = Email {
                    id: row.id as u64,
                    received_at: Timestamp { unix_nanos: n },
                    from_address: row.from_address.clone(),
                    to_address: row.to_address.clone(),
                    subject: row.subject.clone(),
                    content: row.content.clone(),
                };
                let ghost before = emails@;
                emails.push(e);
                assert(views(emails@) =~= views(before).push(e@));
                assert(recs.take(j + 1) =~= recs.take(j as int).push(recs[j as int]));
            },
        }
        j = j + 1;
    }
    assert(recs.take(rows@.len() as int) =~= recs);
    assert(times_valid(rows@));
    let mut k: usize = 1;
    while k < rows.len()
        invariant
            1 <= k,
            ids_valid(rows@),
            times_valid(rows@),
            recs == rows@.map_values(|row: StoredRow| row_record(row)),
            views(emails@) == recs,
            forall|a: int, b: int| 0 <= a < b < k && b < rows.len() ==> rows@[a].id < rows@[b].id,
        decreases rows.len() - k,
    {
        if rows[k - 1].id >= rows[k].id {
            assert(!ids_ascending(rows@));
            return Err(DbError::OutOfOrder);
        }
        proof {
            assert forall|a: int, b: int| 0 <= a < b < k + 1 && b < rows.len() implies rows@[a].id
                < rows@[b].id by {
                if b == k && a < k - 1 {
                    assert(rows@[a].id < rows@[k - 1].id);
                }
            }
        }
        k = k + 1;
    }
    proof {
        assert forall|a: int, b: int| 0 <= a < b < recs.len() implies recs[a].id < recs[b].id by {
            assert(rows@[a].id < rows@[b].id);
        }
        lemma_latest_per_subject_ordered(recs, to_address@, limit as nat);
    }
    let r = latest_per_subject(&emails, to_address, limit as usize);
    proof {
        assert forall|a: int, b: int| 0 <= a < b < r@.len() implies r@[a].id < r@[b].id by {
            assert(views(r@)[a] == r@[a]@);
            assert(views(r@)[b] == r@[b]@);
        }
    }
    Ok(r)
}

/// The parameters of the query for `to`'s rows: the address alone.
fn recipient_params(to: &String) -> (r: Vec<String>)
    ensures
        r@.len() == 1,
        r@[0]@ == to@,
{
    let mut params: Vec<String> = Vec::new();
    params.push(to.clone());
    params
}

/// The parameters of the statement that appends `email`: the RFC 3339 text
/// of its time, then sender, recipient, subject and body.
fn insert_params(email: Email) -> (r: Vec<String>)
    requires
        in_rfc3339_range(email.received_at.unix_nanos as int),
    ensures
        r@.len() == 5,
        r@[0]@ == rfc3339_of(email.received_at.unix_nanos),
        r@[1]@ == email.from_address@,
        r@[2]@ == email.to_address@,
        r@[3]@ == email.subject@,
        r@[4]@ == email.content@,
{
    let mut params: Vec<String> = Vec::new();
    params.push(email.recv_at());
    params.push(email.from_address);
    params.push(email.to_address);
    params.push(email.subject);
    params.push(email.content);
    params
}

/// The statement that creates the message table where it is missing.
fn create_table_sql() -> (r: &'static str)
    ensures
        r@ == create_table_text(),
{
    proof {
        reveal_strlit("CREATE TABLE IF NOT EXISTS emails (id INTEGER PRIMARY KEY AUTOINCREMENT, received_at DATETIME NOT NULL, from_address TEXT NOT NULL, to_address TEXT NOT NULL, subject TEXT NOT NULL, content TEXT NOT NULL)");
    }
    "CREATE TABLE IF NOT EXISTS emails (id INTEGER PRIMARY KEY AUTOINCREMENT, received_at DATETIME NOT NULL, from_address TEXT NOT NULL, to_address TEXT NOT NULL, subject TEXT NOT NULL, content TEXT NOT NULL)"
}

/// The query that reads a recipient's rows in store order.
fn select_sql() -> (r: &'static str)
    ensures
        r@ == select_text(),
{
    proof {
        reveal_strlit("SELECT id, received_at, from_address, to_address, subject, content FROM emails WHERE to_address = ? ORDER BY id");
    }
    "SELECT id, received_at, from_address, to_address, subject, content FROM emails WHERE to_address = ? ORDER BY id"
}

/// The statement that appends one row.
fn insert_sql() -> (r: &'static str)
    ensures
        r@ == insert_text(),
{
    proof {
        reveal_strlit("INSERT INTO emails (received_at, from_address, to_address, subject, content) VALUES (?, ?, ?, ?, ?)");
    }
    "INSERT INTO emails (received_at, from_address, to_address, subject, content) VALUES (?, ?, ?, ?, ?)"
}

impl Database {
    /// The path of the database file this store was opened at.
    pub closed spec fn path(&self) -> Seq<char> {
        self.path@
    }

    /// Opens the store at `path`, creating the message table if it is missing.
    pub fn new(path: &str) -> (r: Result<Database, rusqlite::Error>)
        ensures
            r is Ok ==> r->Ok_0.path() == path@,
    {
        let conn = open_connection(path)?;
        let no_params: Vec<String> = Vec::new();
        execute(&conn, create_table_sql(), &no_params)?;
        Ok(Database { conn, path: Ghost(path@) })
    }

    /// Appends one record; the store assigns it an id of its own. A record
    /// whose time has no RFC 3339 text is refused before the store is reached.
    pub fn insert_email(&self, email: Email) -> (r: Result<(), DbError>)
        ensures
            !in_rfc3339_range(email.received_at.unix_nanos as int) <==> r matches Err(
                DbError::TimestampOutOfRange,
            ),
            in_rfc3339_range(email.received_at.unix_nanos as int) ==> (r is Ok || r matches Err(
                DbError::Sql(_),
            )),
    {
        if email.received_at.unix_nanos < crate::types::RFC3339_MIN_NANOS
            || email.received_at.unix_nanos > crate::types::RFC3339_MAX_NANOS {
            return Err(DbError::TimestampOutOfRange);
        }
        let params = insert_params(email);
        match execute(&self.conn, insert_sql(), &params) {
            Ok(_) => Ok(()),
            Err(e) => Err(DbError::Sql(e)),
        }
    }

    /// For recipient `to_address`, the latest record of each subject, in the
    /// order the store took them, at most `num_entries_per_feed` of them.
    pub fn get_emails(&self, num_entries_per_feed: u8, to_address: &String) -> (r: Result<
        Vec<Email>,
        DbError,
    >)
        ensures
            r is Ok ==> r->Ok_0@.len() <= num_entries_per_feed,
            r is Ok ==> forall|a: int, b: int|
                0 <= a < b < r->Ok_0@.len() ==> r->Ok_0@[a].id < r->Ok_0@[b].id,
            r is Ok ==> forall|a: int|
                0 <= a < r->Ok_0@.len() ==> (#[trigger] r->Ok_0@[a]).to_address@ == to_address@,
            r is Ok ==> forall|a: int, b: int|
                0 <= a < b < r->Ok_0@.len() ==> r->Ok_0@[a].subject@ != r->Ok_0@[b].subject@,
            r is Ok ==> exists|rows: Seq<StoredRow>|
                rows_well_formed(rows) && views(r->Ok_0@) == stored_selection(
                    rows,
                    to_address@,
                    num_entries_per_feed as nat,
                ),
            !(r matches Err(DbError::TimestampOutOfRange)),
    {
        let params = recipient_params(to_address);
        let rows = match query_rows(&self.conn, select_sql(), &params) {
            Ok(rows) => rows,
            Err(e) => {
                return Err(DbError::Sql(e));
            },
        };
        let r = emails_from_rows(rows, to_address, num_entries_per_feed);
        proof {
            if r is Ok {
                let v = r->Ok_0@;
                let recs = rows@.map_values(|row: StoredRow| row_record(row));
                crate::store::lemma_latest_per_subject_sound(recs, to_address@, num_entries_per_feed as nat);
                assert forall|a: int| 0 <= a < v.len() implies (#[trigger] v[a]).to_address@
                    == to_address@ by {
                    assert(views(v)[a] == v[a]@);
                }
                assert forall|a: int, b: int| 0 <= a < b < v.len() implies v[a].subject@
                    != v[b].subject@ by {
                    assert(views(v)[a] == v[a]@);
                    assert(views(v)[b] == v[b]@);
                }
                assert(rows_well_formed(rows@));
                assert(views(v) == stored_selection(rows@, to_address@, num_entries_per_feed as nat));
            }
        }
        r
    }
}

/// A consumer of completed message records.
pub trait EmailHandler {
    fn handle(&self, email: Email) -> Result<(), DbError>;
}

impl EmailHandler for Database {
    /// Stores the record, as `insert_email` does.
    fn handle(&self, email: Email) -> (r: Result<(), DbError>)
        ensures
            !in_rfc3339_range(email.received_at.unix_nanos as int) <==> r matches Err(
                DbError::TimestampOutOfRange,
            ),
            in_rfc3339_range(email.received_at.unix_nanos as int) ==> (r is Ok || r matches Err(
                DbError::Sql(_),
            )),
    {
        self.insert_email(email)
    }
}

} // verus!
