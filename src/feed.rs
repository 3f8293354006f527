use vstd::prelude::*;

use crate::db::{
    Database, DbError, StoredRow, row_record, rows_well_formed, stored_selection,
};
use crate::types::{
    Email, EmailView, FeedConfig, RFC3339_MAX_NANOS, RFC3339_MIN_NANOS, in_rfc3339_range,
    rfc3339_of, views,
};

verus! {

#[verifier::external_type_specification]
#[verifier::external_body]
pub struct ExChannel(rss::Channel);

#[verifier::external_type_specification]
#[verifier::external_body]
pub struct ExItem(rss::Item);

/// One entry of a feed.
#[derive(Clone, Debug)]
pub struct FeedItem {
    pub title: String,
    pub description: String,
    pub content: String,
    pub author: String,
    pub pub_date: Option<String>,
}

/// A syndication document: the channel's title, link and description, and
/// its entries in order.
#[derive(Clone, Debug)]
pub struct FeedDocument {
    pub title: String,
    pub link: String,
    pub description: String,
    pub items: Vec<FeedItem>,
}

/// The publication date of a record received at `t`: its RFC 3339 text,
/// where it has one.
pub open spec fn pub_date_of(t: int) -> Option<Seq<char>> {
    if in_rfc3339_range(t) {
        Some(rfc3339_of(t as i128))
    } else {
        None
    }
}

/// `item` is the feed entry for `e` by `author`.
pub open spec fn item_for(item: FeedItem, e: EmailView, author: Seq<char>) -> bool {
    &&& item.title@ == e.subject
    &&& item.description@ == e.content
    &&& item.content@ == e.content
    &&& item.author@ == author
    &&& crate::types::opt_view(item.pub_date) == pub_date_of(e.received_at)
}

/// `items` are the feed entries for `records`, one each, in order.
pub open spec fn items_for(items: Seq<FeedItem>, records: Seq<EmailView>, author: Seq<char>) -> bool {
    &&& items.len() == records.len()
    &&& forall|i: int| 0 <= i < records.len() ==> item_for(#[trigger] items[i], records[i], author)
}

/// The entry for one record.
pub fn feed_item(email: &Email, author: &String) -> (r: FeedItem)
    ensures
        item_for(r, email@, author@),
{
    let t = email.received_at.unix_nanos;
    let pub_date = if RFC3339_MIN_NANOS <= t && t <= RFC3339_MAX_NANOS {
        Some(email.recv_at())
    } else {
        None
    };
    FeedItem {
        title: email.subject.clone(),
        description: email.content.clone(),
        content: email.content.clone(),
        author: author.clone(),
        pub_date,
    }
}

/// The document for one feed: titled `display_name`, linked to the feed's
/// `original_url`, with one entry per record, in the records' order.
pub fn feed_document(feed_cfg: &FeedConfig, emails: &Vec<Email>, display_name: &String) -> (r:
    FeedDocument)
    ensures
        r.title@ == display_name@,
        r.link@ == feed_cfg.original_url@,
        r.description@ == "Email feed for "@ + display_name@,
        items_for(r.items@, views(emails@), feed_cfg.feed_author@),
{
    let mut items: Vec<FeedItem> = Vec::new();
    let mut i: usize = 0;
    while i < emails.len()
        invariant
            i <= emails.len(),
            items@.len() == i,
            forall|k: int|
                0 <= k < i ==> item_for(#[trigger] items@[k], emails@[k]@, feed_cfg.feed_author@),
        decreases emails.len() - i,
    {
        let item = feed_item(&emails[i], &feed_cfg.feed_author);
        items.push(item);
        i = i + 1;
    }
    assert(items_for(items@, views(emails@), feed_cfg.feed_author@));
    let mut description = "Email feed for ".to_owned();
    description.append(display_name.as_str());
    FeedDocument {
        title: display_name.clone(),
        link: feed_cfg.original_url.clone(),
        description,
        items,
    }
}

/// Where none of the stored rows is addressed to `to` (an empty store among
/// them), the selection is empty, so a feed whose entries are those of the
/// selection has none.
pub proof fn lemma_no_records_no_entries(
    rows: Seq<StoredRow>,
    to: Seq<char>,
    limit: nat,
    items: Seq<FeedItem>,
    author: Seq<char>,
)
    requires
        forall|i: int| 0 <= i < rows.len() ==> rows[i].to_address@ != to,
        items_for(items, stored_selection(rows, to, limit), author),
    ensures
        stored_selection(rows, to, limit).len() == 0,
        items.len() == 0,
{
    let recs = rows.map_values(|row: StoredRow| row_record(row));
    crate::store::lemma_latest_per_subject_sound(recs, to, limit);
    let res = stored_selection(rows, to, limit);
    if res.len() > 0 {
        assert(res[0].to_address == to);
        let j = choose|j: int| 0 <= j < recs.len() && recs[j] == res[0];
        assert(recs[j] == row_record(rows[j]));
        assert(rows[j].to_address@ == to);
    }
}

/// The path of a feed's file: `<dir>/<feed_name>.xml`.
pub fn feed_file_path(dir: &String, feed_name: &String) -> (r: String)
    ensures
        r@ == dir@ + "/"@ + feed_name@ + ".xml"@,
{
    let mut p = dir.clone();
    p.append("/");
    p.append(feed_name.as_str());
    p.append(".xml");
    p
}

/// Relies on rss's `ItemBuilder`: an item with the entry's fields.
#[verifier::external_body]
fn rss_item(item: &FeedItem) -> (r: rss::Item) {
    rss::ItemBuilder::default().title(item.title.clone()).description(item.description.clone()).content(
        item.content.clone(),
    ).author(item.author.clone()).pub_date(item.pub_date.clone()).build()
}

/// Relies on rss's `ChannelBuilder`: a channel with the document's title,
/// link and description and the given items.
#[verifier::external_body]
fn rss_channel(doc: &FeedDocument, items: Vec<rss::Item>) -> (r: rss::Channel) {
    rss::ChannelBuilder::default().title(doc.title.clone()).link(doc.link.clone()).description(
        doc.description.clone(),
    ).items(items).build()
}

/// The syndication channel of a document.
pub fn to_channel(doc: &FeedDocument) -> (r: rss::Channel) {
    let mut items: Vec<rss::Item> = Vec::new();
    let mut i: usize = 0;
    while i < doc.items.len()
        invariant
            i <= doc.items.len(),
        decreases doc.items.len() - i,
    {
        items.push(rss_item(&doc.items[i]));
        i = i + 1;
    }
    rss_channel(doc, items)
}

/// The feed for one mapping: the latest record of each subject addressed to
/// the mapping's recipient, at most `num_entries_per_feed`, in store order,
/// as a document. A failure of the store is passed on.
pub fn generate_feed(
    feed_cfg: &FeedConfig,
    database: &Database,
    num_entries_per_feed: u8,
    display_name: &String,
) -> (r: Result<FeedDocument, DbError>)
    ensures
        r is Ok ==> r->Ok_0.title@ == display_name@,
        r is Ok ==> r->Ok_0.link@ == feed_cfg.original_url@,
        r is Ok ==> r->Ok_0.description@ == "Email feed for "@ + display_name@,
        r is Ok ==> r->Ok_0.items@.len() <= num_entries_per_feed,
        r is Ok ==> forall|a: int, b: int|
            0 <= a < b < r->Ok_0.items@.len() ==> r->Ok_0.items@[a].title@
                != r->Ok_0.items@[b].title@,
        r is Ok ==> exists|rows: Seq<StoredRow>|
            rows_well_formed(rows) && items_for(
                r->Ok_0.items@,
                stored_selection(rows, feed_cfg.to_email@, num_entries_per_feed as nat),
                feed_cfg.feed_author@,
            ),
        !(r matches Err(DbError::TimestampOutOfRange)),
{
    let emails = database.get_emails(num_entries_per_feed, &feed_cfg.to_email)?;
    let doc = feed_document(feed_cfg, &emails, display_name);
    proof {
        let v = emails@;
        assert forall|a: int, b: int| 0 <= a < b < doc.items@.len() implies doc.items@[a].title@
            != doc.items@[b].title@ by {
            assert(item_for(doc.items@[a], views(v)[a], feed_cfg.feed_author@));
            assert(item_for(doc.items@[b], views(v)[b], feed_cfg.feed_author@));
            assert(views(v)[a] == v[a]@);
            assert(views(v)[b] == v[b]@);
        }
        let rows = choose|rows: Seq<StoredRow>|
            rows_well_formed(rows) && views(v) == stored_selection(
                rows,
                feed_cfg.to_email@,
                num_entries_per_feed as nat,
            );
        assert(items_for(
            doc.items@,
            stored_selection(rows, feed_cfg.to_email@, num_entries_per_feed as nat),
            feed_cfg.feed_author@,
        ));
    }
    Ok(doc)
}

} // verus!
