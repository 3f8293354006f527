use superheap::db::Database;
use superheap::feed::{feed_document, feed_file_path, feed_item, generate_feed, to_channel};
use superheap::types::{Config, Email, FeedConfig, Timestamp};

fn mapping() -> FeedConfig {
    FeedConfig {
        display_name: "Test Feed".to_string(),
        to_email: "r@x".to_string(),
        feed_name: "test".to_string(),
        feed_author: "FNU Author".to_string(),
        original_url: "https://example.com/list".to_string(),
    }
}

fn rec(t: i128, subject: &str, content: &str) -> Email {
    Email {
        id: 1,
        received_at: Timestamp { unix_nanos: t },
        from_address: "s@x".to_string(),
        to_address: "r@x".to_string(),
        subject: subject.to_string(),
        content: content.to_string(),
    }
}

#[test]
fn empty_store_gives_an_empty_feed() {
    let db = Database::new(":memory:").expect("open");
    let cfg = mapping();
    let doc = generate_feed(&cfg, &db, 5, &cfg.display_name).expect("feed");
    assert!(doc.items.is_empty());
    assert_eq!(doc.title, "Test Feed");
    let channel = to_channel(&doc);
    assert_eq!(channel.items().len(), 0);
    assert_eq!(channel.title(), "Test Feed");
    assert_eq!(channel.link(), "https://example.com/list");
    assert_eq!(channel.description(), "Email feed for Test Feed");
    let xml = channel.to_string();
    assert!(xml.contains("<rss"));
    assert!(!xml.contains("<item>"));
}

#[test]
fn document_has_one_entry_per_record_in_order() {
    let cfg = mapping();
    let emails = vec![rec(0, "first", "<b>one</b>"), rec(1_000_000_000, "second", "two")];
    let doc = feed_document(&cfg, &emails, &cfg.display_name);
    assert_eq!(doc.title, "Test Feed");
    assert_eq!(doc.link, "https://example.com/list");
    assert_eq!(doc.description, "Email feed for Test Feed");
    assert_eq!(doc.items.len(), 2);
    assert_eq!(doc.items[0].title, "first");
    assert_eq!(doc.items[0].description, "<b>one</b>");
    assert_eq!(doc.items[0].content, "<b>one</b>");
    assert_eq!(doc.items[0].author, "FNU Author");
    assert_eq!(doc.items[0].pub_date.as_deref(), Some("1970-01-01T00:00:00Z"));
    assert_eq!(doc.items[1].title, "second");
    assert_eq!(doc.items[1].pub_date.as_deref(), Some("1970-01-01T00:00:01Z"));
}

#[test]
fn empty_record_list_gives_empty_document() {
    let cfg = mapping();
    let doc = feed_document(&cfg, &Vec::new(), &"Other".to_string());
    assert!(doc.items.is_empty());
    assert_eq!(doc.title, "Other");
    assert_eq!(doc.description, "Email feed for Other");
}

#[test]
fn time_without_rfc3339_text_has_no_date() {
    let item = feed_item(&rec(i128::MAX, "s", "c"), &"a".to_string());
    assert!(item.pub_date.is_none());
}

#[test]
fn stored_records_become_channel_items() {
    let db = Database::new(":memory:").expect("open");
    let cfg = mapping();
    db.insert_email(rec(2_000_000_000_000_000_000, "hello", "<p>x</p>")).unwrap();
    db.insert_email(rec(1_000_000_000_000_000_000, "hello", "<p>old</p>")).unwrap();
    let doc = generate_feed(&cfg, &db, 5, &cfg.display_name).expect("feed");
    assert_eq!(doc.items.len(), 1);
    assert_eq!(doc.items[0].title, "hello");
    let channel = to_channel(&doc);
    assert_eq!(channel.items().len(), 1);
    let item = &channel.items()[0];
    assert_eq!(item.title(), Some("hello"));
    assert_eq!(item.description(), Some("<p>x</p>"));
    assert_eq!(item.content(), Some("<p>x</p>"));
    assert_eq!(item.author(), Some("FNU Author"));
    assert_eq!(item.pub_date(), Some("2033-05-18T03:33:20Z"));
}

#[test]
fn channel_of_a_document_keeps_its_fields() {
    let cfg = mapping();
    let doc = feed_document(&cfg, &vec![rec(0, "t", "c")], &cfg.display_name);
    let channel = to_channel(&doc);
    assert_eq!(channel.items().len(), 1);
    assert_eq!(channel.items()[0].title(), Some("t"));
}

#[test]
fn feed_file_lives_in_the_output_directory() {
    assert_eq!(
        feed_file_path(&"/tmp/feeds".to_string(), &"news".to_string()),
        "/tmp/feeds/news.xml"
    );
}

#[test]
fn default_config_has_one_mapping() {
    let c = Config::new(
        10025,
        "receiver@example.com".to_string(),
        "Test Feed".to_string(),
        "test".to_string(),
        "FNU Author".to_string(),
        "/tmp/superheap.db".to_string(),
        5,
        "/tmp/superheap/".to_string(),
    );
    assert_eq!(c.bind_ip, "0.0.0.0");
    assert_eq!(c.port, 10025);
    assert_eq!(c.dst_email_to_feed.len(), 1);
    assert_eq!(c.dst_email_to_feed[0].to_email, "receiver@example.com");
    assert_eq!(c.dst_email_to_feed[0].display_name, "Test Feed");
    assert_eq!(c.dst_email_to_feed[0].feed_name, "test");
    assert_eq!(c.dst_email_to_feed[0].feed_author, "FNU Author");
    assert_eq!(c.dst_email_to_feed[0].original_url, "");
    assert_eq!(c.db_path, "/tmp/superheap.db");
    assert_eq!(c.num_entries_per_feed, 5);
    assert_eq!(c.feed_path, "/tmp/superheap/");
}

#[test]
fn record_time_as_rfc3339_text() {
    assert_eq!(rec(0, "s", "c").recv_at(), "1970-01-01T00:00:00Z");
    assert_eq!(rec(1_500_000_000, "s", "c").recv_at(), "1970-01-01T00:00:01.5Z");
}
