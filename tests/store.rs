use superheap::store::latest_per_subject;
use superheap::types::{Email, Timestamp};

fn rec(id: u64, t: i128, to: &str, subject: &str, content: &str) -> Email {
    Email {
        id,
        received_at: Timestamp { unix_nanos: t },
        from_address: "sender@example.com".to_string(),
        to_address: to.to_string(),
        subject: subject.to_string(),
        content: content.to_string(),
    }
}

fn ids(v: &[Email]) -> Vec<u64> {
    v.iter().map(|e| e.id).collect()
}

#[test]
fn distinct_subjects_are_all_returned_up_to_limit() {
    let rows = vec![
        rec(1, 10, "r@x", "a", "1"),
        rec(2, 20, "r@x", "b", "2"),
        rec(3, 30, "r@x", "c", "3"),
    ];
    let to = "r@x".to_string();
    assert_eq!(ids(&latest_per_subject(&rows, &to, 5)), vec![1, 2, 3]);
    assert_eq!(ids(&latest_per_subject(&rows, &to, 2)), vec![1, 2]);
    assert_eq!(ids(&latest_per_subject(&rows, &to, 0)), Vec::<u64>::new());
}

#[test]
fn later_record_of_a_subject_wins_whatever_the_store_order() {
    let to = "r@x".to_string();
    let later_first = vec![rec(1, 50, "r@x", "s", "new"), rec(2, 10, "r@x", "s", "old")];
    let r = latest_per_subject(&later_first, &to, 5);
    assert_eq!(ids(&r), vec![1]);
    assert_eq!(r[0].content, "new");
    let later_second = vec![rec(1, 10, "r@x", "s", "old"), rec(2, 50, "r@x", "s", "new")];
    let r = latest_per_subject(&later_second, &to, 5);
    assert_eq!(ids(&r), vec![2]);
    assert_eq!(r[0].content, "new");
}

#[test]
fn thread_keeps_position_of_its_latest_record_in_store_order() {
    let to = "r@x".to_string();
    let rows = vec![
        rec(1, 10, "r@x", "a", "a1"),
        rec(2, 20, "r@x", "b", "b1"),
        rec(3, 30, "r@x", "a", "a2"),
        rec(4, 40, "r@x", "c", "c1"),
    ];
    let r = latest_per_subject(&rows, &to, 10);
    assert_eq!(ids(&r), vec![2, 3, 4]);
}

#[test]
fn smaller_limit_gives_a_prefix() {
    let to = "r@x".to_string();
    let rows = vec![
        rec(1, 10, "r@x", "a", ""),
        rec(2, 20, "r@x", "b", ""),
        rec(3, 30, "r@x", "a", ""),
        rec(4, 40, "r@x", "c", ""),
        rec(5, 50, "r@x", "d", ""),
    ];
    let full = ids(&latest_per_subject(&rows, &to, 10));
    for n in 0..6 {
        let part = ids(&latest_per_subject(&rows, &to, n));
        assert_eq!(part[..], full[..part.len()]);
        assert_eq!(part.len(), n.min(full.len()));
    }
    for w in full.windows(2) {
        assert!(w[0] < w[1]);
    }
}

#[test]
fn other_recipients_are_ignored() {
    let to = "r@x".to_string();
    let rows = vec![
        rec(1, 10, "other@x", "a", ""),
        rec(2, 5, "r@x", "a", ""),
        rec(3, 99, "other@x", "a", ""),
    ];
    assert_eq!(ids(&latest_per_subject(&rows, &to, 10)), vec![2]);
}

#[test]
fn same_instant_keeps_the_later_stored_record() {
    let to = "r@x".to_string();
    let rows = vec![rec(1, 10, "r@x", "a", "first"), rec(2, 10, "r@x", "a", "second")];
    let r = latest_per_subject(&rows, &to, 10);
    assert_eq!(ids(&r), vec![2]);
}

#[test]
fn empty_store_gives_nothing() {
    let rows: Vec<Email> = Vec::new();
    assert!(latest_per_subject(&rows, &"r@x".to_string(), 5).is_empty());
}

#[test]
fn each_returned_subject_is_unique_and_freshest() {
    let to = "r@x".to_string();
    let rows = vec![
        rec(1, 30, "r@x", "a", ""),
        rec(2, 20, "r@x", "a", ""),
        rec(3, 10, "r@x", "b", ""),
        rec(4, 40, "r@x", "b", ""),
        rec(5, 15, "r@x", "a", ""),
    ];
    let r = latest_per_subject(&rows, &to, 10);
    assert_eq!(ids(&r), vec![1, 4]);
}

#[test]
fn duplicate_copies_all_fields() {
    let e = rec(9, -5, "r@x", "s", "c");
    let d = e.duplicate();
    assert_eq!(d.id, 9);
    assert_eq!(d.received_at, Timestamp { unix_nanos: -5 });
    assert_eq!(d.subject, "s");
    assert_eq!(d.content, "c");
}
