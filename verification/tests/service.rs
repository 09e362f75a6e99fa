use message_store::model::MessagePayload;
use message_store::service::{Error, MessageService};
use message_store::Message;

fn payload(title: &str, body: &str, url: &str) -> MessagePayload {
    MessagePayload {
        title: String::from(title),
        body: String::from(body),
        attachment_url: String::from(url),
    }
}

fn expect_ok(r: Result<Message, Error>) -> Message {
    match r {
        Ok(m) => m,
        Err(Error::NotFound { msg }) => panic!("unexpected NotFound: {msg}"),
    }
}

fn expect_not_found(r: Result<Message, Error>) {
    match r {
        Ok(m) => panic!("expected NotFound, found record {}", m.id),
        Err(Error::NotFound { msg }) => assert!(!msg.is_empty()),
    }
}

#[test]
fn fresh_ids_strictly_increase() {
    let mut s = MessageService::new();
    assert_eq!(s.last_allocated_id(), 0);
    let first = s.add_message(payload("one", "", ""), 100);
    let second = s.add_message(payload("two", "", ""), 101);
    let third = s.add_message(payload("three", "", ""), 102);
    assert_eq!(first.id, 1);
    assert_eq!(second.id, 2);
    assert_eq!(third.id, 3);
    assert_eq!(s.last_allocated_id(), 3);
}

#[test]
fn add_sets_creation_stamp_and_no_update_stamp() {
    let mut s = MessageService::new();
    let m = s.add_message(payload("t", "b", "u"), 555);
    assert_eq!(m.created_at, 555);
    assert_eq!(m.updated_at, None);
    assert_eq!(m.title, "t");
    assert_eq!(m.body, "b");
    assert_eq!(m.attachment_url, "u");
}

#[test]
fn unallocated_ids_signal_not_found() {
    let mut s = MessageService::new();
    expect_not_found(s.get_message(1));
    expect_not_found(s.update_message(1, payload("x", "", ""), 5));
    expect_not_found(s.delete_message(1));
    s.add_message(payload("t", "b", "u"), 1);
    expect_not_found(s.get_message(0));
    expect_not_found(s.get_message(2));
    expect_not_found(s.update_message(7, payload("x", "", ""), 5));
    expect_not_found(s.delete_message(7));
}

#[test]
fn get_after_add_returns_equal_record() {
    let mut s = MessageService::new();
    let m = s.add_message(payload("title", "body", "url"), 42);
    let g = expect_ok(s.get_message(m.id));
    assert_eq!(g.id, m.id);
    assert_eq!(g.title, m.title);
    assert_eq!(g.body, m.body);
    assert_eq!(g.attachment_url, m.attachment_url);
    assert_eq!(g.created_at, m.created_at);
    assert_eq!(g.updated_at, m.updated_at);
}

#[test]
fn update_overwrites_texts_and_stamps_update_time() {
    let mut s = MessageService::new();
    let m = s.add_message(payload("old title", "old body", "old url"), 10);
    let u = expect_ok(s.update_message(m.id, payload("new title", "new body", "new url"), 20));
    assert_eq!(u.id, m.id);
    assert_eq!(u.created_at, 10);
    assert_eq!(u.updated_at, Some(20));
    assert_eq!(u.title, "new title");
    assert_eq!(u.body, "new body");
    assert_eq!(u.attachment_url, "new url");
    let g = expect_ok(s.get_message(m.id));
    assert_eq!(g.title, "new title");
    assert_eq!(g.body, "new body");
    assert_eq!(g.attachment_url, "new url");
    assert_eq!(g.id, m.id);
    assert_eq!(g.created_at, 10);
    assert_eq!(g.updated_at, Some(20));
}

#[test]
fn updated_at_set_on_every_subsequent_update() {
    let mut s = MessageService::new();
    let m = s.add_message(payload("t", "", ""), 1);
    expect_ok(s.update_message(m.id, payload("t2", "", ""), 2));
    let u = expect_ok(s.update_message(m.id, payload("t3", "", ""), 3));
    assert_eq!(u.updated_at, Some(3));
}

#[test]
fn delete_returns_receipt_and_get_signals_not_found() {
    let mut s = MessageService::new();
    let m = s.add_message(payload("t", "b", "u"), 9);
    let d = expect_ok(s.delete_message(m.id));
    assert_eq!(d.id, m.id);
    assert_eq!(d.title, "t");
    expect_not_found(s.get_message(m.id));
    expect_not_found(s.delete_message(m.id));
}

#[test]
fn deleted_ids_are_never_reused() {
    let mut s = MessageService::new();
    let first = s.add_message(payload("one", "", ""), 1);
    expect_ok(s.delete_message(first.id));
    let second = s.add_message(payload("two", "", ""), 2);
    assert_eq!(second.id, 2);
    assert_eq!(s.last_allocated_id(), 2);
}

#[test]
fn overwrite_keeps_one_record_per_id() {
    let mut s = MessageService::new();
    let m = s.add_message(payload("a", "b", "c"), 1);
    expect_ok(s.update_message(m.id, payload("d", "e", "f"), 2));
    let g = expect_ok(s.get_message(m.id));
    assert_eq!(g.title, "d");
    let d = expect_ok(s.delete_message(m.id));
    assert_eq!(d.title, "d");
    expect_not_found(s.get_message(m.id));
}

#[test]
fn empty_texts_are_accepted() {
    let mut s = MessageService::new();
    let m = s.add_message(payload("", "", ""), 0);
    let g = expect_ok(s.get_message(m.id));
    assert_eq!(g.title, "");
    assert_eq!(g.body, "");
    assert_eq!(g.attachment_url, "");
}

#[test]
fn full_crud_scenario() {
    let mut s = MessageService::new();
    let created = s.add_message(payload("a", "b", "c"), 50);
    assert_eq!(created.id, 1);
    let updated = expect_ok(s.update_message(1, payload("x", "b", "c"), 60));
    assert_eq!(updated.id, 1);
    assert_eq!(updated.title, "x");
    assert!(updated.updated_at.is_some());
    let removed = expect_ok(s.delete_message(1));
    assert_eq!(removed.id, 1);
    assert_eq!(removed.title, "x");
    assert_eq!(removed.updated_at, Some(60));
    expect_not_found(s.get_message(1));
}
