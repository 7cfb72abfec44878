use diary_actor::request::Entry;
use diary_actor::response::{settle_reply, CommandResponse};

#[test]
fn success_carries_data_and_no_error() {
    let r = CommandResponse::success(5i64);
    assert_eq!(r.data, Some(5));
    assert!(r.error.is_none());
}

#[test]
fn error_carries_the_message_verbatim() {
    let r: CommandResponse<i64> = CommandResponse::error(String::from("disk on fire"));
    assert!(r.data.is_none());
    assert_eq!(r.error.unwrap(), "disk on fire");
}

#[test]
fn settle_forwards_a_successful_reply() {
    let entry = Entry { id: 9, content: String::from("hi"), pinned: true };
    let r = settle_reply(Some(Ok(entry)));
    let data = r.data.unwrap();
    assert_eq!(data.id, 9);
    assert_eq!(data.content, "hi");
    assert!(r.error.is_none());
}

#[test]
fn settle_forwards_a_store_error_verbatim() {
    let r = settle_reply::<Entry>(Some(Err(String::from("entry not found"))));
    assert!(r.data.is_none());
    assert_eq!(r.error.unwrap(), "entry not found");
}

#[test]
fn settle_turns_an_absent_reply_into_no_response() {
    let r = settle_reply::<()>(None);
    assert!(r.data.is_none());
    assert_eq!(r.error.unwrap(), "Failed to receive response");
}
