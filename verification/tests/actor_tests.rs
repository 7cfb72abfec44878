use diary_actor::actor::{run_queue, Action, ActorCore, Event};
use diary_actor::request::{DBRequest, OpOutcome};
use diary_actor::response::settle_reply;
use diary_actor::request::Entry;
use diary_actor::store::MemStore;

fn create(content: &str, pinned: bool) -> DBRequest {
    DBRequest::CreateEntry { content: String::from(content), pinned }
}

#[test]
fn create_update_read_applies_in_send_order() {
    let mut store = MemStore::new();
    let queue = vec![
        create("hello", false),
        DBRequest::UpdateEntry { id: 1, content: Some(String::from("world")), pinned: None },
        DBRequest::ReadEntry { id: 1 },
    ];
    let replies = run_queue(&mut store, queue);
    assert_eq!(replies.len(), 3);
    assert!(matches!(replies[0], OpOutcome::Entry(ref e) if e.content == "hello" && e.id == 1));
    assert!(matches!(replies[1], OpOutcome::Entry(ref e) if e.content == "world"));
    assert!(matches!(replies[2], OpOutcome::Entry(ref e) if e.content == "world" && e.id == 1));
}

#[test]
fn two_updates_to_one_id_apply_in_send_order() {
    let mut store = MemStore::new();
    let queue = vec![
        create("start", false),
        DBRequest::UpdateEntry { id: 1, content: Some(String::from("first")), pinned: None },
        DBRequest::UpdateEntry { id: 1, content: Some(String::from("second")), pinned: None },
        DBRequest::ReadEntry { id: 1 },
    ];
    let replies = run_queue(&mut store, queue);
    assert_eq!(replies.len(), 4);
    assert!(matches!(replies[3], OpOutcome::Entry(ref e) if e.content == "second"));
}

#[test]
fn shutdown_then_read_yields_no_response_error() {
    let mut store = MemStore::new();
    let queue = vec![DBRequest::Shutdown, DBRequest::ReadEntry { id: 1 }];
    let replies = run_queue(&mut store, queue);
    assert!(replies.is_empty());
    assert!(store.is_closed());

    // The caller of the unanswered envelope settles an absent reply.
    let response = settle_reply::<Entry>(None);
    assert!(response.data.is_none());
    let msg = response.error.unwrap();
    assert_eq!(msg, "Failed to receive response");
    assert_ne!(msg, "entry not found");
}

#[test]
fn every_accepted_envelope_gets_exactly_one_reply() {
    let mut store = MemStore::new();
    let queue = vec![
        DBRequest::ReadEntry { id: 42 },  // fails, still answered
        create("kept", true),
        DBRequest::DumpEntries,
        DBRequest::Shutdown,
        create("never processed", false),
    ];
    let replies = run_queue(&mut store, queue);
    assert_eq!(replies.len(), 3);
    assert!(matches!(replies[0], OpOutcome::Failure(ref m) if m == "entry not found"));
    assert!(matches!(replies[1], OpOutcome::Entry(_)));
    assert!(matches!(replies[2], OpOutcome::Done));
}

#[test]
fn envelopes_behind_shutdown_are_never_processed() {
    let mut store = MemStore::new();
    let queue = vec![create("a", false), DBRequest::Shutdown, create("b", false)];
    let replies = run_queue(&mut store, queue);
    assert_eq!(replies.len(), 1);
    assert!(store.is_closed());
    assert_eq!(store.entry_count(), 1);
}

#[test]
fn delete_through_the_queue() {
    let mut store = MemStore::new();
    let queue = vec![
        create("a", false),
        DBRequest::DeleteEntry { id: 1 },
        DBRequest::ReadEntry { id: 1 },
    ];
    let replies = run_queue(&mut store, queue);
    assert!(matches!(replies[1], OpOutcome::Done));
    assert!(matches!(replies[2], OpOutcome::Failure(ref m) if m == "entry not found"));
}

#[test]
fn page_through_the_queue() {
    let mut store = MemStore::new();
    let queue = vec![
        create("pin me", true),
        create("skip me", false),
        DBRequest::ReadEntries {
            page: None,
            per_page: None,
            sort: None,
            pinned: Some(true),
            substring: None,
        },
    ];
    let replies = run_queue(&mut store, queue);
    assert!(matches!(replies[2], OpOutcome::Page(ref p) if p.total == 1 && p.entries[0].pinned));
}

#[test]
fn explicit_shutdown_envelope_closes_and_stops() {
    let mut core = ActorCore::new();
    let first = core.handle_event(Event::Inbound(DBRequest::Shutdown));
    assert!(matches!(first, Some(Action::CloseAndStop)));
    assert!(!core.running());
    let after = core.handle_event(Event::Inbound(DBRequest::ReadEntry { id: 1 }));
    assert!(after.is_none());
}

#[test]
fn oob_signal_closes_and_stops() {
    let mut core = ActorCore::new();
    let first = core.handle_event(Event::OobShutdown);
    assert!(matches!(first, Some(Action::CloseAndStop)));
    assert!(!core.running());
    let after = core.handle_event(Event::OobShutdown);
    assert!(after.is_none());
}

#[test]
fn inbound_closed_stops_without_closing_the_store() {
    let mut core = ActorCore::new();
    let first = core.handle_event(Event::InboundClosed);
    assert!(matches!(first, Some(Action::StopOnly)));
    assert!(!core.running());
}

#[test]
fn racing_triggers_close_exactly_once_in_either_order() {
    for flip in [false, true] {
        let mut core = ActorCore::new();
        let (first, second) = if flip {
            (Event::OobShutdown, Event::Inbound(DBRequest::Shutdown))
        } else {
            (Event::Inbound(DBRequest::Shutdown), Event::OobShutdown)
        };
        let mut closes = 0;
        for ev in [first, second] {
            if let Some(Action::CloseAndStop) = core.handle_event(ev) {
                closes += 1;
            }
        }
        assert_eq!(closes, 1);
    }
}

#[test]
fn ordinary_envelope_is_performed_not_dropped() {
    let mut core = ActorCore::new();
    let action = core.handle_event(Event::Inbound(create("x", false)));
    assert!(matches!(
        action,
        Some(Action::Perform(DBRequest::CreateEntry { ref content, pinned: false })) if content == "x"
    ));
    assert!(core.running());
}
