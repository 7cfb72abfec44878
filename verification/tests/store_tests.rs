use diary_actor::request::{Entry, OpOutcome, SortOrder};
use diary_actor::store::MemStore;

fn seed(store: &mut MemStore, items: &[(&str, bool)]) -> Vec<Entry> {
    let mut made = Vec::new();
    for (content, pinned) in items {
        made.push(store.create_entry(String::from(*content), *pinned).unwrap());
    }
    made
}

#[test]
fn create_assigns_sequential_ids() {
    let mut store = MemStore::new();
    let a = store.create_entry(String::from("first"), false).unwrap();
    let b = store.create_entry(String::from("second"), true).unwrap();
    assert_eq!(a.id, 1);
    assert_eq!(a.content, "first");
    assert!(!a.pinned);
    assert_eq!(b.id, 2);
    assert!(b.pinned);
    assert_eq!(store.entry_count(), 2);
}

#[test]
fn read_entry_found_and_missing() {
    let mut store = MemStore::new();
    seed(&mut store, &[("note", true)]);
    let found = store.read_entry(1).unwrap();
    assert_eq!(found.content, "note");
    assert!(found.pinned);
    let missing = store.read_entry(7);
    assert_eq!(missing.unwrap_err(), "entry not found");
}

#[test]
fn update_entry_patches_only_given_fields() {
    let mut store = MemStore::new();
    seed(&mut store, &[("old", false)]);
    let after_content = store.update_entry(1, Some(String::from("new")), None).unwrap();
    assert_eq!(after_content.content, "new");
    assert!(!after_content.pinned);
    let after_pin = store.update_entry(1, None, Some(true)).unwrap();
    assert_eq!(after_pin.content, "new");
    assert!(after_pin.pinned);
}

#[test]
fn update_missing_entry_fails() {
    let mut store = MemStore::new();
    let r = store.update_entry(3, Some(String::from("x")), Some(true));
    assert_eq!(r.unwrap_err(), "entry not found");
    assert_eq!(store.entry_count(), 0);
}

#[test]
fn delete_entry_removes_and_second_delete_fails() {
    let mut store = MemStore::new();
    seed(&mut store, &[("gone", false)]);
    assert!(store.delete_entry(1).is_ok());
    assert_eq!(store.read_entry(1).unwrap_err(), "entry not found");
    assert_eq!(store.delete_entry(1).unwrap_err(), "entry not found");
}

#[test]
fn ids_are_not_reused_after_delete() {
    let mut store = MemStore::new();
    seed(&mut store, &[("a", false)]);
    store.delete_entry(1).unwrap();
    let b = store.create_entry(String::from("b"), false).unwrap();
    assert_eq!(b.id, 2);
}

#[test]
fn read_page_default_window_is_first_ten() {
    let mut store = MemStore::new();
    for i in 0..12 {
        store.create_entry(format!("note {}", i), false).unwrap();
    }
    let page = store.read_page(None, None, None, None, None).unwrap();
    assert_eq!(page.total, 12);
    assert_eq!(page.entries.len(), 10);
    assert_eq!(page.entries[0].id, 1);
    assert_eq!(page.entries[9].id, 10);
}

#[test]
fn read_page_second_page_holds_the_rest() {
    let mut store = MemStore::new();
    for i in 0..12 {
        store.create_entry(format!("note {}", i), false).unwrap();
    }
    let page = store.read_page(Some(2), None, None, None, None).unwrap();
    assert_eq!(page.total, 12);
    assert_eq!(page.entries.len(), 2);
    assert_eq!(page.entries[0].id, 11);
    assert_eq!(page.entries[1].id, 12);
}

#[test]
fn read_page_descending_reverses_order() {
    let mut store = MemStore::new();
    seed(&mut store, &[("a", false), ("b", false), ("c", false)]);
    let page = store
        .read_page(None, None, Some(SortOrder::Desc), None, None)
        .unwrap();
    assert_eq!(page.entries.len(), 3);
    assert_eq!(page.entries[0].id, 3);
    assert_eq!(page.entries[2].id, 1);
}

#[test]
fn read_page_pinned_filter() {
    let mut store = MemStore::new();
    seed(&mut store, &[("a", true), ("b", false), ("c", true)]);
    let page = store.read_page(None, None, None, Some(true), None).unwrap();
    assert_eq!(page.total, 2);
    assert_eq!(page.entries.len(), 2);
    assert!(page.entries.iter().all(|e| e.pinned));
}

#[test]
fn read_page_substring_filter() {
    let mut store = MemStore::new();
    seed(&mut store, &[("alpha", false), ("beta", false), ("scalp", false)]);
    let page = store
        .read_page(None, None, None, None, Some(String::from("alp")))
        .unwrap();
    assert_eq!(page.total, 2);
    assert_eq!(page.entries[0].content, "alpha");
    assert_eq!(page.entries[1].content, "scalp");

    let none = store
        .read_page(None, None, None, None, Some(String::from("zz")))
        .unwrap();
    assert_eq!(none.total, 0);
    assert!(none.entries.is_empty());

    let all = store
        .read_page(None, None, None, None, Some(String::from("")))
        .unwrap();
    assert_eq!(all.total, 3);
}

#[test]
fn read_page_past_the_end_is_empty() {
    let mut store = MemStore::new();
    seed(&mut store, &[("only", false)]);
    let page = store.read_page(Some(99), None, None, None, None).unwrap();
    assert_eq!(page.total, 1);
    assert!(page.entries.is_empty());
}

#[test]
fn read_page_sanitizes_bad_page_numbers() {
    let mut store = MemStore::new();
    for i in 0..3 {
        store.create_entry(format!("n{}", i), false).unwrap();
    }
    let zero_page = store.read_page(Some(0), Some(2), None, None, None).unwrap();
    assert_eq!(zero_page.entries.len(), 2);
    assert_eq!(zero_page.entries[0].id, 1);
    let neg_per = store.read_page(Some(1), Some(-4), None, None, None).unwrap();
    assert_eq!(neg_per.entries.len(), 3);
}

#[test]
fn dump_entries_succeeds_on_open_store() {
    let mut store = MemStore::new();
    seed(&mut store, &[("kept", false)]);
    assert!(store.dump_entries().is_ok());
    assert_eq!(store.entry_count(), 1);
}

#[test]
fn close_marks_the_store_closed() {
    let mut store = MemStore::new();
    assert!(!store.is_closed());
    store.close();
    assert!(store.is_closed());
}

#[test]
fn outcome_variants_carry_their_payload() {
    let mut store = MemStore::new();
    let e = store.create_entry(String::from("x"), false).unwrap();
    let out = OpOutcome::Entry(e);
    assert!(matches!(out, OpOutcome::Entry(ref e) if e.content == "x"));
}
