use quest_store::date::Date;
use quest_store::model::{QueryOption, Quest, UpdateQuestSchema};
use quest_store::store::{QuestStore, StoreError};

fn deadline() -> Date {
    Date::from_ymd(2024, 6, 3).unwrap()
}

fn create(store: &mut QuestStore, title: &str, now: i64) -> Quest {
    store
        .create(title.to_string(), format!("notes on {}", title), Some(deadline()), now)
        .unwrap()
}

fn no_change() -> UpdateQuestSchema {
    UpdateQuestSchema { title: None, content: None, deadline: None, completed: None }
}

#[test]
fn create_assigns_defaults() {
    let mut store = QuestStore::new();
    let q = create(&mut store, "alpha", 100);
    assert_eq!(q.title, "alpha");
    assert_eq!(q.content, "notes on alpha");
    assert_eq!(q.deadline, deadline());
    assert!(!q.completed);
    assert_eq!(q.created_at, 100);
    assert_eq!(q.updated_at, 100);
    assert_eq!(q.id.len(), 36);
    assert_eq!(store.len(), 1);
}

#[test]
fn duplicate_title_is_a_conflict() {
    let mut store = QuestStore::new();
    create(&mut store, "alpha", 100);
    let r = store.create("alpha".to_string(), "other".to_string(), Some(deadline()), 101);
    assert_eq!(r.unwrap_err(), StoreError::DuplicateTitle);
    assert_eq!(store.len(), 1);
}

#[test]
fn missing_deadline_is_a_conflict() {
    let mut store = QuestStore::new();
    let r = store.create("alpha".to_string(), "notes".to_string(), None, 100);
    assert_eq!(r.unwrap_err(), StoreError::MissingDeadline);
    assert_eq!(store.len(), 0);
}

#[test]
fn title_check_runs_before_deadline_check() {
    let mut store = QuestStore::new();
    create(&mut store, "alpha", 100);
    let r = store.create("alpha".to_string(), "other".to_string(), None, 101);
    assert_eq!(r.unwrap_err(), StoreError::DuplicateTitle);
}

#[test]
fn create_then_get_round_trips() {
    let mut store = QuestStore::new();
    let q = create(&mut store, "alpha", 100);
    let got = store.get(&q.id).unwrap();
    assert_eq!(got.id, q.id);
    assert_eq!(got.title, q.title);
    assert_eq!(got.content, q.content);
    assert_eq!(got.deadline, q.deadline);
    assert_eq!(got.completed, q.completed);
    assert_eq!(got.created_at, q.created_at);
    assert_eq!(got.updated_at, q.updated_at);
}

#[test]
fn get_of_unknown_id_is_not_found() {
    let store = QuestStore::new();
    let r = store.get(&"no-such-id".to_string());
    assert_eq!(r.unwrap_err(), StoreError::NotFound);
}

#[test]
fn update_with_empty_title_keeps_the_stored_title() {
    let mut store = QuestStore::new();
    let q = create(&mut store, "alpha", 100);
    let payload = UpdateQuestSchema {
        title: Some(String::new()),
        content: Some("rewritten".to_string()),
        deadline: None,
        completed: None,
    };
    let merged = store.update(&q.id, &payload, 200).unwrap();
    assert_eq!(merged.title, "alpha");
    assert_eq!(merged.content, "rewritten");
    let got = store.get(&q.id).unwrap();
    assert_eq!(got.title, "alpha");
}

#[test]
fn update_with_empty_content_keeps_the_stored_content() {
    let mut store = QuestStore::new();
    let q = create(&mut store, "alpha", 100);
    let payload = UpdateQuestSchema {
        title: None,
        content: Some(String::new()),
        deadline: None,
        completed: None,
    };
    let merged = store.update(&q.id, &payload, 200).unwrap();
    assert_eq!(merged.content, "notes on alpha");
}

#[test]
fn update_completed_is_a_presence_check() {
    let mut store = QuestStore::new();
    let q = create(&mut store, "alpha", 100);
    let set_true = UpdateQuestSchema { completed: Some(true), ..no_change() };
    assert!(store.update(&q.id, &set_true, 200).unwrap().completed);
    // An explicit `false` on a completed record must clear it.
    let set_false = UpdateQuestSchema { completed: Some(false), ..no_change() };
    assert!(!store.update(&q.id, &set_false, 300).unwrap().completed);
    // An absent flag leaves the stored value alone.
    assert!(!store.update(&q.id, &no_change(), 400).unwrap().completed);
}

#[test]
fn update_refreshes_updated_at_only() {
    let mut store = QuestStore::new();
    let q = create(&mut store, "alpha", 100);
    let merged = store.update(&q.id, &no_change(), 500).unwrap();
    assert_eq!(merged.id, q.id);
    assert_eq!(merged.created_at, 100);
    assert_eq!(merged.updated_at, 500);
    assert_eq!(merged.title, q.title);
    assert_eq!(merged.content, q.content);
    assert_eq!(merged.deadline, q.deadline);
}

#[test]
fn update_replaces_supplied_fields() {
    let mut store = QuestStore::new();
    let q = create(&mut store, "alpha", 100);
    let later = Date::from_ymd(2025, 1, 15).unwrap();
    let payload = UpdateQuestSchema {
        title: Some("beta".to_string()),
        content: Some("fresh notes".to_string()),
        deadline: Some(later),
        completed: Some(true),
    };
    let merged = store.update(&q.id, &payload, 600).unwrap();
    assert_eq!(merged.title, "beta");
    assert_eq!(merged.content, "fresh notes");
    assert_eq!(merged.deadline, later);
    assert!(merged.completed);
    assert_eq!(merged.id, q.id);
}

#[test]
fn update_of_unknown_id_is_not_found() {
    let mut store = QuestStore::new();
    create(&mut store, "alpha", 100);
    let r = store.update(&"no-such-id".to_string(), &no_change(), 200);
    assert_eq!(r.unwrap_err(), StoreError::NotFound);
    assert_eq!(store.len(), 1);
}

#[test]
fn pagination_returns_the_selected_page() {
    let mut store = QuestStore::new();
    for i in 1..=25 {
        create(&mut store, &format!("quest {:02}", i), i as i64);
    }
    // Page 3 of 10 holds records 21 through 25.
    let page3 = store.list(&QueryOption { page: Some(3), limit: Some(10) });
    assert_eq!(page3.len(), 5);
    assert_eq!(page3[0].title, "quest 21");
    assert_eq!(page3[4].title, "quest 25");
    // A page past the end is empty, not an error.
    let page10 = store.list(&QueryOption { page: Some(10), limit: Some(10) });
    assert!(page10.is_empty());
}

#[test]
fn pagination_defaults_to_the_first_ten() {
    let mut store = QuestStore::new();
    for i in 1..=25 {
        create(&mut store, &format!("quest {:02}", i), i as i64);
    }
    let first = store.list(&QueryOption { page: None, limit: None });
    assert_eq!(first.len(), 10);
    assert_eq!(first[0].title, "quest 01");
    assert_eq!(first[9].title, "quest 10");
    // The page size carries into later pages.
    let second = store.list(&QueryOption { page: Some(2), limit: None });
    assert_eq!(second.len(), 10);
    assert_eq!(second[0].title, "quest 11");
}

#[test]
fn list_keeps_insertion_order() {
    let mut store = QuestStore::new();
    create(&mut store, "first", 1);
    create(&mut store, "second", 2);
    create(&mut store, "third", 3);
    let all = store.list(&QueryOption { page: Some(1), limit: Some(100) });
    assert_eq!(all.len(), 3);
    assert_eq!(all[0].title, "first");
    assert_eq!(all[1].title, "second");
    assert_eq!(all[2].title, "third");
}

#[test]
fn delete_then_get_is_not_found() {
    let mut store = QuestStore::new();
    let q = create(&mut store, "alpha", 100);
    let keep = create(&mut store, "beta", 101);
    assert!(store.delete(&q.id).is_ok());
    assert_eq!(store.get(&q.id).unwrap_err(), StoreError::NotFound);
    // A second delete of the same identifier also signals not-found.
    assert_eq!(store.delete(&q.id).unwrap_err(), StoreError::NotFound);
    // The other record is untouched.
    assert_eq!(store.len(), 1);
    assert_eq!(store.get(&keep.id).unwrap().title, "beta");
}

#[test]
fn delete_of_unknown_id_is_not_found() {
    let mut store = QuestStore::new();
    let r = store.delete(&"no-such-id".to_string());
    assert_eq!(r.unwrap_err(), StoreError::NotFound);
}

#[test]
fn freed_title_can_be_created_again() {
    let mut store = QuestStore::new();
    let q = create(&mut store, "alpha", 100);
    store.delete(&q.id).unwrap();
    let again = create(&mut store, "alpha", 200);
    assert_ne!(again.id, q.id);
}

#[test]
fn update_never_moves_updated_at_before_creation() {
    // A clock reading earlier than the record's creation never lowers
    // updatedAt below createdAt.
    let mut store = QuestStore::new();
    let q = create(&mut store, "alpha", 100);
    let merged = store.update(&q.id, &no_change(), 50).unwrap();
    assert_eq!(merged.created_at, 100);
    assert_eq!(merged.updated_at, 100);
}

#[test]
fn list_with_zero_limit_is_empty() {
    let mut store = QuestStore::new();
    create(&mut store, "alpha", 100);
    let page = store.list(&QueryOption { page: Some(1), limit: Some(0) });
    assert!(page.is_empty());
}
