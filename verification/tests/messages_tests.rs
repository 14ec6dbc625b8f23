use todo_app::messages::{
    close_button_id, message_id_from_button, Message, MessageKind, MessageStore,
};
use todo_app::time::Timestamp;

fn at(seconds: i64, nanos: u32) -> Timestamp {
    Timestamp { seconds, nanos, offset_seconds: 0 }
}

fn ids(store: &MessageStore) -> Vec<usize> {
    store.messages().iter().map(|m| m.id).collect()
}

#[test]
fn first_message_gets_id_one() {
    let mut store = MessageStore::new();
    let id = store.add_message_at(Message::new_info(0, "hello".to_string()), &at(100, 0));
    assert_eq!(id, 1);
    assert_eq!(ids(&store), vec![1]);
    assert_eq!(store.messages()[0].text(), "hello");
}

#[test]
fn ids_grow_above_the_largest_kept() {
    let mut store = MessageStore::new();
    let now = at(100, 0);
    assert_eq!(store.add_message_at(Message::new_error(0, "a".to_string()), &now), 1);
    assert_eq!(store.add_message_at(Message::new_info(0, "b".to_string()), &now), 2);
    assert_eq!(store.add_message_at(Message::new_info(0, "c".to_string()), &now), 3);
    assert_eq!(ids(&store), vec![1, 2, 3]);
    assert_eq!(store.max_id(), 3);
}

#[test]
fn closed_message_stays_for_less_than_a_second() {
    let mut store = MessageStore::new();
    store.add_message_at(Message::new_info(0, "a".to_string()), &at(100, 0));
    store.add_message_at(Message::new_info(0, "b".to_string()), &at(100, 0));
    store.remove_at(1, &at(200, 0));
    assert!(store.messages()[0].hidden.is_some());
    let id = store.add_message_at(Message::new_info(0, "c".to_string()), &at(200, 999_999_999));
    assert_eq!(id, 3);
    assert_eq!(ids(&store), vec![1, 2, 3]);
}

#[test]
fn closed_message_leaves_after_one_second() {
    let mut store = MessageStore::new();
    store.add_message_at(Message::new_info(0, "a".to_string()), &at(100, 0));
    store.add_message_at(Message::new_info(0, "b".to_string()), &at(100, 0));
    store.remove_at(2, &at(200, 500));
    let id = store.add_message_at(Message::new_error(0, "c".to_string()), &at(201, 500));
    assert_eq!(id, 2);
    assert_eq!(ids(&store), vec![1, 2]);
    assert!(matches!(store.messages()[1].kind, MessageKind::Error(_)));
}

#[test]
fn remove_of_unknown_id_changes_nothing() {
    let mut store = MessageStore::new();
    store.add_message_at(Message::new_info(0, "a".to_string()), &at(100, 0));
    store.remove_at(7, &at(100, 0));
    assert!(store.messages()[0].hidden.is_none());
}

#[test]
fn banner_shows_only_open_messages() {
    let mut store = MessageStore::new();
    store.add_message_at(Message::new_info(0, "a".to_string()), &at(100, 0));
    store.add_message_at(Message::new_info(0, "b".to_string()), &at(100, 0));
    store.add_message_at(Message::new_info(0, "c".to_string()), &at(100, 0));
    store.remove_at(2, &at(100, 0));
    let open: Vec<usize> = store.open_messages().iter().map(|m| m.id).collect();
    assert_eq!(open, vec![1, 3]);
}

#[test]
fn add_with_clock_puts_new_message_last() {
    let mut store = MessageStore::new();
    store.add_error("first".to_string());
    let id = store.add_info("second".to_string());
    assert_eq!(id, 2);
    assert_eq!(store.messages().last().unwrap().text(), "second");
    store.remove(1);
    assert!(store.messages()[0].hidden.is_some());
    assert!(!store.messages()[0].is_live() || store.messages()[0].hidden.is_some());
}

#[test]
fn message_styles_and_texts() {
    assert_eq!(MessageKind::Info("x".to_string(), false).style(), "is-primary");
    assert_eq!(MessageKind::Error("x".to_string()).style(), "is-danger");
    assert_eq!(MessageKind::Empty.style(), "");
    assert_eq!(MessageKind::Empty.text(), "");
    assert_eq!(MessageKind::Error("boom".to_string()).text(), "boom");
    let m = Message::new_error(3, "e".to_string());
    assert_eq!(m.display_style(), "show-message");
    let hidden = Message { hidden: Some(at(0, 0)), ..m };
    assert_eq!(hidden.display_style(), "hide-message");
}

#[test]
fn liveness_bound_is_exactly_one_second() {
    let closed = Message { id: 1, kind: MessageKind::Empty, hidden: Some(at(10, 500_000_000)) };
    assert!(closed.is_live_at(&at(11, 499_999_999)));
    assert!(!closed.is_live_at(&at(11, 500_000_000)));
    assert!(closed.is_live_at(&at(9, 0)));
    let open = Message::new_info(1, "x".to_string());
    assert!(open.is_live_at(&at(i64::MAX, 0)));
}

#[test]
fn close_button_ids_round_trip() {
    assert_eq!(close_button_id(42), "m_42");
    assert_eq!(message_id_from_button("m_42"), Some(42));
    assert_eq!(message_id_from_button(&close_button_id(usize::MAX)), Some(usize::MAX));
    assert_eq!(message_id_from_button("m42"), None);
    assert_eq!(message_id_from_button("m_-1"), None);
    assert_eq!(message_id_from_button("m_+7"), Some(7));
    assert_eq!(message_id_from_button("m_"), None);
}
