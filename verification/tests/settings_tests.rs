use todo_app::home::{filter_options, sort_options};
use todo_app::settings::{Filter, Settings, SortKind};
use todo_app::user::User;

#[test]
fn filter_values_and_labels() {
    assert_eq!(Filter::Empty.value(), "");
    assert_eq!(Filter::Completed.value(), "completed");
    assert_eq!(Filter::Uncompleted.value(), "uncompleted");
    assert_eq!(Filter::Empty.label(), "Не выбран");
    assert_eq!(Filter::Completed.label(), "Завершенные");
    assert_eq!(Filter::Uncompleted.label(), "Незавершенные");
    assert_eq!(Filter::from("completed"), Filter::Completed);
    assert_eq!(Filter::from("uncompleted"), Filter::Uncompleted);
    assert_eq!(Filter::from("other"), Filter::Empty);
    for f in [Filter::Empty, Filter::Completed, Filter::Uncompleted] {
        assert_eq!(Filter::from_value(&f.value()), f);
    }
}

#[test]
fn sort_values_and_labels() {
    assert_eq!(SortKind::Title.value(), "title");
    assert_eq!(SortKind::Priority.value(), "priority");
    assert_eq!(SortKind::Empty.value(), "");
    assert_eq!(SortKind::Title.label(), "Название");
    assert_eq!(SortKind::Priority.label(), "Приоритет");
    assert_eq!(SortKind::Empty.label(), "Не выбран");
    assert_eq!(SortKind::from("priority"), SortKind::Priority);
    assert_eq!(SortKind::from(""), SortKind::Empty);
    for k in [SortKind::Empty, SortKind::Title, SortKind::Priority] {
        assert_eq!(SortKind::from_value(&k.value()), k);
    }
}

#[test]
fn home_page_options() {
    let f = filter_options();
    assert_eq!(f, vec![
        ("completed".to_string(), "Завершенные".to_string()),
        ("uncompleted".to_string(), "Незавершенные".to_string()),
    ]);
    let s = sort_options();
    assert_eq!(s, vec![
        ("title".to_string(), "Название".to_string()),
        ("priority".to_string(), "Приоритет".to_string()),
    ]);
}

#[test]
fn user_validity_counts_bytes() {
    let mut u = User::new();
    u.set_username("ab".to_string());
    u.set_password("1234".to_string());
    assert!(!u.is_valid());
    u.set_username("abc".to_string());
    assert!(u.is_valid());
    u.set_password("123".to_string());
    assert!(!u.is_valid());
    u.set_username("яя".to_string());
    u.set_password("ыы".to_string());
    assert!(u.is_valid());
    let mut no_password = User::new();
    no_password.set_username("abcdef".to_string());
    assert!(!no_password.is_valid());
    assert_eq!(u.text(), "яя");
}

#[test]
fn settings_token_and_login_state() {
    let mut s = Settings::new();
    assert_eq!(s.token(), None);
    assert!(!s.is_logged_in());
    let mut u = User::new();
    u.set_username("ann".to_string());
    s.user = Some(u.copy());
    assert_eq!(s.token(), None);
    assert!(!s.is_logged_in());
    u.token = Some("t0k".to_string());
    s.user = Some(u);
    assert_eq!(s.token().as_deref(), Some("t0k"));
    assert!(s.is_logged_in());
}
