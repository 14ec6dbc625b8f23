use todo_app::task::Task;
use todo_app::time::{Timestamp, MIN_UTC_SECONDS};

fn at(seconds: i64) -> Timestamp {
    Timestamp { seconds, nanos: 0, offset_seconds: 0 }
}

#[test]
fn marker_is_chrono_min_utc() {
    let min = chrono::DateTime::<chrono::FixedOffset>::MIN_UTC;
    assert_eq!(min.timestamp(), MIN_UTC_SECONDS);
    assert_eq!(min.timestamp_subsec_nanos(), 0);
    let t = Timestamp::min_utc();
    assert_eq!((t.seconds, t.nanos, t.offset_seconds), (MIN_UTC_SECONDS, 0, 0));
}

#[test]
fn priority_names() {
    assert_eq!(Task::priority_by_name("C"), "Критический");
    assert_eq!(Task::priority_by_name("H"), "Высокий");
    assert_eq!(Task::priority_by_name("N"), "Нормальный");
    assert_eq!(Task::priority_by_name("L"), "Низкий");
    assert_eq!(Task::priority_by_name("X"), "");
    let mut t = Task::new();
    assert_eq!(t.priority_name(), "");
    t.set_priority("H".to_string());
    assert_eq!(t.priority_name(), "Высокий");
    let p = Task::priorities();
    let codes: Vec<&str> = p.iter().map(|(c, _)| c.as_str()).collect();
    assert_eq!(codes, vec!["C", "H", "N", "L"]);
    assert_eq!(p[3].1, "Низкий");
}

#[test]
fn completion_marker_reads_as_not_completed() {
    let mut t = Task::new();
    assert!(t.completed_at().is_none());
    t.set_completed_at(false, at(1_700_000_000));
    assert_eq!(t.completed_at.unwrap().seconds, MIN_UTC_SECONDS);
    assert!(t.completed_at().is_none());
    t.set_completed_at(true, at(1_700_000_000));
    assert_eq!(t.completed_at().unwrap().seconds, 1_700_000_000);
}

#[test]
fn set_completed_uses_the_clock() {
    let mut t = Task::new();
    t.set_completed(true);
    let when = t.completed_at().expect("completed");
    assert!(when.seconds > 1_600_000_000);
    assert_eq!(when.offset_seconds, 0);
    t.set_completed(false);
    assert!(t.completed_at().is_none());
}

#[test]
fn patch_carries_only_changes() {
    let mut old = Task::new();
    old.id = Some(5);
    old.set_title("Buy milk".to_string());
    old.set_priority("L".to_string());
    let mut changed = Task::new();
    changed.set_from_task(&old);
    changed.set_title("Buy bread".to_string());
    changed.set_description("two loaves".to_string());
    changed.set_completed_at(true, at(1_000));
    let patch = Task::create_patch(&old, &changed);
    assert_eq!(patch.id, Some(5));
    assert_eq!(patch.title.as_deref(), Some("Buy bread"));
    assert_eq!(patch.description.as_deref(), Some("two loaves"));
    assert_eq!(patch.priority, None);
    assert_eq!(patch.completed_at.unwrap().seconds, 1_000);
}

#[test]
fn patch_of_unchanged_task_is_empty() {
    let mut t = Task::new();
    t.id = Some(9);
    t.set_title("x".to_string());
    t.set_completed_at(false, at(0));
    let patch = Task::create_patch(&t, &t);
    assert_eq!(patch.id, Some(9));
    assert!(patch.title.is_none() && patch.description.is_none() && patch.priority.is_none());
    assert!(patch.completed_at.is_none());
}

#[test]
fn patch_ignores_removed_fields_and_offsets() {
    let mut old = Task::new();
    old.set_title("x".to_string());
    old.set_completed_at(true, Timestamp { seconds: 50, nanos: 0, offset_seconds: 3600 });
    let mut changed = Task::new();
    changed.set_completed_at(true, Timestamp { seconds: 50, nanos: 0, offset_seconds: 0 });
    let patch = Task::create_patch(&old, &changed);
    assert!(patch.title.is_none());
    assert!(patch.completed_at.is_none());
}

#[test]
fn set_from_task_copies_everything() {
    let mut source = Task::new();
    source.id = Some(1);
    source.set_title("t".to_string());
    source.set_description("d".to_string());
    source.set_priority("C".to_string());
    source.set_completed_at(true, at(77));
    let mut target = Task::new();
    target.set_from_task(&source);
    assert_eq!(target.id, Some(1));
    assert_eq!(target.title.as_deref(), Some("t"));
    assert_eq!(target.description.as_deref(), Some("d"));
    assert_eq!(target.priority.as_deref(), Some("C"));
    assert_eq!(target.completed_at().unwrap().seconds, 77);
}
