use todo_app::settings::{Filter, SortKind};
use todo_app::task::Task;
use todo_app::task_list::{
    apply_saved_completion_at, completed_checkbox_name, completion_title, filter_task, priority_style,
    sort_task, sort_tasks, task_id_from_checkbox, visible_tasks,
};
use todo_app::time::Timestamp;

fn task(id: Option<i32>, title: Option<&str>, priority: Option<&str>) -> Task {
    let mut t = Task::new();
    t.id = id;
    if let Some(s) = title {
        t.set_title(s.to_string());
    }
    if let Some(p) = priority {
        t.set_priority(p.to_string());
    }
    t
}

fn at(seconds: i64) -> Timestamp {
    Timestamp { seconds, nanos: 0, offset_seconds: 0 }
}

fn ids(v: &[Task]) -> Vec<Option<i32>> {
    v.iter().map(|t| t.id).collect()
}

#[test]
fn priority_styles() {
    assert_eq!(priority_style(&task(None, None, Some("C"))), "critical");
    assert_eq!(priority_style(&task(None, None, Some("H"))), "high");
    assert_eq!(priority_style(&task(None, None, Some("N"))), "normal");
    assert_eq!(priority_style(&task(None, None, Some("L"))), "low");
    assert_eq!(priority_style(&task(None, None, Some("?"))), "low");
    assert_eq!(priority_style(&task(None, None, None)), "gray");
}

#[test]
fn filters() {
    let open = task(Some(1), None, None);
    let mut done = task(Some(2), None, None);
    done.set_completed_at(true, at(5));
    let mut undone = task(Some(3), None, None);
    undone.set_completed_at(false, at(5));
    assert!(filter_task(&open, &Filter::Empty));
    assert!(filter_task(&done, &Filter::Completed));
    assert!(!filter_task(&undone, &Filter::Completed));
    assert!(filter_task(&undone, &Filter::Uncompleted));
    assert!(!filter_task(&done, &Filter::Uncompleted));
    let all = vec![open, done, undone];
    assert_eq!(ids(&visible_tasks(&all, &Filter::Uncompleted)), vec![Some(1), Some(3)]);
    assert_eq!(ids(&visible_tasks(&all, &Filter::Completed)), vec![Some(2)]);
    assert_eq!(ids(&visible_tasks(&all, &Filter::Empty)), vec![Some(1), Some(2), Some(3)]);
}

#[test]
fn sorting_matches_sort_by() {
    let make = || vec![
        task(Some(3), Some("b"), Some("L")),
        task(None, Some("a"), Some("C")),
        task(Some(1), None, Some("H")),
        task(Some(2), Some("b"), None),
        task(Some(-5), Some("Ä"), Some("N")),
        task(Some(4), Some("a"), Some("L")),
    ];
    for kind in [SortKind::Empty, SortKind::Title, SortKind::Priority] {
        let mut expected = make();
        expected.sort_by(|a, b| sort_task(a, b, &kind));
        let got = sort_tasks(make(), kind);
        assert_eq!(ids(&got), ids(&expected));
    }
    let by_title = sort_tasks(make(), SortKind::Title);
    assert_eq!(ids(&by_title), vec![Some(1), None, Some(4), Some(3), Some(2), Some(-5)]);
    let by_priority = sort_tasks(make(), SortKind::Priority);
    assert_eq!(ids(&by_priority), vec![Some(2), Some(1), None, Some(3), Some(4), Some(-5)]);
    let by_id = sort_tasks(make(), SortKind::Empty);
    assert_eq!(ids(&by_id), vec![None, Some(-5), Some(1), Some(2), Some(3), Some(4)]);
    assert!(sort_tasks(Vec::new(), SortKind::Title).is_empty());
}

#[test]
fn sort_order_values() {
    let a = task(Some(1), Some("abc"), Some("C"));
    let b = task(Some(2), Some("abd"), Some("H"));
    assert_eq!(sort_task(&a, &b, &SortKind::Empty), std::cmp::Ordering::Less);
    assert_eq!(sort_task(&a, &b, &SortKind::Title), std::cmp::Ordering::Less);
    assert_eq!(sort_task(&b, &a, &SortKind::Title), std::cmp::Ordering::Greater);
    assert_eq!(sort_task(&a, &a, &SortKind::Priority), std::cmp::Ordering::Equal);
    assert_eq!(sort_task(&a, &b, &SortKind::Priority), "Критический".cmp("Высокий"));
}

#[test]
fn checkbox_names_round_trip() {
    assert_eq!(completed_checkbox_name(12), "completed_12");
    assert_eq!(task_id_from_checkbox("completed_12"), Some(12));
    assert_eq!(task_id_from_checkbox(&completed_checkbox_name(-8)), Some(-8));
    assert_eq!(task_id_from_checkbox("completed"), None);
    assert_eq!(task_id_from_checkbox("a_b_3"), None);
}

#[test]
fn saved_completion_applies_to_same_id() {
    let mut tasks = vec![task(Some(1), Some("x"), None), task(Some(2), None, None), task(Some(1), None, None)];
    let mut saved = task(Some(1), None, None);
    saved.set_completed_at(true, at(10));
    apply_saved_completion_at(&mut tasks, &saved, at(99));
    assert_eq!(tasks[0].completed_at().unwrap().seconds, 99);
    assert_eq!(tasks[0].title.as_deref(), Some("x"));
    assert!(tasks[1].completed_at.is_none());
    assert_eq!(tasks[2].completed_at().unwrap().seconds, 99);
    saved.set_completed_at(false, at(0));
    apply_saved_completion_at(&mut tasks, &saved, at(100));
    assert!(tasks[0].completed_at().is_none());
    assert!(tasks[0].completed_at.is_some());
}

#[test]
fn completion_titles() {
    let mut t = task(Some(1), None, None);
    assert_eq!(completion_title(&t), "");
    t.set_completed_at(true, Timestamp { seconds: 1_700_000_000, nanos: 0, offset_seconds: 3 * 3600 });
    assert_eq!(completion_title(&t), "15.11.2023 01:13");
    t.set_completed_at(false, at(0));
    assert_eq!(completion_title(&t), "");
}
