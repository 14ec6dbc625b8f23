use todo_app::server_tasks::{
    build_task, delete_task_step, new_task_model, task_response, tasks_response, update_task_model,
    update_task_step, AppError, CreateTaskParams, TaskDto, TaskModel,
};
use todo_app::time::Timestamp;

fn at(seconds: i64, offset: i32) -> Timestamp {
    Timestamp { seconds, nanos: 0, offset_seconds: offset }
}

fn row() -> TaskModel {
    TaskModel {
        id: 4,
        priority: Some("N".to_string()),
        title: "Wash".to_string(),
        description: None,
        is_default: Some(false),
        completed_at: None,
        deleted_at: None,
        user_id: Some(1),
    }
}

fn empty_dto() -> TaskDto {
    TaskDto { id: None, priority: None, title: None, description: None, is_default: None, completed_at: None, deleted_at: None }
}

#[test]
fn dto_of_row() {
    let d = build_task(row());
    assert_eq!(d.id, Some(4));
    assert_eq!(d.title.as_deref(), Some("Wash"));
    assert_eq!(d.priority.as_deref(), Some("N"));
    assert_eq!(d.is_default, Some(false));
    let list = tasks_response(vec![row(), TaskModel { id: 5, ..row() }]);
    assert_eq!(list.data.iter().map(|d| d.id).collect::<Vec<_>>(), vec![Some(4), Some(5)]);
}

#[test]
fn lookups() {
    assert_eq!(task_response(Some(row()), 4).ok().unwrap().id, Some(4));
    match task_response(None, 8) {
        Err(AppError::NotFound(m)) => assert_eq!(m, "Not found task id=8"),
        _ => panic!(),
    }
}

#[test]
fn updates() {
    let mut dto = empty_dto();
    dto.title = Some("Wash car".to_string());
    dto.completed_at = Some(at(100, 0));
    let updated = update_task_model(row(), &dto).ok().unwrap();
    assert_eq!(updated.title, "Wash car");
    assert_eq!(updated.completed_at.unwrap().seconds, 100);
    assert_eq!(updated.priority.as_deref(), Some("N"));

    let mut clear = empty_dto();
    clear.completed_at = Some(Timestamp::min_utc());
    let cleared = update_task_model(updated, &clear).ok().unwrap();
    assert!(cleared.completed_at.is_none());
}

#[test]
fn update_that_changes_nothing_is_refused() {
    match update_task_model(row(), &empty_dto()) {
        Err(AppError::IllegalArguments(m)) => assert_eq!(m, "Нечего менять!"),
        _ => panic!(),
    }
    let mut same = empty_dto();
    same.title = Some("Wash".to_string());
    same.priority = Some("N".to_string());
    same.completed_at = Some(Timestamp::min_utc());
    assert!(update_task_model(row(), &same).is_err());
    let mut done = row();
    done.completed_at = Some(at(100, 3600));
    let mut same_moment = empty_dto();
    same_moment.completed_at = Some(at(100, 0));
    let r = update_task_step(Some(done), 4, &same_moment);
    assert!(matches!(r, Err(AppError::IllegalArguments(_))));
    assert!(matches!(update_task_step(None, 4, &same_moment), Err(AppError::NotFound(_))));
}

#[test]
fn deletes_and_creates() {
    let d = delete_task_step(Some(row()), 4, at(55, 0)).ok().unwrap();
    assert_eq!(d.deleted_at.unwrap().seconds, 55);
    assert_eq!(d.title, "Wash");
    assert!(matches!(delete_task_step(None, 2, at(55, 0)), Err(AppError::NotFound(_))));
    let n = new_task_model(CreateTaskParams {
        priority: Some("C".to_string()),
        title: Some("New".to_string()),
        completed_at: None,
        description: Some("d".to_string()),
        is_default: None,
    }, 9);
    assert_eq!(n.title, "New");
    assert_eq!(n.user_id, Some(9));
}
