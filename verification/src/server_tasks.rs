use vstd::prelude::*;

use crate::task::{copy_opt_text, opt_text, same_opt_instant, same_opt_text, same_opt_timestamp};
use crate::text::{concat, i32_text, int_text, same_text};
use crate::time::Timestamp;

verus! {

/// A stored task row.
#[derive(Clone, Debug)]
pub struct TaskModel {
    pub id: i32,
    pub priority: Option<String>,
    pub title: String,
    pub description: Option<String>,
    pub is_default: Option<bool>,
    pub completed_at: Option<Timestamp>,
    pub deleted_at: Option<Timestamp>,
    pub user_id: Option<i32>,
}

/// A task as the service sends and receives it.
#[derive(Clone, Debug)]
pub struct TaskDto {
    pub id: Option<i32>,
    pub priority: Option<String>,
    pub title: Option<String>,
    pub description: Option<String>,
    pub is_default: Option<bool>,
    pub completed_at: Option<Timestamp>,
    pub deleted_at: Option<Timestamp>,
}

/// The fields of a task to create.
#[derive(Clone, Debug)]
pub struct CreateTaskParams {
    pub priority: Option<String>,
    pub title: Option<String>,
    pub completed_at: Option<Timestamp>,
    pub description: Option<String>,
    pub is_default: Option<bool>,
}

/// A task row that is yet to be stored; the store gives it its id.
#[derive(Clone, Debug)]
pub struct NewTask {
    pub priority: Option<String>,
    pub title: String,
    pub description: Option<String>,
    pub user_id: Option<i32>,
    pub is_default: Option<bool>,
    pub completed_at: Option<Timestamp>,
}

/// The list of tasks that the service sends.
#[derive(Clone, Debug)]
pub struct TasksResponse {
    pub data: Vec<TaskDto>,
}

/// An error answer of the task routes.
#[derive(Clone, Debug)]
pub enum AppError {
    NotFound(String),
    IllegalArguments(String),
}

/// A stored task with its strings taken by their characters.
pub struct TaskModelView {
    pub id: i32,
    pub priority: Option<Seq<char>>,
    pub title: Seq<char>,
    pub description: Option<Seq<char>>,
    pub is_default: Option<bool>,
    pub completed_at: Option<Timestamp>,
    pub deleted_at: Option<Timestamp>,
    pub user_id: Option<i32>,
}

/// A sent task with its strings taken by their characters.
pub struct TaskDtoView {
    pub id: Option<i32>,
    pub priority: Option<Seq<char>>,
    pub title: Option<Seq<char>>,
    pub description: Option<Seq<char>>,
    pub is_default: Option<bool>,
    pub completed_at: Option<Timestamp>,
    pub deleted_at: Option<Timestamp>,
}

impl View for TaskModel {
    type V = TaskModelView;

    open spec fn view(&self) -> TaskModelView {
        TaskModelView {
            id: self.id,
            priority: opt_text(self.priority),
            title: self.title@,
            description: opt_text(self.description),
            is_default: self.is_default,
            completed_at: self.completed_at,
            deleted_at: self.deleted_at,
            user_id: self.user_id,
        }
    }
}

impl View for TaskDto {
    type V = TaskDtoView;

    open spec fn view(&self) -> TaskDtoView {
        TaskDtoView {
            id: self.id,
            priority: opt_text(self.priority),
            title: opt_text(self.title),
            description: opt_text(self.description),
            is_default: self.is_default,
            completed_at: self.completed_at,
            deleted_at: self.deleted_at,
        }
    }
}

/// The task that the service sends for a stored row.
pub open spec fn spec_build_task(t: TaskModelView) -> TaskDtoView {
    TaskDtoView {
        id: Some(t.id),
        priority: t.priority,
        title: Some(t.title),
        description: t.description,
        is_default: t.is_default,
        completed_at: t.completed_at,
        deleted_at: t.deleted_at,
    }
}

/// The task that the service sends for a stored row.
pub fn build_task(task: TaskModel) -> (dto: TaskDto)
    ensures
        dto@ == spec_build_task(task@),
        dto.id == Some(task.id),
        dto@.title == Some(task@.title),
        dto@.priority == task@.priority,
        dto@.description == task@.description,
        dto.is_default == task.is_default,
        dto.completed_at == task.completed_at,
        dto.deleted_at == task.deleted_at,
{
    TaskDto {
        id: Some(task.id),
        priority: task.priority,
        title: Some(task.title),
        description: task.description,
        is_default: task.is_default,
        completed_at: task.completed_at,
        deleted_at: task.deleted_at,
    }
}

/// The list of tasks that the service sends for stored rows, in order.
pub fn tasks_response(tasks: Vec<TaskModel>) -> (resp: TasksResponse)
    ensures
        resp.data@.len() == tasks@.len(),
        forall|i: int| 0 <= i < tasks@.len() ==> #[trigger] resp.data@[i]@ == spec_build_task(tasks@[i]@),
        forall|i: int| 0 <= i < tasks@.len() ==> (#[trigger] resp.data@[i]).completed_at
            == tasks@[i].completed_at && resp.data@[i].id == Some(tasks@[i].id),
{
    let ghost s = tasks@;
    let mut data: Vec<TaskDto> = Vec::new();
    for t in it: tasks.into_iter()
        invariant
            it.seq() == s,
            data@.len() == it.index(),
            forall|i: int| 0 <= i < data@.len() ==> #[trigger] data@[i]@ == spec_build_task(s[i]@),
            forall|i: int| 0 <= i < data@.len() ==> (#[trigger] data@[i]).completed_at
                == s[i].completed_at && data@[i].id == Some(s[i].id),
    {
        data.push(build_task(t));
    }
    TasksResponse { data }
}

/// The message of the error for a task that is not there.
pub open spec fn not_found_message(id: i32) -> Seq<char> {
    "Not found task id="@ + int_text(id as int)
}

fn not_found(id: i32) -> (e: AppError)
    ensures
        e matches AppError::NotFound(m) && m@ == not_found_message(id),
{
    let n = i32_text(id);
    AppError::NotFound(concat("Not found task id=", n.as_str()))
}

/// The answer for one task: the task when the store found it, else a
/// "not found" error.
pub fn task_response(found: Option<TaskModel>, id: i32) -> (r: Result<TaskDto, AppError>)
    ensures
        match found {
            Some(t) => r matches Ok(dto) && dto@ == spec_build_task(t@) && dto.completed_at
                == t.completed_at && dto.id == Some(t.id),
            None => r matches Err(AppError::NotFound(m)) && m@ == not_found_message(id),
        },
{
    match found {
        Some(task) => Ok(build_task(task)),
        None => Err(not_found(id)),
    }
}

/// The row to store for a new task of a user. The title was checked to be
/// present before.
pub fn new_task_model(params: CreateTaskParams, user_id: i32) -> (t: NewTask)
    requires
        params.title is Some,
    ensures
        opt_text(t.priority) == opt_text(params.priority),
        t.title@ == params.title.unwrap()@,
        opt_text(t.description) == opt_text(params.description),
        t.user_id == Some(user_id),
        t.is_default == params.is_default,
        t.completed_at == params.completed_at,
{
    NewTask {
        priority: params.priority,
        title: params.title.unwrap(),
        description: params.description,
        user_id: Some(user_id),
        is_default: params.is_default,
        completed_at: params.completed_at,
    }
}

/// The completion a sent moment asks for: the earliest representable moment
/// asks to clear it.
pub open spec fn requested_completion(c: Timestamp) -> Option<Timestamp> {
    if c.same_instant(Timestamp::spec_min_utc()) {
        None
    } else {
        Some(c)
    }
}

/// The stored row after an update: each field that the update sets to a
/// value different from the stored one takes that value.
pub open spec fn spec_updated(t: TaskModelView, dto: TaskDtoView) -> TaskModelView {
    TaskModelView {
        title: match dto.title {
            Some(title) => title,
            None => t.title,
        },
        description: match dto.description {
            Some(d) => Some(d),
            None => t.description,
        },
        priority: match dto.priority {
            Some(p) => Some(p),
            None => t.priority,
        },
        completed_at: match dto.completed_at {
            Some(c) => if same_opt_instant(requested_completion(c), t.completed_at) {
                t.completed_at
            } else {
                requested_completion(c)
            },
            None => t.completed_at,
        },
        ..t
    }
}

/// Whether an update changes anything of the stored row.
pub open spec fn spec_update_changes(t: TaskModelView, dto: TaskDtoView) -> bool {
    (dto.title matches Some(title) && title != t.title) || (dto.description matches Some(d) && Some(d)
        != t.description) || (dto.priority matches Some(p) && Some(p) != t.priority) || (
    dto.completed_at matches Some(c) && !same_opt_instant(requested_completion(c), t.completed_at))
}

/// Applies an update to a stored row. An update that changes nothing is
/// refused with "Нечего менять!".
pub fn update_task_model(task: TaskModel, dto: &TaskDto) -> (r: Result<TaskModel, AppError>)
    ensures
        spec_update_changes(task@, dto@) ==> (r matches Ok(updated) && updated@ == spec_updated(
            task@,
            dto@,
        )),
        !spec_update_changes(task@, dto@) ==> (r matches Err(AppError::IllegalArguments(m)) && m@
            == "Нечего менять!"@),
        dto@.title matches Some(x) && x != task@.title ==> r is Ok,
        dto@.description matches Some(d) && Some(d) != task@.description ==> r is Ok,
        dto@.priority matches Some(p) && Some(p) != task@.priority ==> r is Ok,
        r matches Ok(u) ==> {
            &&& u@.title == (match dto@.title {
                Some(x) => x,
                None => task@.title,
            })
            &&& u@.description == (match dto@.description {
                Some(d) => Some(d),
                None => task@.description,
            })
            &&& u@.priority == (match dto@.priority {
                Some(p) => Some(p),
                None => task@.priority,
            })
            &&& u.id == task.id && u.user_id == task.user_id && u.is_default == task.is_default
            &&& u.deleted_at == task.deleted_at
        },
{
    let mut task = task;
    let ghost t0 = task@;
    let mut changed = false;
    match &dto.title {
        Some(title) => {
            if !same_text(title.as_str(), task.title.as_str()) {
                task.title = title.clone();
                changed = true;
            }
        },
        None => {},
    }
    match &dto.description {
        Some(d) => {
            let wanted = Some(d.clone());
            if !same_opt_text(&wanted, &task.description) {
                task.description = wanted;
                changed = true;
            }
        },
        None => {},
    }
    match &dto.priority {
        Some(p) => {
            let wanted = Some(p.clone());
            if !same_opt_text(&wanted, &task.priority) {
                task.priority = wanted;
                changed = true;
            }
        },
        None => {},
    }
    match dto.completed_at {
        Some(c) => {
            let min = Timestamp::min_utc();
            let wanted = if !c.is_same_instant(&min) {
                Some(c)
            } else {
                None
            };
            if !same_opt_timestamp(&wanted, &task.completed_at) {
                task.completed_at = wanted;
                changed = true;
            }
        },
        None => {},
    }
    if !changed {
        return Err(AppError::IllegalArguments("Нечего менять!".to_owned()));
    }
    Ok(task)
}

/// The update of one task: the updated row when the store found the task,
/// else a "not found" error.
pub fn update_task_step(found: Option<TaskModel>, id: i32, dto: &TaskDto) -> (r: Result<TaskModel, AppError>)
    ensures
        match found {
            Some(t) => if spec_update_changes(t@, dto@) {
                r matches Ok(updated) && updated@ == spec_updated(t@, dto@)
            } else {
                r matches Err(AppError::IllegalArguments(m)) && m@ == "Нечего менять!"@
            },
            None => r matches Err(AppError::NotFound(m)) && m@ == not_found_message(id),
        },
{
    match found {
        Some(task) => update_task_model(task, dto),
        None => Err(not_found(id)),
    }
}

/// The deletion of one task: the row marked deleted at `now` when the store
/// found the task, else a "not found" error.
pub fn delete_task_step(found: Option<TaskModel>, id: i32, now: Timestamp) -> (r: Result<TaskModel, AppError>)
    ensures
        match found {
            Some(t) => r matches Ok(deleted) && deleted@ == (TaskModelView { deleted_at: Some(now), ..t@ }),
            None => r matches Err(AppError::NotFound(m)) && m@ == not_found_message(id),
        },
{
    match found {
        Some(task) => {
            let mut task = task;
            task.deleted_at = Some(now);
            Ok(task)
        },
        None => Err(not_found(id)),
    }
}

/// The task sent for a stored row names the row and carries each of its
/// fields: above all its completion moment, so a completed task is sent as
/// completed at the moment it was stored with.
pub proof fn lemma_sent_task_carries_row(t: TaskModelView)
    ensures
        spec_build_task(t).id == Some(t.id),
        spec_build_task(t).title == Some(t.title),
        spec_build_task(t).priority == t.priority,
        spec_build_task(t).description == t.description,
        spec_build_task(t).is_default == t.is_default,
        spec_build_task(t).completed_at == t.completed_at,
        spec_build_task(t).deleted_at == t.deleted_at,
{
}

/// An update takes each field that it sends: a sent title, description or
/// priority that differs from the stored one makes the update go through,
/// and after an update each sent field holds the sent value while each
/// field not sent, and the row's id, owner, default flag and deletion, keep
/// theirs. An update is refused only when every sent field already holds
/// the sent value.
pub proof fn lemma_update_takes_sent_fields(t: TaskModelView, dto: TaskDtoView)
    ensures
        dto.title matches Some(x) && x != t.title ==> spec_update_changes(t, dto),
        dto.description matches Some(d) && Some(d) != t.description ==> spec_update_changes(t, dto),
        dto.priority matches Some(p) && Some(p) != t.priority ==> spec_update_changes(t, dto),
        dto.title matches Some(x) ==> spec_updated(t, dto).title == x,
        dto.description matches Some(d) ==> spec_updated(t, dto).description == Some(d),
        dto.priority matches Some(p) ==> spec_updated(t, dto).priority == Some(p),
        dto.title is None ==> spec_updated(t, dto).title == t.title,
        dto.description is None ==> spec_updated(t, dto).description == t.description,
        dto.priority is None ==> spec_updated(t, dto).priority == t.priority,
        dto.completed_at is None ==> spec_updated(t, dto).completed_at == t.completed_at,
        spec_updated(t, dto).id == t.id,
        spec_updated(t, dto).user_id == t.user_id,
        spec_updated(t, dto).is_default == t.is_default,
        spec_updated(t, dto).deleted_at == t.deleted_at,
        !spec_update_changes(t, dto) ==> {
            &&& (dto.title matches Some(x) ==> x == t.title)
            &&& (dto.description matches Some(d) ==> Some(d) == t.description)
            &&& (dto.priority matches Some(p) ==> Some(p) == t.priority)
        },
{
}

} // verus!
