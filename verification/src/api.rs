use vstd::prelude::*;

use crate::api_error::ApiError;
use crate::settings::{opt_user_view, settings_token, Settings};
use crate::task::{opt_text, Task};
use crate::text::{concat, i32_text, int_text};
use crate::user::{User, UserView};

verus! {

/// The HTTP method of a call to the task service.
#[derive(Clone, Copy, Debug, PartialEq, Eq, Structural)]
pub enum RequestMethod {
    Post,
    Patch,
    Get,
    Delete,
}

/// The protocol (such as `https:`) and host name of the page, or
/// `https` and `localhost` where the page does not give them, joined by `//`.
pub fn host_url(protocol: Option<String>, hostname: Option<String>) -> (url: String)
    ensures
        url@ == (match protocol {
            Some(p) => p@,
            None => "https"@,
        }) + "//"@ + (match hostname {
            Some(h) => h@,
            None => "localhost"@,
        }),
{
    let p = match protocol {
        Some(p) => p,
        None => "https".to_owned(),
    };
    let h = match hostname {
        Some(h) => h,
        None => "localhost".to_owned(),
    };
    let head = concat(p.as_str(), "//");
    concat(head.as_str(), h.as_str())
}

/// The address of a call: the host, `/api/v1/`, then the path.
pub fn request_url(host: &str, path: &str) -> (url: String)
    ensures
        url@ == host@ + "/api/v1/"@ + path@,
{
    let head = concat(host, "/api/v1/");
    concat(head.as_str(), path)
}

/// The headers every call carries: the JSON content type when there is a
/// body, then the JSON accept header.
pub fn request_headers(has_body: bool) -> (headers: Vec<(String, String)>)
    ensures
        has_body ==> headers@.len() == 2 && headers@[0].0@ == "Content-Type"@ && headers@[0].1@
            == "application/json"@ && headers@[1].0@ == "Accept"@ && headers@[1].1@
            == "application/json"@,
        !has_body ==> headers@.len() == 1 && headers@[0].0@ == "Accept"@ && headers@[0].1@
            == "application/json"@,
{
    let mut headers: Vec<(String, String)> = Vec::new();
    if has_body {
        headers.push(("Content-Type".to_owned(), "application/json".to_owned()));
    }
    headers.push(("Accept".to_owned(), "application/json".to_owned()));
    headers
}

/// Adds the bearer token of the logged in user to a secured call; a secured
/// call without a token fails as not authorized, with the message
/// `No token!`. A call that is not secured keeps its headers.
pub fn prepare_request(settings: &Settings, headers: Vec<(String, String)>, secured: bool) -> (r:
    Result<Vec<(String, String)>, ApiError>)
    ensures
        !secured ==> (r matches Ok(h) && h@ == headers@),
        secured && settings_token(opt_user_view(settings.user)) is None ==> (r matches Err(
            ApiError::UnAuthorized(m),
        ) && m@ == "No token!"@),
        secured ==> (settings_token(opt_user_view(settings.user)) matches Some(t) ==> (r matches Ok(h)
            && h@.len() == headers@.len() + 1 && h@.take(headers@.len() as int) == headers@
            && h@.last().0@ == "Authorization"@ && h@.last().1@ == "Bearer "@ + t)),
{
    let token = settings.token();
    if secured {
        match token {
            Some(token) => {
                let mut headers = headers;
                let ghost before = headers@;
                headers.push(("Authorization".to_owned(), concat("Bearer ", token.as_str())));
                assert(headers@.take(before.len() as int) == before);
                Ok(headers)
            },
            None => Err(ApiError::UnAuthorized("No token!".to_owned())),
        }
    } else {
        Ok(headers)
    }
}

/// The path of the task list.
pub fn tasks_path() -> (p: String)
    ensures
        p@ == "tasks"@,
{
    "tasks".to_owned()
}

/// The path of one task.
pub fn task_path(id: i32) -> (p: String)
    ensures
        p@ == "tasks/"@ + int_text(id as int),
{
    let n = i32_text(id);
    concat("tasks/", n.as_str())
}

/// How a task is saved: a task with an id is patched at its own path, a new
/// task is posted to the task list.
pub fn save_task_request(task: &Task) -> (r: (RequestMethod, String))
    ensures
        task@.id matches Some(id) ==> (r.0 == RequestMethod::Patch && r.1@ == "tasks/"@ + int_text(
            id as int,
        )),
        task@.id is None ==> r.0 == RequestMethod::Post && r.1@ == "tasks"@,
{
    match task.id {
        Some(id) => (RequestMethod::Patch, task_path(id)),
        None => (RequestMethod::Post, tasks_path()),
    }
}

/// The answer to a login.
#[derive(Clone, Debug)]
pub struct LoginResponse {
    pub id: u64,
    pub username: String,
    pub token: String,
}

/// The answer to the creation of a user.
#[derive(Clone, Copy, Debug)]
pub struct CreateUserResponse {
    pub id: u64,
}

/// The answer to a logout.
#[derive(Clone, Copy, Debug)]
pub struct LogoutResponse {
    pub success: bool,
}

/// The answer that lists the tasks.
#[derive(Clone, Debug)]
pub struct TasksResponse {
    pub data: Vec<Task>,
}

/// The user that a successful login gives: the id, name and token of the
/// answer, and no password.
pub fn logged_in_user(resp: LoginResponse) -> (u: User)
    ensures
        u@ == (UserView {
            id: Some(resp.id),
            username: resp.username@,
            password: None,
            token: Some(resp.token@),
        }),
{
    User { id: Some(resp.id), username: resp.username, password: None, token: Some(resp.token) }
}

/// The user that a successful creation gives: the user that was sent, with
/// the new id and without the password.
pub fn created_user(user: &User, resp: CreateUserResponse) -> (u: User)
    ensures
        u@ == (UserView { id: Some(resp.id), password: None, ..user@ }),
{
    let mut u = user.copy();
    u.id = Some(resp.id);
    u.password = None;
    u
}

/// What a successful logout does: nobody is logged in any more; the answer
/// says whether the server closed the session.
pub fn logged_out(settings: &mut Settings, resp: LogoutResponse) -> (success: bool)
    ensures
        success == resp.success,
        final(settings).user is None,
        final(settings).locale == old(settings).locale,
        final(settings).api_in_progress == old(settings).api_in_progress,
        final(settings).filter == old(settings).filter,
        final(settings).sort_kind == old(settings).sort_kind,
{
    settings.user = None;
    resp.success
}

/// What an answer that says "not authorized" does to the settings: nobody is
/// logged in any more.
pub fn forget_user(settings: &mut Settings)
    ensures
        final(settings).user is None,
        final(settings).locale == old(settings).locale,
        final(settings).api_in_progress == old(settings).api_in_progress,
        final(settings).filter == old(settings).filter,
        final(settings).sort_kind == old(settings).sort_kind,
{
    settings.user = None;
}

} // verus!
