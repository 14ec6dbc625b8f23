use todo_app::api::{
    created_user, forget_user, host_url, logged_in_user, logged_out, prepare_request, request_headers,
    request_url, save_task_request, task_path, tasks_path, CreateUserResponse, LoginResponse,
    LogoutResponse, RequestMethod,
};
use todo_app::api_error::{get_validate_error, parse_field_errors, response_error, ApiError, FieldErrors};
use todo_app::settings::Settings;
use todo_app::task::Task;
use todo_app::user::User;

fn pairs(v: &[(String, String)]) -> Vec<(&str, &str)> {
    v.iter().map(|(a, b)| (a.as_str(), b.as_str())).collect()
}

#[test]
fn urls() {
    assert_eq!(host_url(Some("http:".to_string()), Some("example.org".to_string())), "http://example.org");
    assert_eq!(host_url(None, None), "https//localhost");
    assert_eq!(request_url("https://a.b", "tasks/3"), "https://a.b/api/v1/tasks/3");
    assert_eq!(tasks_path(), "tasks");
    assert_eq!(task_path(17), "tasks/17");
    assert_eq!(task_path(-3), "tasks/-3");
}

#[test]
fn save_request_depends_on_id() {
    let mut t = Task::new();
    let (m, p) = save_task_request(&t);
    assert_eq!(m, RequestMethod::Post);
    assert_eq!(p, "tasks");
    t.id = Some(12);
    let (m, p) = save_task_request(&t);
    assert_eq!(m, RequestMethod::Patch);
    assert_eq!(p, "tasks/12");
}

#[test]
fn headers_and_authorization() {
    assert_eq!(pairs(&request_headers(false)), vec![("Accept", "application/json")]);
    assert_eq!(pairs(&request_headers(true)), vec![
        ("Content-Type", "application/json"),
        ("Accept", "application/json"),
    ]);
    let mut settings = Settings::new();
    let open = prepare_request(&settings, request_headers(false), false).ok().unwrap();
    assert_eq!(open.len(), 1);
    match prepare_request(&settings, request_headers(false), true) {
        Err(ApiError::UnAuthorized(m)) => assert_eq!(m, "No token!"),
        _ => panic!("expected UnAuthorized"),
    }
    let mut user = User::new();
    user.token = Some("abc".to_string());
    settings.user = Some(user);
    let secured = prepare_request(&settings, request_headers(true), true).ok().unwrap();
    assert_eq!(pairs(&secured)[2], ("Authorization", "Bearer abc"));
    assert_eq!(secured.len(), 3);
}

#[test]
fn answers_to_users() {
    let u = logged_in_user(LoginResponse { id: 7, username: "ann".to_string(), token: "tk".to_string() });
    assert_eq!(u.id, Some(7));
    assert_eq!(u.username, "ann");
    assert_eq!(u.password, None);
    assert_eq!(u.token.as_deref(), Some("tk"));

    let mut sent = User::new();
    sent.set_username("bob".to_string());
    sent.set_password("secret".to_string());
    let created = created_user(&sent, CreateUserResponse { id: 3 });
    assert_eq!(created.id, Some(3));
    assert_eq!(created.username, "bob");
    assert_eq!(created.password, None);

    let mut settings = Settings::new();
    settings.user = Some(created);
    settings.locale = "ru".to_string();
    assert!(logged_out(&mut settings, LogoutResponse { success: true }));
    assert!(settings.user.is_none());
    assert_eq!(settings.locale, "ru");
    settings.user = Some(User::new());
    assert!(!logged_out(&mut settings, LogoutResponse { success: false }));
    settings.user = Some(User::new());
    forget_user(&mut settings);
    assert!(settings.user.is_none());
}

#[test]
fn field_errors_parse_one_field_per_line() {
    let e = parse_field_errors("username:too short\npassword: weak\nno separator\ntitle:a:b");
    assert_eq!(e.get("username").as_deref(), Some("too short"));
    assert_eq!(e.get("password").as_deref(), Some(" weak"));
    assert_eq!(e.get("title").as_deref(), Some("a:b"));
    assert_eq!(e.get("no separator"), None);
    let later = parse_field_errors("a:1\na:2");
    assert_eq!(later.get("a").as_deref(), Some("2"));
    assert_eq!(get_validate_error("a", &later), "2");
    assert_eq!(get_validate_error("b", &later), "");
    assert_eq!(parse_field_errors("").get(""), None);
    assert_eq!(parse_field_errors(":x").get("").as_deref(), Some("x"));
}

#[test]
fn field_errors_map() {
    let mut e = FieldErrors::new();
    e.insert("title".to_string(), "bad".to_string());
    e.insert("title".to_string(), "worse".to_string());
    assert_eq!(e.get("title").as_deref(), Some("worse"));
    assert_eq!(e.entries().len(), 2);
}

#[test]
fn errors_by_status() {
    match response_error(401, "expired".to_string()) {
        ApiError::UnAuthorized(m) => assert_eq!(m, "expired"),
        _ => panic!(),
    }
    match response_error(422, "title:empty".to_string()) {
        ApiError::Validation(m, f) => {
            assert_eq!(m, "title:empty");
            assert_eq!(f.get("title").as_deref(), Some("empty"));
        },
        _ => panic!(),
    }
    match response_error(500, "oops".to_string()) {
        ApiError::Network(m) => assert_eq!(m, "oops"),
        _ => panic!(),
    }
}

#[test]
fn error_texts() {
    assert_eq!(ApiError::UnAuthorized("x".to_string()).text(), "Пользователь не авторизован. x");
    assert_eq!(ApiError::Network("timeout".to_string()).text(), "Ошибка запроса: timeout.");
    assert_eq!(ApiError::Validation("v".to_string(), FieldErrors::new()).text(), "Неверные параметры. v");
}
