use todo_app::proxy::{
    build_hostnames, cors_preflight_headers, redirect_response, HostConfig, ProxyApp, RequestAction,
};
use todo_app::proxy_env::{collect_proxy_settings, cors_flag};

fn site(names: &[&str], path: Option<&str>, addr: Option<&str>, statics: bool, cors: bool) -> HostConfig {
    HostConfig {
        upstream_addr: addr.map(|a| a.to_string()),
        hostnames: names.iter().map(|n| n.to_string()).collect(),
        path: path.map(|p| p.to_string()),
        serves_static_files: statics,
        cors_allow_all: cors,
    }
}

fn app() -> ProxyApp {
    ProxyApp::new(vec![
        site(&["a.com"], Some("/api"), Some("127.0.0.1:3000"), false, true),
        site(&["a.com", "www.a.com"], None, None, true, false),
        site(&["b.com"], None, None, false, false),
    ])
}

#[test]
fn host_config_is_first_match() {
    let p = app();
    assert_eq!(p.get_host_config(Some("a.com"), "/api/v1/tasks"), Some(0));
    assert_eq!(p.get_host_config(Some("a.com"), "/index.html"), Some(1));
    assert_eq!(p.get_host_config(Some("www.a.com"), "/api"), Some(1));
    assert_eq!(p.get_host_config(Some("c.com"), "/"), None);
    assert_eq!(p.get_host_config(None, "/api"), None);
}

#[test]
fn upstream_decisions() {
    let p = app();
    assert!(p.proxy_upstream_filter(Some("a.com"), "/api/x", false));
    assert!(!p.proxy_upstream_filter(Some("a.com"), "/api/x", true));
    assert!(!p.proxy_upstream_filter(Some("b.com"), "/", false));
    assert_eq!(p.upstream_peer(Some("a.com"), "/api/x").ok().unwrap(), "127.0.0.1:3000");
    let e = p.upstream_peer(Some("b.com"), "/").err().unwrap();
    assert_eq!((e.status, e.message.as_str()), (400, "Wrong Host"));
    assert!(p.upstream_peer(None, "/api").is_err());
}

#[test]
fn request_actions() {
    let p = app();
    assert_eq!(p.request_filter(Some("a.com"), "/api/x", true), RequestAction::AnswerPreflight);
    assert_eq!(p.request_filter(Some("a.com"), "/api/x", false), RequestAction::Forward);
    assert_eq!(p.request_filter(Some("www.a.com"), "/", false), RequestAction::ServeStatic(1));
    assert_eq!(p.request_filter(Some("b.com"), "/", true), RequestAction::Forward);
    assert_eq!(p.request_filter(None, "/", true), RequestAction::Forward);
    let h = cors_preflight_headers();
    assert_eq!(h.len(), 5);
    assert_eq!(h[2], ("access-control-max-age".to_string(), "1728000".to_string()));
    assert_eq!(h[3].1, "GET,POST,PATCH,DELETE");
}

#[test]
fn redirects() {
    let r = redirect_response(Some("a.com"));
    assert_eq!(r.status, 301);
    assert_eq!(r.body, b"<html><body>301 Moved Permanently</body></html>".to_vec());
    assert_eq!(r.headers[1], ("content-length".to_string(), r.body.len().to_string()));
    assert_eq!(r.headers[2], ("location".to_string(), "https://a.com".to_string()));
    let n = redirect_response(None);
    assert_eq!(n.status, 400);
    assert_eq!(n.headers.len(), 2);
    assert_eq!(n.headers[1].1, "35");
}

#[test]
fn hostnames_for_ports() {
    assert_eq!(build_hostnames(" a.com, b.com ", "443"), vec!["a.com", "b.com"]);
    assert_eq!(build_hostnames("a.com,b.com", "8443"), vec!["a.com:8443", "b.com:8443"]);
    assert_eq!(build_hostnames("", "80"), vec![""]);
    assert_eq!(build_hostnames("x,", "81"), vec!["x:81", ":81"]);
}

fn vars(list: &[(&str, &str)]) -> Vec<(String, String)> {
    list.iter().map(|(a, b)| (a.to_string(), b.to_string())).collect()
}

#[test]
fn settings_from_environment() {
    let env = vars(&[
        ("APP_HOST_NAME_2", "two.com"),
        ("APP_ADDR_2", "10.0.0.2:80"),
        ("APP_PATH_2", "/api"),
        ("APP_HOST_NAME_1", "one.com, www.one.com"),
        ("APP_ADDR_1", "10.0.0.1:80"),
        ("APP_PATH_1", "/"),
        ("STATIC_HOST_NAME_A", "static.com"),
        ("STATIC_ROOT_A", "/srv/www"),
        ("OTHER", "x"),
    ]);
    let ps = collect_proxy_settings(&env, "8443", true).unwrap();
    assert_eq!(ps.http_configs.len(), 2);
    assert_eq!(ps.ssl_configs.len(), 3);
    assert_eq!(ps.ssl_configs[0].hostnames, vec!["one.com:8443", "www.one.com:8443"]);
    assert_eq!(ps.ssl_configs[0].upstream_addr.as_deref(), Some("10.0.0.1:80"));
    assert_eq!(ps.ssl_configs[1].path.as_deref(), Some("/api"));
    assert!(ps.ssl_configs[1].cors_allow_all);
    assert!(ps.ssl_configs[2].serves_static_files);
    assert!(!ps.ssl_configs[2].cors_allow_all);
    assert_eq!(ps.static_roots, vec!["/srv/www"]);
    assert_eq!(ps.http_configs[1].hostnames, vec!["two.com:8443"]);
}

#[test]
fn incomplete_environment_is_refused() {
    assert!(collect_proxy_settings(&vars(&[("APP_HOST_NAME_1", "a"), ("APP_PATH_1", "/")]), "443", false).is_none());
    assert!(collect_proxy_settings(&vars(&[("STATIC_HOST_NAME_1", "a")]), "443", false).is_none());
    let empty = collect_proxy_settings(&vars(&[]), "443", false).unwrap();
    assert!(empty.ssl_configs.is_empty() && empty.http_configs.is_empty());
}

#[test]
fn later_variables_win_and_indexes_sort_as_text() {
    let env = vars(&[
        ("APP_HOST_NAME_10", "ten"), ("APP_ADDR_10", "a10"), ("APP_PATH_10", "/"),
        ("APP_HOST_NAME_9", "nine"), ("APP_ADDR_9", "a9"), ("APP_PATH_9", "/"),
        ("APP_ADDR_9", "a9b"),
    ]);
    let ps = collect_proxy_settings(&env, "443", false).unwrap();
    assert_eq!(ps.http_configs[0].hostnames, vec!["ten"]);
    assert_eq!(ps.http_configs[1].upstream_addr.as_deref(), Some("a9b"));
}

#[test]
fn cors_flag_values() {
    assert!(cors_flag("true"));
    assert!(!cors_flag("false"));
    assert!(!cors_flag("TRUE"));
}
