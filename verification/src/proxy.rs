use vstd::prelude::*;
use vstd::string::StrSliceExecFns;
use vstd::utf8::encode_utf8;

use crate::task::opt_text;
use crate::text::{
    chars_of, concat, decimal, remove_white_space, same_text, spec_starts_with, split_chars,
    split_on, starts_with, string_of, usize_text, without_white_space,
};

verus! {

/// What the proxy knows of one site: the address of the application behind
/// it, the host names it answers to, the path prefix it serves, whether it
/// serves static files, and whether it answers CORS preflight requests
/// itself.
#[derive(Clone, Debug)]
pub struct HostConfig {
    pub upstream_addr: Option<String>,
    pub hostnames: Vec<String>,
    pub path: Option<String>,
    pub serves_static_files: bool,
    pub cors_allow_all: bool,
}

/// Whether a site answers requests for `host` at `path`: the host is one of
/// its names, and the path begins with its path prefix when it has one.
pub open spec fn config_matches(c: HostConfig, host: Seq<char>, path: Seq<char>) -> bool {
    (exists|k: int| 0 <= k < c.hostnames@.len() && #[trigger] c.hostnames@[k]@ == host) && match c.path {
        Some(prefix) => spec_starts_with(path, prefix@),
        None => true,
    }
}

/// The position of the first site of `configs` that answers requests for
/// `host` at `path`.
pub open spec fn first_match(configs: Seq<HostConfig>, host: Seq<char>, path: Seq<char>) -> Option<int>
    decreases configs.len(),
{
    if configs.len() == 0 {
        None
    } else {
        match first_match(configs.drop_last(), host, path) {
            Some(i) => Some(i),
            None => if config_matches(configs.last(), host, path) {
                Some(configs.len() - 1)
            } else {
                None
            },
        }
    }
}

proof fn lemma_first_match(configs: Seq<HostConfig>, host: Seq<char>, path: Seq<char>, k: int)
    requires
        0 <= k <= configs.len(),
        forall|j: int| 0 <= j < k ==> !config_matches(#[trigger] configs[j], host, path),
        k < configs.len() ==> config_matches(configs[k], host, path),
    ensures
        k < configs.len() ==> first_match(configs, host, path) == Some(k),
        k == configs.len() ==> first_match(configs, host, path) is None,
    decreases configs.len(),
{
    if configs.len() > 0 {
        let p = configs.drop_last();
        if k < configs.len() - 1 {
            assert forall|j: int| 0 <= j < k implies !config_matches(#[trigger] p[j], host, path) by {
                assert(p[j] == configs[j]);
            }
            assert(p[k] == configs[k]);
            lemma_first_match(p, host, path, k);
        } else {
            assert forall|j: int| 0 <= j < p.len() implies !config_matches(#[trigger] p[j], host, path) by {
                assert(p[j] == configs[j]);
            }
            lemma_first_match(p, host, path, p.len() as int);
        }
    }
}

proof fn lemma_first_match_none(configs: Seq<HostConfig>, host: Seq<char>, path: Seq<char>)
    ensures
        first_match(configs, host, path) is None ==> forall|j: int|
            0 <= j < configs.len() ==> !config_matches(#[trigger] configs[j], host, path),
    decreases configs.len(),
{
    if configs.len() > 0 && first_match(configs, host, path) is None {
        let p = configs.drop_last();
        lemma_first_match_none(p, host, path);
        assert forall|j: int| 0 <= j < configs.len() implies !config_matches(
            #[trigger] configs[j],
            host,
            path,
        ) by {
            if j < configs.len() - 1 {
                assert(p[j] == configs[j]);
            } else {
                assert(configs[j] == configs.last());
            }
        }
    }
}

proof fn lemma_first_match_bounds(configs: Seq<HostConfig>, host: Seq<char>, path: Seq<char>)
    ensures
        first_match(configs, host, path) matches Some(i) ==> 0 <= i < configs.len() && config_matches(
            configs[i],
            host,
            path,
        ),
    decreases configs.len(),
{
    if configs.len() > 0 {
        lemma_first_match_bounds(configs.drop_last(), host, path);
    }
}

/// What the proxy does with a request before forwarding it.
#[derive(Clone, Copy, Debug, PartialEq, Eq, Structural)]
pub enum RequestAction {
    /// Serve the request from the static files of the site at this position.
    ServeStatic(usize),
    /// Answer the CORS preflight request itself.
    AnswerPreflight,
    /// Go on and forward the request.
    Forward,
}

/// An error that the proxy answers with an HTTP status.
#[derive(Clone, Debug)]
pub struct ProxyError {
    pub status: u16,
    pub message: String,
}

/// The reverse proxy: the sites it serves, in the order they are tried.
#[derive(Clone, Debug)]
pub struct ProxyApp {
    pub host_configs: Vec<HostConfig>,
}

fn has_hostname(c: &HostConfig, host: &str) -> (b: bool)
    ensures
        b == exists|k: int| 0 <= k < c.hostnames@.len() && #[trigger] c.hostnames@[k]@ == host@,
{
    let n = c.hostnames.len();
    let mut i: usize = 0;
    while i < n
        invariant
            n == c.hostnames@.len(),
            0 <= i <= n,
            forall|k: int| 0 <= k < i ==> #[trigger] c.hostnames@[k]@ != host@,
        decreases n - i,
    {
        if same_text(c.hostnames[i].as_str(), host) {
            return true;
        }
        i = i + 1;
    }
    false
}

fn config_matches_exec(c: &HostConfig, host: &str, path: &str) -> (b: bool)
    ensures
        b == config_matches(*c, host@, path@),
{
    if !has_hostname(c, host) {
        return false;
    }
    match &c.path {
        Some(prefix) => starts_with(path, prefix.as_str()),
        None => true,
    }
}

impl ProxyApp {
    pub fn new(host_configs: Vec<HostConfig>) -> (app: ProxyApp)
        ensures
            app.host_configs@ == host_configs@,
    {
        ProxyApp { host_configs }
    }

    /// The position of the site that answers a request: none without a host
    /// header, else the first site that answers the host at the path.
    pub fn get_host_config(&self, host: Option<&str>, path: &str) -> (r: Option<usize>)
        ensures
            host is None ==> r is None,
            host matches Some(h) ==> match r {
                Some(k) => first_match(self.host_configs@, h@, path@) == Some(k as int),
                None => first_match(self.host_configs@, h@, path@) is None,
            },
            r matches Some(k) ==> k < self.host_configs@.len(),
            r is None ==> match host {
                Some(h) => forall|i: int, k: int|
                    0 <= i < self.host_configs@.len() && 0 <= k < self.host_configs@[i].hostnames@.len()
                        && #[trigger] self.host_configs@[i].hostnames@[k]@ == h@ ==> !(match self.host_configs@[i].path {
                        Some(prefix) => spec_starts_with(path@, prefix@),
                        None => true,
                    }),
                None => true,
            },
    {
        proof {
            if let Some(h) = host {
                lemma_first_match_bounds(self.host_configs@, h@, path@);
                lemma_first_match_none(self.host_configs@, h@, path@);
            }
        }
        let h = match host {
            Some(h) => h,
            None => return None,
        };
        let n = self.host_configs.len();
        let mut i: usize = 0;
        while i < n
            invariant
                n == self.host_configs@.len(),
                host == Some(h),
                0 <= i <= n,
                forall|j: int| 0 <= j < i ==> !config_matches(#[trigger] self.host_configs@[j], h@, path@),
            decreases n - i,
        {
            if config_matches_exec(&self.host_configs[i], h, path) {
                proof {
                    lemma_first_match(self.host_configs@, h@, path@, i as int);
                }
                return Some(i);
            }
            i = i + 1;
        }
        proof {
            lemma_first_match(self.host_configs@, h@, path@, n as int);
        }
        None
    }

    /// Whether a request goes on to an application: a site answers it, the
    /// site has an application behind it, and the request is not a CORS
    /// preflight (`OPTIONS`).
    pub fn proxy_upstream_filter(&self, host: Option<&str>, path: &str, is_options: bool) -> (allow: bool)
        ensures
            allow == (match host {
                Some(h) => match first_match(self.host_configs@, h@, path@) {
                    Some(i) => self.host_configs@[i].upstream_addr is Some,
                    None => false,
                },
                None => false,
            } && !is_options),
    {
        proof {
            if let Some(h) = host {
                lemma_first_match_bounds(self.host_configs@, h@, path@);
            }
        }
        let found = self.get_host_config(host, path);
        let allow = match found {
            Some(i) => {
                assert(host is Some);
                let ghost h = host.unwrap();
                assert(first_match(self.host_configs@, h@, path@) == Some(i as int));
                self.host_configs[i].upstream_addr.is_some()
            },
            None => false,
        };
        allow && !is_options
    }

    /// The address of the application that a request goes to, or a
    /// `400 Wrong Host` error when no site with an application answers it.
    pub fn upstream_peer(&self, host: Option<&str>, path: &str) -> (r: Result<String, ProxyError>)
        ensures
            match r {
                Ok(addr) => host matches Some(h) && first_match(self.host_configs@, h@, path@) matches Some(i)
                    && opt_text(self.host_configs@[i].upstream_addr) == Some(addr@),
                Err(e) => e.status == 400 && e.message@ == "Wrong Host"@ && !(host matches Some(h)
                    && first_match(self.host_configs@, h@, path@) matches Some(i)
                    && self.host_configs@[i].upstream_addr is Some),
            },
    {
        proof {
            if let Some(h) = host {
                lemma_first_match_bounds(self.host_configs@, h@, path@);
            }
        }
        match self.get_host_config(host, path) {
            Some(i) => match &self.host_configs[i].upstream_addr {
                Some(addr) => {
                    return Ok(addr.clone());
                },
                None => {},
            },
            None => {},
        }
        Err(ProxyError { status: 400, message: "Wrong Host".to_owned() })
    }

    /// What the proxy does with a request first: a site with static files
    /// serves it; a site that allows all origins answers a CORS preflight
    /// itself; everything else is forwarded.
    pub fn request_filter(&self, host: Option<&str>, path: &str, is_options: bool) -> (action: RequestAction)
        ensures
            match host {
                Some(h) => match first_match(self.host_configs@, h@, path@) {
                    Some(i) => if self.host_configs@[i].serves_static_files {
                        action == RequestAction::ServeStatic(i as usize)
                    } else if self.host_configs@[i].cors_allow_all && is_options {
                        action == RequestAction::AnswerPreflight
                    } else {
                        action == RequestAction::Forward
                    },
                    None => action == RequestAction::Forward,
                },
                None => action == RequestAction::Forward,
            },
    {
        proof {
            if let Some(h) = host {
                lemma_first_match_bounds(self.host_configs@, h@, path@);
            }
        }
        match self.get_host_config(host, path) {
            Some(i) => {
                if self.host_configs[i].serves_static_files {
                    RequestAction::ServeStatic(i)
                } else if self.host_configs[i].cors_allow_all && is_options {
                    RequestAction::AnswerPreflight
                } else {
                    RequestAction::Forward
                }
            },
            None => RequestAction::Forward,
        }
    }
}

/// The headers of the proxy's own answer (status 200) to a CORS preflight.
pub fn cors_preflight_headers() -> (headers: Vec<(String, String)>)
    ensures
        headers@.len() == 5,
        headers@[0].0@ == "access-control-allow-credentials"@ && headers@[0].1@ == "true"@,
        headers@[1].0@ == "access-control-allow-origin"@ && headers@[1].1@ == "*"@,
        headers@[2].0@ == "access-control-max-age"@ && headers@[2].1@ == "1728000"@,
        headers@[3].0@ == "access-control-allow-methods"@ && headers@[3].1@ == "GET,POST,PATCH,DELETE"@,
        headers@[4].0@ == "access-control-allow-headers"@ && headers@[4].1@ == "*"@,
{
    let mut headers: Vec<(String, String)> = Vec::new();
    headers.push(("access-control-allow-credentials".to_owned(), "true".to_owned()));
    headers.push(("access-control-allow-origin".to_owned(), "*".to_owned()));
    headers.push(("access-control-max-age".to_owned(), "1728000".to_owned()));
    headers.push(("access-control-allow-methods".to_owned(), "GET,POST,PATCH,DELETE".to_owned()));
    headers.push(("access-control-allow-headers".to_owned(), "*".to_owned()));
    headers
}

/// A complete HTTP answer: status, headers in order, body.
#[derive(Clone, Debug)]
pub struct SimpleResponse {
    pub status: u16,
    pub headers: Vec<(String, String)>,
    pub body: Vec<u8>,
}

/// The answer of the plain HTTP service: with a host header, a permanent
/// redirect to the same host over HTTPS; without one, a `400` page.
pub fn redirect_response(host: Option<&str>) -> (resp: SimpleResponse)
    ensures
        host matches Some(h) ==> (resp.status == 301 && resp.body@ == encode_utf8(
            "<html><body>301 Moved Permanently</body></html>"@,
        ) && resp.headers@.len() == 3 && resp.headers@[0].0@ == "content-type"@
            && resp.headers@[0].1@ == "text/html"@ && resp.headers@[1].0@ == "content-length"@
            && resp.headers@[1].1@ == decimal(resp.body@.len()) && resp.headers@[2].0@ == "location"@
            && resp.headers@[2].1@ == "https://"@ + h@),
        host is None ==> (resp.status == 400 && resp.body@ == encode_utf8(
            "<html><body>Not found</body></html>"@,
        ) && resp.headers@.len() == 2 && resp.headers@[0].0@ == "content-type"@
            && resp.headers@[0].1@ == "text/html"@ && resp.headers@[1].0@ == "content-length"@
            && resp.headers@[1].1@ == decimal(resp.body@.len())),
{
    match host {
        Some(h) => {
            let body = "<html><body>301 Moved Permanently</body></html>".as_bytes_vec();
            let mut headers: Vec<(String, String)> = Vec::new();
            headers.push(("content-type".to_owned(), "text/html".to_owned()));
            headers.push(("content-length".to_owned(), usize_text(body.len())));
            headers.push(("location".to_owned(), concat("https://", h)));
            SimpleResponse { status: 301, headers, body }
        },
        None => {
            let body = "<html><body>Not found</body></html>".as_bytes_vec();
            let mut headers: Vec<(String, String)> = Vec::new();
            headers.push(("content-type".to_owned(), "text/html".to_owned()));
            headers.push(("content-length".to_owned(), usize_text(body.len())));
            SimpleResponse { status: 400, headers, body }
        },
    }
}

/// The host names of a comma separated list, white space removed, each with
/// `:port` added unless the port is 80 or 443.
pub open spec fn spec_hostnames(host_name: Seq<char>, port: Seq<char>) -> Seq<Seq<char>> {
    split_on(without_white_space(host_name), ',').map_values(
        |h: Seq<char>| if port == "80"@ || port == "443"@ {
            h
        } else {
            h + ":"@ + port
        },
    )
}

/// The host names of a comma separated list for a port.
pub fn build_hostnames(host_name: &str, port: &str) -> (names: Vec<String>)
    ensures
        names@.len() == spec_hostnames(host_name@, port@).len(),
        forall|i: int| 0 <= i < names@.len() ==> #[trigger] names@[i]@ == spec_hostnames(host_name@, port@)[i],
{
    let cleaned = remove_white_space(&chars_of(host_name));
    let parts = split_chars(&cleaned, ',');
    let default_port = same_text(port, "80") || same_text(port, "443");
    let mut names: Vec<String> = Vec::new();
    let n = parts.len();
    let mut i: usize = 0;
    while i < n
        invariant
            n == parts@.len(),
            n == split_on(cleaned@, ',').len(),
            forall|j: int| 0 <= j < n ==> #[trigger] parts@[j]@ == split_on(cleaned@, ',')[j],
            cleaned@ == without_white_space(host_name@),
            default_port == (port@ == "80"@ || port@ == "443"@),
            0 <= i <= n,
            names@.len() == i,
            forall|j: int| 0 <= j < i ==> #[trigger] names@[j]@ == spec_hostnames(host_name@, port@)[j],
        decreases n - i,
    {
        let h = string_of(&parts[i]);
        if default_port {
            names.push(h);
        } else {
            let with_colon = concat(h.as_str(), ":");
            names.push(concat(with_colon.as_str(), port));
        }
        i = i + 1;
    }
    names
}

/// A site answers each one of its host names, wherever the name stands in
/// its list, at every path that its path prefix allows.
pub proof fn lemma_site_answers_each_name(c: HostConfig, k: int, path: Seq<char>)
    requires
        0 <= k < c.hostnames@.len(),
        match c.path {
            Some(prefix) => spec_starts_with(path, prefix@),
            None => true,
        },
    ensures
        config_matches(c, c.hostnames@[k]@, path),
{
}

/// A request for one of the host names of a site, at a path the site
/// allows, goes to that site when no earlier site answers it.
pub proof fn lemma_request_goes_to_site_of_its_name(
    configs: Seq<HostConfig>,
    i: int,
    k: int,
    path: Seq<char>,
)
    requires
        0 <= i < configs.len(),
        0 <= k < configs[i].hostnames@.len(),
        match configs[i].path {
            Some(prefix) => spec_starts_with(path, prefix@),
            None => true,
        },
        forall|j: int| 0 <= j < i ==> !config_matches(#[trigger] configs[j], configs[i].hostnames@[k]@, path),
    ensures
        first_match(configs, configs[i].hostnames@[k]@, path) == Some(i),
{
    lemma_site_answers_each_name(configs[i], k, path);
    lemma_first_match(configs, configs[i].hostnames@[k]@, path, i);
}

/// A site answers a host only when the host is one of its names.
pub proof fn lemma_site_answers_only_its_names(c: HostConfig, host: Seq<char>, path: Seq<char>)
    requires
        forall|k: int| 0 <= k < c.hostnames@.len() ==> #[trigger] c.hostnames@[k]@ != host,
    ensures
        !config_matches(c, host, path),
{
}

} // verus!
