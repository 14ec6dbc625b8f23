use vstd::prelude::*;

use crate::indexed::{entry_in, key_less, keyed_map, keys_increasing, lemma_entries_cover, IndexedValues};
use crate::proxy::{build_hostnames, spec_hostnames, HostConfig};
use crate::task::opt_text;
use crate::text::{
    chars_of, find_last, last_index_of, lemma_last_index_of, spec_starts_with, starts_with,
    string_of_range,
};

verus! {

/// The index that an environment variable name ends with: what follows its
/// last `_`.
pub open spec fn env_index(name: Seq<char>) -> Seq<char> {
    match last_index_of(name, '_') {
        Some(i) => name.skip(i + 1),
        None => name,
    }
}

/// The values of the environment variables whose names begin with `prefix`,
/// by the index their names end with; a later variable wins.
pub open spec fn env_values(vars: Seq<(String, String)>, prefix: Seq<char>) -> Map<Seq<char>, Seq<char>>
    decreases vars.len(),
{
    if vars.len() == 0 {
        Map::empty()
    } else {
        let m = env_values(vars.drop_last(), prefix);
        let (name, value) = vars.last();
        if spec_starts_with(name@, prefix) {
            m.insert(env_index(name@), value@)
        } else {
            m
        }
    }
}

/// `ks` lists the keys of `dom` in increasing order, each once.
pub open spec fn lists_keys_in_order(ks: Seq<Seq<char>>, dom: Set<Seq<char>>) -> bool {
    &&& forall|i: int, j: int| 0 <= i < j < ks.len() ==> key_less(ks[i], ks[j])
    &&& forall|i: int| 0 <= i < ks.len() ==> dom.contains(#[trigger] ks[i])
    &&& forall|k: Seq<char>| #[trigger] dom.contains(k) ==> exists|i: int| 0 <= i < ks.len() && ks[i] == k
}

/// The host names of a site, taken by their characters.
pub open spec fn hostname_views(c: HostConfig) -> Seq<Seq<char>> {
    c.hostnames@.map_values(|h: String| h@)
}

/// The site of an application: its address, its host names for the HTTPS
/// port, its path prefix, and the CORS choice.
pub open spec fn is_app_config(
    c: HostConfig,
    hosts: Seq<char>,
    addr: Seq<char>,
    path: Seq<char>,
    https_port: Seq<char>,
    cors_allow_all: bool,
) -> bool {
    &&& opt_text(c.upstream_addr) == Some(addr)
    &&& hostname_views(c) == spec_hostnames(hosts, https_port)
    &&& opt_text(c.path) == Some(path)
    &&& !c.serves_static_files
    &&& c.cors_allow_all == cors_allow_all
}

/// A site of static files: its host names for the HTTPS port, nothing else.
pub open spec fn is_static_config(c: HostConfig, hosts: Seq<char>, https_port: Seq<char>) -> bool {
    &&& c.upstream_addr is None
    &&& hostname_views(c) == spec_hostnames(hosts, https_port)
    &&& c.path is None
    &&& c.serves_static_files
    &&& !c.cors_allow_all
}

/// The sites of the proxy: those it serves over HTTPS (the applications,
/// then the static sites), those it serves over plain HTTP (the
/// applications), and the root folder of each static site, in the order of
/// the static sites.
#[derive(Clone, Debug)]
pub struct ProxySettings {
    pub ssl_configs: Vec<HostConfig>,
    pub http_configs: Vec<HostConfig>,
    pub static_roots: Vec<String>,
}

/// What the proxy's settings are for the given environment: none when an
/// application lacks its address or path, or a static site its root.
pub open spec fn settings_match(
    r: Option<ProxySettings>,
    vars: Seq<(String, String)>,
    https_port: Seq<char>,
    cors_allow_all: bool,
) -> bool {
    let hosts = env_values(vars, "APP_HOST_NAME_"@);
    let paths = env_values(vars, "APP_PATH_"@);
    let addrs = env_values(vars, "APP_ADDR_"@);
    let statics = env_values(vars, "STATIC_HOST_NAME_"@);
    let roots = env_values(vars, "STATIC_ROOT_"@);
    let complete = (forall|k: Seq<char>| #[trigger] hosts.contains_key(k) ==> addrs.contains_key(k)
        && paths.contains_key(k)) && (forall|k: Seq<char>| #[trigger] statics.contains_key(k) ==> roots.contains_key(k));
    match r {
        None => !complete,
        Some(ps) => complete && exists|hk: Seq<Seq<char>>, sk: Seq<Seq<char>>| {
            &&& lists_keys_in_order(hk, hosts.dom())
            &&& lists_keys_in_order(sk, statics.dom())
            &&& ps.http_configs@.len() == hk.len()
            &&& ps.ssl_configs@.len() == hk.len() + sk.len()
            &&& ps.static_roots@.len() == sk.len()
            &&& forall|i: int| 0 <= i < hk.len() ==> is_app_config(
                #[trigger] ps.http_configs@[i],
                hosts[hk[i]],
                addrs[hk[i]],
                paths[hk[i]],
                https_port,
                cors_allow_all,
            )
            &&& forall|i: int| 0 <= i < hk.len() ==> is_app_config(
                #[trigger] ps.ssl_configs@[i],
                hosts[hk[i]],
                addrs[hk[i]],
                paths[hk[i]],
                https_port,
                cors_allow_all,
            )
            &&& forall|i: int| 0 <= i < sk.len() ==> is_static_config(
                #[trigger] ps.ssl_configs@[hk.len() + i],
                statics[sk[i]],
                https_port,
            )
            &&& forall|i: int| 0 <= i < sk.len() ==> #[trigger] ps.static_roots@[i]@ == roots[sk[i]]
        },
    }
}

fn index_of_name(name: &str) -> (index: String)
    ensures
        index@ == env_index(name@),
{
    let v = chars_of(name);
    proof {
        lemma_last_index_of(v@, '_');
    }
    match find_last(&v, '_') {
        Some(i) => {
            let len = v.len();
            assert(i < len);
            let r = string_of_range(&v, i + 1, len);
            assert(v@.subrange(i + 1, len as int) == name@.skip(i + 1));
            r
        },
        None => {
            let r = string_of_range(&v, 0, v.len());
            assert(v@.subrange(0, v@.len() as int) == name@);
            r
        },
    }
}

fn app_config(host_value: &str, addr: &String, path: &String, https_port: &str, cors_allow_all: bool) -> (c: HostConfig)
    ensures
        is_app_config(c, host_value@, addr@, path@, https_port@, cors_allow_all),
{
    let names = build_hostnames(host_value, https_port);
    let c = HostConfig {
        upstream_addr: Some(addr.clone()),
        hostnames: names,
        path: Some(path.clone()),
        serves_static_files: false,
        cors_allow_all,
    };
    assert(hostname_views(c) =~= spec_hostnames(host_value@, https_port@));
    c
}

fn static_config(host_value: &str, https_port: &str) -> (c: HostConfig)
    ensures
        is_static_config(c, host_value@, https_port@),
{
    let names = build_hostnames(host_value, https_port);
    let c = HostConfig {
        upstream_addr: None,
        hostnames: names,
        path: None,
        serves_static_files: true,
        cors_allow_all: false,
    };
    assert(hostname_views(c) =~= spec_hostnames(host_value@, https_port@));
    c
}

proof fn lemma_keys_listed<V>(s: Seq<(String, V)>)
    requires
        keys_increasing(s),
    ensures
        lists_keys_in_order(s.map_values(|e: (String, V)| e.0@), keyed_map(s).dom()),
{
    lemma_entries_cover(s);
    let ks = s.map_values(|e: (String, V)| e.0@);
    assert forall|i: int| 0 <= i < ks.len() implies keyed_map(s).dom().contains(#[trigger] ks[i]) by {
        assert(entry_in(keyed_map(s), s[i]));
    }
    assert forall|k: Seq<char>| #[trigger] keyed_map(s).dom().contains(k) implies exists|i: int| 0 <= i < ks.len() && ks[i] == k by {
        assert(keyed_map(s).contains_key(k));
        let i = choose|i: int| 0 <= i < s.len() && s[i].0@ == k;
        assert(ks[i] == k);
    }
}

/// Reads the proxy's sites from the environment variables: `APP_HOST_NAME_x`
/// (comma separated host names), `APP_PATH_x` and `APP_ADDR_x` for each
/// application `x`, `STATIC_HOST_NAME_x` and `STATIC_ROOT_x` for each static
/// site `x`. Host names get the HTTPS port. Sites come in the order of their
/// indexes.
pub fn collect_proxy_settings(vars: &Vec<(String, String)>, https_port: &str, cors_allow_all: bool) -> (r: Option<ProxySettings>)
    ensures
        settings_match(r, vars@, https_port@, cors_allow_all),
{
    let mut hosts: IndexedValues<String> = IndexedValues::new();
    let mut paths: IndexedValues<String> = IndexedValues::new();
    let mut addrs: IndexedValues<String> = IndexedValues::new();
    let mut statics: IndexedValues<String> = IndexedValues::new();
    let mut roots: IndexedValues<String> = IndexedValues::new();
    let n = vars.len();
    let mut i: usize = 0;
    while i < n
        invariant
            n == vars@.len(),
            0 <= i <= n,
            hosts.wf() && paths.wf() && addrs.wf() && statics.wf() && roots.wf(),
            hosts@.map_values(|v: String| v@) == env_values(vars@.take(i as int), "APP_HOST_NAME_"@),
            paths@.map_values(|v: String| v@) == env_values(vars@.take(i as int), "APP_PATH_"@),
            addrs@.map_values(|v: String| v@) == env_values(vars@.take(i as int), "APP_ADDR_"@),
            statics@.map_values(|v: String| v@) == env_values(vars@.take(i as int), "STATIC_HOST_NAME_"@),
            roots@.map_values(|v: String| v@) == env_values(vars@.take(i as int), "STATIC_ROOT_"@),
        decreases n - i,
    {
        proof {
            assert(vars@.take(i + 1).drop_last() == vars@.take(i as int));
            assert(vars@.take(i + 1).last() == vars@[i as int]);
        }
        let name = vars[i].0.as_str();
        let value = &vars[i].1;
        if starts_with(name, "APP_HOST_NAME_") {
            hosts.insert(index_of_name(name), value.clone());
        }
        if starts_with(name, "APP_PATH_") {
            paths.insert(index_of_name(name), value.clone());
        }
        if starts_with(name, "APP_ADDR_") {
            addrs.insert(index_of_name(name), value.clone());
        }
        if starts_with(name, "STATIC_HOST_NAME_") {
            statics.insert(index_of_name(name), value.clone());
        }
        if starts_with(name, "STATIC_ROOT_") {
            roots.insert(index_of_name(name), value.clone());
        }
        proof {
            assert(hosts@.map_values(|v: String| v@) =~= env_values(vars@.take(i + 1), "APP_HOST_NAME_"@));
            assert(paths@.map_values(|v: String| v@) =~= env_values(vars@.take(i + 1), "APP_PATH_"@));
            assert(addrs@.map_values(|v: String| v@) =~= env_values(vars@.take(i + 1), "APP_ADDR_"@));
            assert(statics@.map_values(|v: String| v@) =~= env_values(vars@.take(i + 1), "STATIC_HOST_NAME_"@));
            assert(roots@.map_values(|v: String| v@) =~= env_values(vars@.take(i + 1), "STATIC_ROOT_"@));
        }
        i = i + 1;
    }
    proof {
        assert(vars@.take(n as int) == vars@);
    }
    let ghost hv = env_values(vars@, "APP_HOST_NAME_"@);
    let ghost pv = env_values(vars@, "APP_PATH_"@);
    let ghost av = env_values(vars@, "APP_ADDR_"@);
    let ghost sv = env_values(vars@, "STATIC_HOST_NAME_"@);
    let ghost rv = env_values(vars@, "STATIC_ROOT_"@);
    let host_entries = hosts.entries();
    let static_entries = statics.entries();
    let ghost hk = host_entries@.map_values(|e: (String, String)| e.0@);
    let ghost sk = static_entries@.map_values(|e: (String, String)| e.0@);
    proof {
        lemma_keys_listed(host_entries@);
        lemma_keys_listed(static_entries@);
        lemma_entries_cover(host_entries@);
        lemma_entries_cover(static_entries@);
    }
    let mut ssl_configs: Vec<HostConfig> = Vec::new();
    let mut http_configs: Vec<HostConfig> = Vec::new();
    let hn = host_entries.len();
    let mut j: usize = 0;
    while j < hn
        invariant
            hn == host_entries@.len() == hk.len(),
            0 <= j <= hn,
            hk == host_entries@.map_values(|e: (String, String)| e.0@),
            keyed_map(host_entries@) == hosts@,
            hosts@.map_values(|v: String| v@) == hv,
            paths@.map_values(|v: String| v@) == pv,
            addrs@.map_values(|v: String| v@) == av,
            hosts.wf() && paths.wf() && addrs.wf(),
            hv == env_values(vars@, "APP_HOST_NAME_"@),
            pv == env_values(vars@, "APP_PATH_"@),
            av == env_values(vars@, "APP_ADDR_"@),
            forall|q: int| 0 <= q < host_entries@.len() ==> entry_in(keyed_map(host_entries@), #[trigger] host_entries@[q]),
            forall|q: int| 0 <= q < j ==> av.contains_key(#[trigger] hk[q]) && pv.contains_key(hk[q]),
            ssl_configs@.len() == j,
            http_configs@.len() == j,
            forall|q: int| 0 <= q < j ==> is_app_config(#[trigger] http_configs@[q], hv[hk[q]], av[hk[q]], pv[hk[q]], https_port@, cors_allow_all),
            forall|q: int| 0 <= q < j ==> is_app_config(#[trigger] ssl_configs@[q], hv[hk[q]], av[hk[q]], pv[hk[q]], https_port@, cors_allow_all),
        decreases hn - j,
    {
        let key = host_entries[j].0.as_str();
        let host_value = host_entries[j].1.as_str();
        proof {
            assert(entry_in(keyed_map(host_entries@), host_entries@[j as int]));
            assert(hk[j as int] == key@);
            assert(hv[key@] == host_value@);
        }
        let addr = match addrs.get(key) {
            Some(a) => a,
            None => {
                proof {
                    assert(hv.contains_key(hk[j as int]));
                    assert(!av.contains_key(hk[j as int]));
                }
                return None;
            },
        };
        let path = match paths.get(key) {
            Some(p) => p,
            None => {
                proof {
                    assert(hv.contains_key(hk[j as int]));
                    assert(!pv.contains_key(hk[j as int]));
                }
                return None;
            },
        };
        proof {
            assert(av[key@] == addr@);
            assert(pv[key@] == path@);
        }
        http_configs.push(app_config(host_value, addr, path, https_port, cors_allow_all));
        ssl_configs.push(app_config(host_value, addr, path, https_port, cors_allow_all));
        j = j + 1;
    }
    let mut static_roots: Vec<String> = Vec::new();
    let sn = static_entries.len();
    let mut k: usize = 0;
    while k < sn
        invariant
            sn == static_entries@.len() == sk.len(),
            0 <= k <= sn,
            sk == static_entries@.map_values(|e: (String, String)| e.0@),
            keyed_map(static_entries@) == statics@,
            statics@.map_values(|v: String| v@) == sv,
            roots@.map_values(|v: String| v@) == rv,
            statics.wf() && roots.wf(),
            sv == env_values(vars@, "STATIC_HOST_NAME_"@),
            rv == env_values(vars@, "STATIC_ROOT_"@),
            forall|q: int| 0 <= q < static_entries@.len() ==> entry_in(keyed_map(static_entries@), #[trigger] static_entries@[q]),
            forall|q: int| 0 <= q < k ==> rv.contains_key(#[trigger] sk[q]),
            ssl_configs@.len() == hk.len() + k,
            static_roots@.len() == k,
            forall|q: int| 0 <= q < hk.len() ==> is_app_config(#[trigger] ssl_configs@[q], hv[hk[q]], av[hk[q]], pv[hk[q]], https_port@, cors_allow_all),
            forall|q: int| 0 <= q < k ==> is_static_config(#[trigger] ssl_configs@[hk.len() + q], sv[sk[q]], https_port@),
            forall|q: int| 0 <= q < k ==> #[trigger] static_roots@[q]@ == rv[sk[q]],
        decreases sn - k,
    {
        let key = static_entries[k].0.as_str();
        let host_value = static_entries[k].1.as_str();
        proof {
            assert(entry_in(keyed_map(static_entries@), static_entries@[k as int]));
            assert(sk[k as int] == key@);
            assert(sv[key@] == host_value@);
        }
        let root = match roots.get(key) {
            Some(r) => r,
            None => {
                proof {
                    assert(sv.contains_key(sk[k as int]));
                    assert(!rv.contains_key(sk[k as int]));
                }
                return None;
            },
        };
        proof {
            assert(rv[key@] == root@);
        }
        let ghost before = ssl_configs@;
        ssl_configs.push(static_config(host_value, https_port));
        proof {
            assert forall|q: int| 0 <= q < hk.len() implies is_app_config(#[trigger] ssl_configs@[q], hv[hk[q]], av[hk[q]], pv[hk[q]], https_port@, cors_allow_all) by {
                assert(ssl_configs@[q] == before[q]);
            }
            assert forall|q: int| 0 <= q < k + 1 implies is_static_config(#[trigger] ssl_configs@[hk.len() + q], sv[sk[q]], https_port@) by {
                if q < k {
                    assert(ssl_configs@[hk.len() + q] == before[hk.len() + q]);
                }
            }
        }
        static_roots.push(root.clone());
        k = k + 1;
    }
    let ps = ProxySettings { ssl_configs, http_configs, static_roots };
    proof {
        assert forall|key: Seq<char>| #[trigger] hv.contains_key(key) implies av.contains_key(key) && pv.contains_key(key) by {
            assert(hosts@.contains_key(key));
            assert(keyed_map(host_entries@).contains_key(key));
            let q = choose|q: int| 0 <= q < host_entries@.len() && host_entries@[q].0@ == key;
            assert(hk[q] == key);
        }
        assert forall|key: Seq<char>| #[trigger] sv.contains_key(key) implies rv.contains_key(key) by {
            assert(statics@.contains_key(key));
            assert(keyed_map(static_entries@).contains_key(key));
            let q = choose|q: int| 0 <= q < static_entries@.len() && static_entries@[q].0@ == key;
            assert(sk[q] == key);
        }
        assert(lists_keys_in_order(hk, hv.dom()));
        assert(lists_keys_in_order(sk, sv.dom()));
    }
    Some(ps)
}

/// The CORS choice that the `CORS_ALLOW_ALL` variable makes: on only for
/// `true` (`str::parse::<bool>` accepts `true` and `false`, anything else
/// counts as off).
pub fn cors_flag(value: &str) -> (on: bool)
    ensures
        on == (value@ == "true"@),
{
    crate::text::same_text(value, "true")
}

} // verus!
