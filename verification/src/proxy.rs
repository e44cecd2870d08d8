use vstd::prelude::*;
use crate::helper::{
    Action, ActionView, action_views, run, run_root, push_run, push_root, push_action, string_views,
    str_views,
};
use crate::netstate::{ServiceState, per_state, proxy_back, ipv6_back, dns_back};
use crate::text::{owned, chars_of, string_of, contains, contains_chars, trim_start, trim_start_chars, trim, trim_chars};

verus! {

/// The actions `f` gives for each service, in order.
pub open spec fn per_service(svcs: Seq<Seq<char>>, f: spec_fn(Seq<char>) -> Seq<ActionView>) -> Seq<ActionView>
    decreases svcs.len(),
{
    if svcs.len() == 0 {
        Seq::empty()
    } else {
        per_service(svcs.drop_last(), f) + f(svcs.last())
    }
}

pub proof fn lemma_per_service_step(svcs: Seq<Seq<char>>, f: spec_fn(Seq<char>) -> Seq<ActionView>, i: int)
    requires
        0 <= i < svcs.len(),
    ensures
        per_service(svcs.take(i + 1), f) == per_service(svcs.take(i), f) + f(svcs[i]),
{
    assert(svcs.take(i + 1).drop_last() =~= svcs.take(i));
    assert(svcs.take(i + 1).last() == svcs[i]);
}

/// The domains that skip the proxy: local addresses, and Spotify's when its bypass is on.
pub open spec fn bypass_text(spotify: bool) -> Seq<char> {
    if spotify {
        "localhost, 127.0.0.1, *.spotify.com, *.scdn.co, *.spotilocal.com, *.pscdn.co"@
    } else {
        "localhost, 127.0.0.1"@
    }
}

/// Turning the system SOCKS proxy on for one service: Tor's port, then on, then the
/// bypassed domains.
pub open spec fn proxy_on(svc: Seq<char>, spotify: bool) -> Seq<ActionView> {
    seq![
        run("networksetup"@, seq!["-setsocksfirewallproxy"@, svc, "127.0.0.1"@, "9050"@, "off"@]),
        run("networksetup"@, seq!["-setsocksfirewallproxystate"@, svc, "on"@]),
        run("networksetup"@, seq!["-setproxybypassdomains"@, svc, bypass_text(spotify)]),
    ]
}

pub open spec fn ipv6_off(svc: Seq<char>) -> Seq<ActionView> {
    seq![run("networksetup"@, seq!["-setv6off"@, svc])]
}

pub open spec fn dns_local(svc: Seq<char>) -> Seq<ActionView> {
    seq![run("networksetup"@, seq!["-setdnsservers"@, svc, "127.0.0.1"@])]
}

/// Routes every network service through Tor's SOCKS port; Spotify's domains skip it
/// when `spotify` is on.
pub fn proxy_enable(services: &Vec<String>, spotify: bool) -> (r: Vec<Action>)
    ensures
        action_views(r@) == per_service(string_views(services@), |s: Seq<char>| proxy_on(s, spotify)),
{
    let mut plan: Vec<Action> = Vec::new();
    let bypass = if spotify {
        "localhost, 127.0.0.1, *.spotify.com, *.scdn.co, *.spotilocal.com, *.pscdn.co"
    } else {
        "localhost, 127.0.0.1"
    };
    let n = services.len();
    for i in 0..n
        invariant
            n == services@.len(),
            bypass@ == bypass_text(spotify),
            action_views(plan@) == per_service(string_views(services@).take(i as int), |s: Seq<char>| proxy_on(s, spotify)),
    {
        let ghost before = action_views(plan@);
        proof {
            lemma_per_service_step(string_views(services@), |s: Seq<char>| proxy_on(s, spotify), i as int);
        }
        let svc = services[i].as_str();
        let a1 = [ "-setsocksfirewallproxy", svc, "127.0.0.1", "9050", "off" ];
        let a2 = [ "-setsocksfirewallproxystate", svc, "on" ];
        let a3 = [ "-setproxybypassdomains", svc, bypass ];
        push_run(&mut plan, "networksetup", &a1);
        push_run(&mut plan, "networksetup", &a2);
        push_run(&mut plan, "networksetup", &a3);
        assert(str_views(a1@) =~= seq!["-setsocksfirewallproxy"@, svc@, "127.0.0.1"@, "9050"@, "off"@]);
        assert(str_views(a2@) =~= seq!["-setsocksfirewallproxystate"@, svc@, "on"@]);
        assert(str_views(a3@) =~= seq!["-setproxybypassdomains"@, svc@, bypass_text(spotify)]);
        assert(action_views(plan@) =~= before + proxy_on(services@[i as int]@, spotify));
    }
    assert(string_views(services@).take(n as int) =~= string_views(services@));
    plan
}

/// Sets every service's SOCKS proxy back to what was recorded before connecting.
pub fn proxy_disable(states: &Vec<ServiceState>) -> (r: Vec<Action>)
    ensures
        action_views(r@) == per_state(states@, |s: ServiceState| proxy_back(s)),
{
    crate::netstate::proxy_restore(states)
}

/// Turns IPv6 off on every network service.
pub fn ipv6_disable(services: &Vec<String>) -> (r: Vec<Action>)
    ensures
        action_views(r@) == per_service(string_views(services@), |s: Seq<char>| ipv6_off(s)),
{
    let mut plan: Vec<Action> = Vec::new();
    let n = services.len();
    for i in 0..n
        invariant
            n == services@.len(),
            action_views(plan@) == per_service(string_views(services@).take(i as int), |s: Seq<char>| ipv6_off(s)),
    {
        let ghost before = action_views(plan@);
        proof {
            lemma_per_service_step(string_views(services@), |s: Seq<char>| ipv6_off(s), i as int);
        }
        let svc = services[i].as_str();
        let a = [ "-setv6off", svc ];
        push_run(&mut plan, "networksetup", &a);
        assert(str_views(a@) =~= seq!["-setv6off"@, svc@]);
        assert(action_views(plan@) =~= before + ipv6_off(services@[i as int]@));
    }
    assert(string_views(services@).take(n as int) =~= string_views(services@));
    plan
}

/// Sets every service's IPv6 back to what was recorded before connecting.
pub fn ipv6_restore(states: &Vec<ServiceState>) -> (r: Vec<Action>)
    ensures
        action_views(r@) == per_state(states@, |s: ServiceState| ipv6_back(s)),
{
    crate::netstate::ipv6_restore(states)
}

/// Points DNS of every service at the local resolver.
fn set_dns_local(plan: &mut Vec<Action>, services: &Vec<String>)
    ensures
        action_views(final(plan)@) == action_views(old(plan)@) + per_service(
            string_views(services@),
            |s: Seq<char>| dns_local(s),
        ),
{
    let ghost start = action_views(plan@);
    let ghost f = |s: Seq<char>| dns_local(s);
    let n = services.len();
    for i in 0..n
        invariant
            n == services@.len(),
            f == (|s: Seq<char>| dns_local(s)),
            action_views(plan@) == start + per_service(string_views(services@).take(i as int), f),
    {
        proof {
            lemma_per_service_step(string_views(services@), f, i as int);
        }
        let svc = services[i].as_str();
        let a = [ "-setdnsservers", svc, "127.0.0.1" ];
        push_run(plan, "networksetup", &a);
        assert(str_views(a@) =~= seq!["-setdnsservers"@, svc@, "127.0.0.1"@]);
        assert(f(services@[i as int]@) =~= seq![run("networksetup"@, seq!["-setdnsservers"@, svc@, "127.0.0.1"@])]);
        assert(action_views(plan@) =~= start + (per_service(string_views(services@).take(i as int), f) + f(
            services@[i as int]@,
        )));
    }
    assert(string_views(services@).take(n as int) =~= string_views(services@));
}

} // verus!

verus! {

pub open spec fn env_marker_begin() -> Seq<char> {
    "# TorShield-env-begin"@
}

pub open spec fn env_marker_end() -> Seq<char> {
    "# TorShield-env-end"@
}

/// The environment file: proxy variables in both cases pointing at Tor with remote
/// DNS (`socks5h`), and the hosts that bypass it (`NO_PROXY`, comma-separated).
pub open spec fn env_file_text(no_proxy: Seq<char>) -> Seq<char> {
    "export HTTP_PROXY=socks5h://127.0.0.1:9050\nexport HTTPS_PROXY=socks5h://127.0.0.1:9050\nexport ALL_PROXY=socks5h://127.0.0.1:9050\nexport http_proxy=socks5h://127.0.0.1:9050\nexport https_proxy=socks5h://127.0.0.1:9050\nexport all_proxy=socks5h://127.0.0.1:9050\nexport NO_PROXY="@
        + no_proxy + "\nexport no_proxy="@ + no_proxy + seq!['\n']
}

/// The usual bypass list: local addresses and GitHub.
pub open spec fn default_no_proxy() -> Seq<char> {
    "localhost,127.0.0.1,::1,github.com,api.github.com,*.github.com"@
}

pub fn default_no_proxy_list() -> (r: String)
    ensures
        r@ == default_no_proxy(),
{
    owned("localhost,127.0.0.1,::1,github.com,api.github.com,*.github.com")
}

fn env_file_content(no_proxy: &str) -> (r: String)
    ensures
        r@ == env_file_text(no_proxy@),
{
    let mut r = owned(
        "export HTTP_PROXY=socks5h://127.0.0.1:9050\nexport HTTPS_PROXY=socks5h://127.0.0.1:9050\nexport ALL_PROXY=socks5h://127.0.0.1:9050\nexport http_proxy=socks5h://127.0.0.1:9050\nexport https_proxy=socks5h://127.0.0.1:9050\nexport all_proxy=socks5h://127.0.0.1:9050\nexport NO_PROXY=",
    );
    r.append(no_proxy);
    r.append("\nexport no_proxy=");
    r.append(no_proxy);
    r.append("\n");
    proof {
        reveal_strlit("\n");
    }
    assert(r@ =~= env_file_text(no_proxy@));
    r
}

/// `<dir>/env.sh`.
pub open spec fn env_file_path_text(dir: Seq<char>) -> Seq<char> {
    dir + "/env.sh"@
}

/// The shell hook: between the two markers, source the environment file if it exists.
pub open spec fn env_hook_text(env: Seq<char>) -> Seq<char> {
    seq!['\n'] + env_marker_begin() + "\n[ -f \""@ + env + "\" ] && source \""@ + env + "\"\n"@
        + env_marker_end() + seq!['\n']
}

/// What becomes of one shell startup file: the hook is appended when the file
/// exists without it, the file is created with the hook when it cannot be read, and
/// nothing happens when the hook is there already.
pub open spec fn rc_plan(path: Seq<char>, current: Option<Seq<char>>, hook: Seq<char>) -> Seq<ActionView> {
    match current {
        Some(c) => if contains(c, env_marker_begin()) {
            Seq::empty()
        } else {
            seq![ActionView::AppendFile(path, hook)]
        },
        None => seq![ActionView::WriteFile(path, trim_start(hook))],
    }
}

/// The environment file's path inside TorShield's directory.
pub fn env_file_path(dir: &str) -> (r: String)
    ensures
        r@ == env_file_path_text(dir@),
{
    let mut r = owned(dir);
    r.append("/env.sh");
    r
}

fn env_hook(env: &str) -> (r: String)
    ensures
        r@ == env_hook_text(env@),
{
    let mut h = owned("\n");
    h.append("# TorShield-env-begin");
    h.append("\n[ -f \"");
    h.append(env);
    h.append("\" ] && source \"");
    h.append(env);
    h.append("\"\n");
    h.append("# TorShield-env-end");
    h.append("\n");
    proof {
        reveal_strlit("\n");
    }
    assert(h@ =~= env_hook_text(env@));
    h
}

fn push_rc(plan: &mut Vec<Action>, path: String, current: Option<&str>, hook: &str)
    ensures
        action_views(final(plan)@) == action_views(old(plan)@) + rc_plan(path@, crate::helper::opt_view(current), hook@),
{
    let ghost start = action_views(plan@);
    match current {
        Some(c) => {
            if !contains_chars(&chars_of(c), &chars_of("# TorShield-env-begin")) {
                push_action(plan, Action::AppendFile(path, owned(hook)));
            } else {
                assert(action_views(plan@) =~= start + Seq::<ActionView>::empty());
            }
        },
        None => {
            let trimmed = string_of(&trim_start_chars(&chars_of(hook)));
            push_action(plan, Action::WriteFile(path, trimmed));
        },
    }
    assert(action_views(plan@) =~= start + rc_plan(path@, crate::helper::opt_view(current), hook@));
}

/// `<home>/<name>`.
fn home_file(home: &str, name: &str) -> (r: String)
    ensures
        r@ == home@ + "/"@ + name@,
{
    let mut r = owned(home);
    r.append("/");
    r.append(name);
    r
}

/// Turning proxy variables on for scripts: write the environment file (with the
/// bypass list `no_proxy`) into TorShield's directory, and hook it into `~/.zshrc` and `~/.bashrc` (given with
/// their current contents, `None` when unreadable).
pub fn env_inject_enable(dir: &str, home: &str, no_proxy: &str, zshrc: Option<&str>, bashrc: Option<&str>) -> (r: Vec<Action>)
    ensures
        action_views(r@) == seq![
            ActionView::CreateDir(dir@),
            ActionView::WriteFile(env_file_path_text(dir@), env_file_text(no_proxy@)),
        ] + rc_plan(home@ + "/"@ + ".zshrc"@, crate::helper::opt_view(zshrc), env_hook_text(env_file_path_text(dir@)))
            + rc_plan(home@ + "/"@ + ".bashrc"@, crate::helper::opt_view(bashrc), env_hook_text(env_file_path_text(dir@))),
{
    let mut plan: Vec<Action> = Vec::new();
    push_action(&mut plan, Action::CreateDir(owned(dir)));
    let env = env_file_path(dir);
    push_action(
        &mut plan,
        Action::WriteFile(
            env_file_path(dir),
            env_file_content(no_proxy),
        ),
    );
    let hook = env_hook(env.as_str());
    let ghost first = action_views(plan@);
    push_rc(&mut plan, home_file(home, ".zshrc"), zshrc, hook.as_str());
    push_rc(&mut plan, home_file(home, ".bashrc"), bashrc, hook.as_str());
    assert(first =~= seq![
        ActionView::CreateDir(dir@),
        ActionView::WriteFile(env_file_path_text(dir@), env_file_text(no_proxy@)),
    ]);
    plan
}

/// Once the hook is in a startup file, enabling again leaves the file alone: the hook
/// is written only once.
pub proof fn lemma_hook_written_once(path: Seq<char>, current: Seq<char>, env: Seq<char>)
    ensures
        rc_plan(path, Some(current + env_hook_text(env)), env_hook_text(env)) == Seq::<ActionView>::empty(),
        rc_plan(path, Some(trim_start(env_hook_text(env))), env_hook_text(env)) == Seq::<ActionView>::empty(),
{
    reveal_strlit("# TorShield-env-begin");
    let h = env_hook_text(env);
    let b = env_marker_begin();
    let cl: int = current.len() as int;
    let bl: int = b.len() as int;
    assert(h.subrange(1, 1 + bl) =~= b);
    assert(crate::text::occurs_at(current + h, b, cl + 1)) by {
        assert((current + h).subrange(cl + 1, cl + 1 + bl) =~= b);
    }
    assert(h[0] == '\n');
    assert(h[1] == '#');
    assert(trim_start(h.drop_first()) == h.drop_first());
    assert(trim_start(h) == h.drop_first());
    assert(crate::text::occurs_at(h.drop_first(), b, 0)) by {
        assert(h.drop_first().subrange(0, bl) =~= b);
    }
}

/// Turning proxy variables off: remove the environment file and clear the variables
/// from launchd.
pub open spec fn env_inject_disable_plan(dir: Seq<char>) -> Seq<ActionView> {
    seq![
        ActionView::RemoveFile(env_file_path_text(dir)),
        run("launchctl"@, seq!["unsetenv"@, "HTTP_PROXY"@]),
        run("launchctl"@, seq!["unsetenv"@, "HTTPS_PROXY"@]),
        run("launchctl"@, seq!["unsetenv"@, "ALL_PROXY"@]),
        run("launchctl"@, seq!["unsetenv"@, "http_proxy"@]),
        run("launchctl"@, seq!["unsetenv"@, "https_proxy"@]),
        run("launchctl"@, seq!["unsetenv"@, "all_proxy"@]),
        run("launchctl"@, seq!["unsetenv"@, "NO_PROXY"@]),
        run("launchctl"@, seq!["unsetenv"@, "no_proxy"@]),
    ]
}

fn push_unsetenv(plan: &mut Vec<Action>, key: &str)
    ensures
        action_views(final(plan)@) == action_views(old(plan)@).push(run("launchctl"@, seq!["unsetenv"@, key@])),
{
    let a = [ "unsetenv", key ];
    push_run(plan, "launchctl", &a);
    assert(str_views(a@) =~= seq!["unsetenv"@, key@]);
}

/// Removes the environment file and clears the proxy variables from launchd.
pub fn env_inject_disable(dir: &str) -> (r: Vec<Action>)
    ensures
        action_views(r@) == env_inject_disable_plan(dir@),
{
    let mut plan: Vec<Action> = Vec::new();
    push_action(&mut plan, Action::RemoveFile(env_file_path(dir)));
    push_unsetenv(&mut plan, "HTTP_PROXY");
    push_unsetenv(&mut plan, "HTTPS_PROXY");
    push_unsetenv(&mut plan, "ALL_PROXY");
    push_unsetenv(&mut plan, "http_proxy");
    push_unsetenv(&mut plan, "https_proxy");
    push_unsetenv(&mut plan, "all_proxy");
    push_unsetenv(&mut plan, "NO_PROXY");
    push_unsetenv(&mut plan, "no_proxy");
    assert(action_views(plan@) =~= env_inject_disable_plan(dir@));
    plan
}

/// dnsmasq's configuration: no system resolvers, forward everything to Tor's DNS
/// port, listen on localhost port 53, record its pid.
pub open spec fn dnsmasq_conf_text(pid_file: Seq<char>) -> Seq<char> {
    "no-resolv\nserver=127.0.0.1#9053\nlisten-address=127.0.0.1\nport=53\npid-file="@ + pid_file + seq!['\n']
}

/// Fixing DNS leaks: write dnsmasq's configuration, then (when a dnsmasq binary was
/// found) start it as root and point every service's DNS at it.
pub open spec fn dns_leak_enable_plan(dir: Seq<char>, bin: Option<Seq<char>>, svcs: Seq<Seq<char>>) -> Seq<ActionView> {
    let conf = dir + "/dnsmasq.conf"@;
    let write = seq![ActionView::WriteFile(conf, dnsmasq_conf_text(dir + "/dnsmasq.pid"@))];
    match bin {
        None => write,
        Some(b) => write + seq![run_root(b, seq!["-C"@, conf])] + per_service(svcs, |s: Seq<char>| dns_local(s)),
    }
}

pub fn dns_leak_enable(dir: &str, dnsmasq_bin: Option<&str>, services: &Vec<String>) -> (r: Vec<Action>)
    ensures
        action_views(r@) == dns_leak_enable_plan(dir@, crate::helper::opt_view(dnsmasq_bin), string_views(services@)),
{
    let mut pid_file = owned(dir);
    pid_file.append("/dnsmasq.pid");
    let mut conf = owned(dir);
    conf.append("/dnsmasq.conf");
    let mut content = owned("no-resolv\nserver=127.0.0.1#9053\nlisten-address=127.0.0.1\nport=53\npid-file=");
    content.append(pid_file.as_str());
    content.append("\n");
    proof {
        reveal_strlit("\n");
    }
    assert(content@ =~= dnsmasq_conf_text(dir@ + "/dnsmasq.pid"@));
    let mut plan: Vec<Action> = Vec::new();
    push_action(&mut plan, Action::WriteFile(owned(conf.as_str()), content));
    match dnsmasq_bin {
        None => {},
        Some(bin) => {
            let a = [ "-C", conf.as_str() ];
            push_root(&mut plan, bin, &a);
            assert(str_views(a@) =~= seq!["-C"@, conf@]);
            set_dns_local(&mut plan, services);
        },
    }
    assert(action_views(plan@) =~= dns_leak_enable_plan(dir@, crate::helper::opt_view(dnsmasq_bin), string_views(services@)));
    plan
}

/// Undoing the DNS fix: stop the dnsmasq TorShield started (by its recorded pid when
/// one was read, then by its configuration file) and set every service's DNS servers
/// back to what was recorded before connecting.
pub open spec fn dns_leak_disable_plan(dir: Seq<char>, pid: Option<Seq<char>>, sts: Seq<ServiceState>) -> Seq<ActionView> {
    let pid_file = dir + "/dnsmasq.pid"@;
    let conf = dir + "/dnsmasq.conf"@;
    (match pid {
        Some(p) => seq![run_root("kill"@, seq![trim(p)]), ActionView::RemoveFile(pid_file)],
        None => Seq::empty(),
    }) + seq![run_root("/usr/bin/pkill"@, seq!["-f"@, "dnsmasq.*"@ + conf])] + per_state(
        sts,
        |s: ServiceState| dns_back(s),
    )
}

pub fn dns_leak_disable(dir: &str, pid_contents: Option<&str>, states: &Vec<ServiceState>) -> (r: Vec<Action>)
    ensures
        action_views(r@) == dns_leak_disable_plan(dir@, crate::helper::opt_view(pid_contents), states@),
{
    let mut pid_file = owned(dir);
    pid_file.append("/dnsmasq.pid");
    let mut conf = owned(dir);
    conf.append("/dnsmasq.conf");
    let mut plan: Vec<Action> = Vec::new();
    match pid_contents {
        Some(p) => {
            let t = string_of(&trim_chars(&chars_of(p)));
            let a = [ t.as_str() ];
            push_root(&mut plan, "kill", &a);
            assert(str_views(a@) =~= seq![trim(p@)]);
            push_action(&mut plan, Action::RemoveFile(pid_file));
        },
        None => {},
    }
    let mut pattern = owned("dnsmasq.*");
    pattern.append(conf.as_str());
    let a1 = [ "-f", pattern.as_str() ];
    push_root(&mut plan, "/usr/bin/pkill", &a1);
    assert(str_views(a1@) =~= seq!["-f"@, "dnsmasq.*"@ + conf@]);
    crate::netstate::dns_restore(&mut plan, states);
    assert(action_views(plan@) =~= dns_leak_disable_plan(dir@, crate::helper::opt_view(pid_contents), states@));
    plan
}

} // verus!

verus! {

/// Every action that `f` gives for one of the services is in the plan for all of them.
pub proof fn lemma_per_service_contains(svcs: Seq<Seq<char>>, f: spec_fn(Seq<char>) -> Seq<ActionView>, i: int, k: int)
    requires
        0 <= i < svcs.len(),
        0 <= k < f(svcs[i]).len(),
    ensures
        per_service(svcs, f).contains(f(svcs[i])[k]),
    decreases svcs.len(),
{
    let p = per_service(svcs.drop_last(), f);
    assert(per_service(svcs, f) == p + f(svcs.last()));
    if i == svcs.len() - 1 {
        assert((p + f(svcs.last()))[p.len() + k] == f(svcs[i])[k]);
    } else {
        assert(svcs.drop_last()[i] == svcs[i]);
        lemma_per_service_contains(svcs.drop_last(), f, i, k);
        let j = choose|j: int| 0 <= j < p.len() && p[j] == f(svcs[i])[k];
        assert((p + f(svcs.last()))[j] == p[j]);
    }
}

/// Every action that `f` gives for one of the recorded services is in the plan for all
/// of them.
pub proof fn lemma_per_state_contains(sts: Seq<ServiceState>, f: spec_fn(ServiceState) -> Seq<ActionView>, i: int, k: int)
    requires
        0 <= i < sts.len(),
        0 <= k < f(sts[i]).len(),
    ensures
        per_state(sts, f).contains(f(sts[i])[k]),
    decreases sts.len(),
{
    let p = per_state(sts.drop_last(), f);
    assert(per_state(sts, f) == p + f(sts.last()));
    if i == sts.len() - 1 {
        assert((p + f(sts.last()))[p.len() + k] == f(sts[i])[k]);
    } else {
        assert(sts.drop_last()[i] == sts[i]);
        lemma_per_state_contains(sts.drop_last(), f, i, k);
        let j = choose|j: int| 0 <= j < p.len() && p[j] == f(sts[i])[k];
        assert((p + f(sts.last()))[j] == p[j]);
    }
}

/// Disconnecting gives every recorded network service back the settings it had before
/// connecting: its SOCKS proxy state and bypass list, its IPv6 configuration and its
/// DNS servers, whatever connecting set them to.
pub proof fn lemma_services_restored(sts: Seq<ServiceState>, i: int, dir: Seq<char>, pid: Option<Seq<char>>)
    requires
        0 <= i < sts.len(),
    ensures
        per_state(sts, |s: ServiceState| proxy_back(s)).contains(
            run("networksetup"@, seq!["-setproxybypassdomains"@, sts[i].service@] + crate::netstate::list_or(
                string_views(sts[i].bypass@),
                "Empty"@,
            )),
        ),
        per_state(sts, |s: ServiceState| proxy_back(s)).contains(
            run("networksetup"@, seq!["-setsocksfirewallproxystate"@, sts[i].service@, if sts[i].socks_enabled {
                "on"@
            } else {
                "off"@
            }]),
        ),
        per_state(sts, |s: ServiceState| ipv6_back(s)).contains(ipv6_back(sts[i])[0]),
        dns_leak_disable_plan(dir, pid, sts).contains(
            run("networksetup"@, seq!["-setdnsservers"@, sts[i].service@] + crate::netstate::list_or(
                string_views(sts[i].dns@),
                "empty"@,
            )),
        ),
{
    let st = sts[i];
    let pb = proxy_back(st);
    let k0: int = if st.socks_server@.len() > 0 { 1 } else { 0 };
    assert(pb[k0] == run("networksetup"@, seq!["-setproxybypassdomains"@, st.service@] + crate::netstate::list_or(
        string_views(st.bypass@),
        "Empty"@,
    )));
    lemma_per_state_contains(sts, |s: ServiceState| proxy_back(s), i, k0);
    lemma_per_state_contains(sts, |s: ServiceState| proxy_back(s), i, k0 + 1);
    lemma_per_state_contains(sts, |s: ServiceState| ipv6_back(s), i, 0);
    let back = per_state(sts, |s: ServiceState| dns_back(s));
    lemma_per_state_contains(sts, |s: ServiceState| dns_back(s), i, 0);
    let y = dns_back(st)[0];
    let m = choose|m: int| 0 <= m < back.len() && back[m] == y;
    let conf = dir + "/dnsmasq.conf"@;
    let pre = (match pid {
        Some(p) => seq![run_root("kill"@, seq![trim(p)]), ActionView::RemoveFile(dir + "/dnsmasq.pid"@)],
        None => Seq::empty(),
    }) + seq![run_root("/usr/bin/pkill"@, seq!["-f"@, "dnsmasq.*"@ + conf])];
    assert(dns_leak_disable_plan(dir, pid, sts) == pre + back);
    assert((pre + back)[pre.len() + m] == y);
}

} // verus!

verus! {

/// Where a dnsmasq binary is looked for, in order.
pub open spec fn dnsmasq_locations() -> Seq<Seq<char>> {
    seq!["/opt/homebrew/sbin/dnsmasq"@, "/usr/local/sbin/dnsmasq"@, "/usr/sbin/dnsmasq"@]
}

pub fn dnsmasq_candidates() -> (r: Vec<String>)
    ensures
        string_views(r@) == dnsmasq_locations(),
{
    let r = vec![owned("/opt/homebrew/sbin/dnsmasq"), owned("/usr/local/sbin/dnsmasq"), owned("/usr/sbin/dnsmasq")];
    assert(string_views(r@) =~= dnsmasq_locations());
    r
}

} // verus!

verus! {

pub(crate) proof fn lemma_lines_cons(l: Seq<char>, rest: Seq<char>)
    requires
        forall|k: int| 0 <= k < l.len() ==> l[k] != '\n',
        l.len() > 0 && l.last() != '\r',
    ensures
        crate::text::lines(l + seq!['\n'] + rest) == seq![l] + crate::text::lines(rest),
{
    crate::text::lemma_lines_concat(l, rest);
    crate::text::lemma_lines_one(l);
}

/// The environment file, line by line: the six proxy variables, in both cases, all set to
/// Tor's SOCKS port with remote DNS, then `NO_PROXY` and `no_proxy` set to the bypass
/// list (one without line breaks that does not end in a carriage return).
pub proof fn lemma_env_file_lines(np: Seq<char>)
    requires
        forall|k: int| 0 <= k < np.len() ==> np[k] != '\n',
        np.len() == 0 || np.last() != '\r',
    ensures
        crate::text::lines(env_file_text(np)) == seq![
            "export HTTP_PROXY=socks5h://127.0.0.1:9050"@,
            "export HTTPS_PROXY=socks5h://127.0.0.1:9050"@,
            "export ALL_PROXY=socks5h://127.0.0.1:9050"@,
            "export http_proxy=socks5h://127.0.0.1:9050"@,
            "export https_proxy=socks5h://127.0.0.1:9050"@,
            "export all_proxy=socks5h://127.0.0.1:9050"@,
            "export NO_PROXY="@ + np,
            "export no_proxy="@ + np,
        ],
{
    let l1 = "export HTTP_PROXY=socks5h://127.0.0.1:9050"@;
    let l2 = "export HTTPS_PROXY=socks5h://127.0.0.1:9050"@;
    let l3 = "export ALL_PROXY=socks5h://127.0.0.1:9050"@;
    let l4 = "export http_proxy=socks5h://127.0.0.1:9050"@;
    let l5 = "export https_proxy=socks5h://127.0.0.1:9050"@;
    let l6 = "export all_proxy=socks5h://127.0.0.1:9050"@;
    let l7 = "export NO_PROXY="@ + np;
    let l8 = "export no_proxy="@ + np;
    reveal_strlit("export HTTP_PROXY=socks5h://127.0.0.1:9050");
    reveal_strlit("export HTTPS_PROXY=socks5h://127.0.0.1:9050");
    reveal_strlit("export ALL_PROXY=socks5h://127.0.0.1:9050");
    reveal_strlit("export http_proxy=socks5h://127.0.0.1:9050");
    reveal_strlit("export https_proxy=socks5h://127.0.0.1:9050");
    reveal_strlit("export all_proxy=socks5h://127.0.0.1:9050");
    reveal_strlit("export NO_PROXY=");
    reveal_strlit("export no_proxy=");
    reveal_strlit("export HTTP_PROXY=socks5h://127.0.0.1:9050\nexport HTTPS_PROXY=socks5h://127.0.0.1:9050\nexport ALL_PROXY=socks5h://127.0.0.1:9050\nexport http_proxy=socks5h://127.0.0.1:9050\nexport https_proxy=socks5h://127.0.0.1:9050\nexport all_proxy=socks5h://127.0.0.1:9050\nexport NO_PROXY=");
    reveal_strlit("\nexport no_proxy=");
    let nl = seq!['\n'];
    let t = env_file_text(np);
    let r8 = l8 + nl;
    let r7 = l7 + nl + r8;
    let r6 = l6 + nl + r7;
    let r5 = l5 + nl + r6;
    let r4 = l4 + nl + r5;
    let r3 = l3 + nl + r4;
    let r2 = l2 + nl + r3;
    let r1 = l1 + nl + r2;
    assert(t =~= r1);
    assert forall|k: int| 0 <= k < l7.len() implies l7[k] != '\n' by {
        if k >= 16 {
            assert(l7[k] == np[k - 16]);
        }
    }
    assert forall|k: int| 0 <= k < l8.len() implies l8[k] != '\n' by {
        if k >= 16 {
            assert(l8[k] == np[k - 16]);
        }
    }
    assert(l7.last() != '\r');
    assert(l8.last() != '\r');
    crate::text::lemma_lines_one(l8);
    lemma_lines_cons(l7, r8);
    lemma_lines_cons(l6, r7);
    lemma_lines_cons(l5, r6);
    lemma_lines_cons(l4, r5);
    lemma_lines_cons(l3, r4);
    lemma_lines_cons(l2, r3);
    lemma_lines_cons(l1, r2);
    assert(crate::text::lines(t) =~= seq![l1, l2, l3, l4, l5, l6, l7, l8]);
}

} // verus!

verus! {

/// Whatever the bypass list, the environment file exports each of `HTTP_PROXY`,
/// `HTTPS_PROXY`, `ALL_PROXY`, `http_proxy`, `https_proxy` and `all_proxy` as Tor's SOCKS
/// port with remote DNS, each on a line of its own, and sets `NO_PROXY` and `no_proxy` to
/// the list.
pub proof fn lemma_env_file_exports(np: Seq<char>)
    ensures
        crate::text::contains(env_file_text(np), "export HTTP_PROXY=socks5h://127.0.0.1:9050\n"@),
        crate::text::contains(env_file_text(np), "export HTTPS_PROXY=socks5h://127.0.0.1:9050\n"@),
        crate::text::contains(env_file_text(np), "export ALL_PROXY=socks5h://127.0.0.1:9050\n"@),
        crate::text::contains(env_file_text(np), "export http_proxy=socks5h://127.0.0.1:9050\n"@),
        crate::text::contains(env_file_text(np), "export https_proxy=socks5h://127.0.0.1:9050\n"@),
        crate::text::contains(env_file_text(np), "export all_proxy=socks5h://127.0.0.1:9050\n"@),
        crate::text::contains(env_file_text(np), "export NO_PROXY="@ + np + seq!['\n']),
        crate::text::contains(env_file_text(np), "\nexport no_proxy="@ + np + seq!['\n']),
{
    reveal_strlit("export HTTP_PROXY=socks5h://127.0.0.1:9050\nexport HTTPS_PROXY=socks5h://127.0.0.1:9050\nexport ALL_PROXY=socks5h://127.0.0.1:9050\nexport http_proxy=socks5h://127.0.0.1:9050\nexport https_proxy=socks5h://127.0.0.1:9050\nexport all_proxy=socks5h://127.0.0.1:9050\nexport NO_PROXY=");
    reveal_strlit("export HTTP_PROXY=socks5h://127.0.0.1:9050\n");
    reveal_strlit("export HTTPS_PROXY=socks5h://127.0.0.1:9050\n");
    reveal_strlit("export ALL_PROXY=socks5h://127.0.0.1:9050\n");
    reveal_strlit("export http_proxy=socks5h://127.0.0.1:9050\n");
    reveal_strlit("export https_proxy=socks5h://127.0.0.1:9050\n");
    reveal_strlit("export all_proxy=socks5h://127.0.0.1:9050\n");
    reveal_strlit("export NO_PROXY=");
    reveal_strlit("\nexport no_proxy=");
    let t = env_file_text(np);
    let head = "export HTTP_PROXY=socks5h://127.0.0.1:9050\nexport HTTPS_PROXY=socks5h://127.0.0.1:9050\nexport ALL_PROXY=socks5h://127.0.0.1:9050\nexport http_proxy=socks5h://127.0.0.1:9050\nexport https_proxy=socks5h://127.0.0.1:9050\nexport all_proxy=socks5h://127.0.0.1:9050\nexport NO_PROXY="@;
    let tail = "\nexport no_proxy="@ + np + seq!['\n'];
    assert(t =~= head + np + tail);
    assert(t.subrange(0, 43) =~= "export HTTP_PROXY=socks5h://127.0.0.1:9050\n"@);
    assert(crate::text::occurs_at(t, "export HTTP_PROXY=socks5h://127.0.0.1:9050\n"@, 0));
    assert(t.subrange(43, 87) =~= "export HTTPS_PROXY=socks5h://127.0.0.1:9050\n"@);
    assert(crate::text::occurs_at(t, "export HTTPS_PROXY=socks5h://127.0.0.1:9050\n"@, 43));
    assert(t.subrange(87, 129) =~= "export ALL_PROXY=socks5h://127.0.0.1:9050\n"@);
    assert(crate::text::occurs_at(t, "export ALL_PROXY=socks5h://127.0.0.1:9050\n"@, 87));
    assert(t.subrange(129, 172) =~= "export http_proxy=socks5h://127.0.0.1:9050\n"@);
    assert(crate::text::occurs_at(t, "export http_proxy=socks5h://127.0.0.1:9050\n"@, 129));
    assert(t.subrange(172, 216) =~= "export https_proxy=socks5h://127.0.0.1:9050\n"@);
    assert(crate::text::occurs_at(t, "export https_proxy=socks5h://127.0.0.1:9050\n"@, 172));
    assert(t.subrange(216, 258) =~= "export all_proxy=socks5h://127.0.0.1:9050\n"@);
    assert(crate::text::occurs_at(t, "export all_proxy=socks5h://127.0.0.1:9050\n"@, 216));
    assert(head.len() == 274);
    let a = "export NO_PROXY="@ + np + seq!['\n'];
    assert(t.subrange(258, 274 + np.len() as int + 1) =~= a);
    assert(crate::text::occurs_at(t, a, 258));
    assert(t.subrange(274 + np.len() as int, t.len() as int) =~= tail);
    assert(crate::text::occurs_at(t, tail, 274 + np.len() as int));
}

} // verus!

verus! {

/// When `f` gives, for any service other than `svc`, only actions that leave `svc`, and
/// `f(svc)` always leaves `svc` with a property, the plan for a list holding `svc` does too.
proof fn lemma_per_service_sets(
    s: crate::netstate::ServiceSettings,
    svcs: Seq<Seq<char>>,
    f: spec_fn(Seq<char>) -> Seq<ActionView>,
    svc: Seq<char>,
    good: spec_fn(crate::netstate::ServiceSettings) -> bool,
)
    requires
        svcs.contains(svc),
        forall|x: Seq<char>, k: int| x != svc && 0 <= k < f(x).len() ==> crate::netstate::leaves(svc, #[trigger] f(x)[k]),
        forall|t: crate::netstate::ServiceSettings| #[trigger] good(crate::netstate::settings_after(t, svc, f(svc))),
    ensures
        good(crate::netstate::settings_after(s, svc, per_service(svcs, f))),
    decreases svcs.len(),
{
    let d = svcs.drop_last();
    let q = f(svcs.last());
    let before = per_service(d, f);
    assert(per_service(svcs, f) == before + q);
    crate::netstate::lemma_settings_after_concat(s, svc, before, q);
    let t = crate::netstate::settings_after(s, svc, before);
    if svcs.last() == svc {
        assert(good(crate::netstate::settings_after(t, svc, f(svc))));
    } else {
        let k = choose|k: int| 0 <= k < svcs.len() && svcs[k] == svc;
        assert(k < svcs.len() - 1);
        assert(d[k] == svc);
        lemma_per_service_sets(s, d, f, svc, good);
        assert forall|j: int| 0 <= j < q.len() implies crate::netstate::leaves(svc, #[trigger] q[j]) by {
            assert(crate::netstate::leaves(svc, f(svcs.last())[j]));
        }
        crate::netstate::lemma_settings_untouched(t, svc, q);
    }
}

proof fn lemma_commands_differ()
    ensures
        "-setsocksfirewallproxy"@ != "-setsocksfirewallproxystate"@,
        "-setproxybypassdomains"@ != "-setsocksfirewallproxy"@,
        "-setproxybypassdomains"@ != "-setsocksfirewallproxystate"@,
        "-setv6off"@ != "-setsocksfirewallproxy"@,
        "-setv6off"@ != "-setsocksfirewallproxystate"@,
        "-setv6off"@ != "-setproxybypassdomains"@,
        "-setdnsservers"@ != "-setsocksfirewallproxy"@,
        "-setdnsservers"@ != "-setsocksfirewallproxystate"@,
        "-setdnsservers"@ != "-setproxybypassdomains"@,
        "-setdnsservers"@ != "-setv6off"@,
        "-setdnsservers"@ != "-setv6automatic"@,
        "-setdnsservers"@ != "-setv6manual"@,
        "on"@ != "off"@,
        "localhost, 127.0.0.1"@ != "Empty"@,
        "localhost, 127.0.0.1, *.spotify.com, *.scdn.co, *.spotilocal.com, *.pscdn.co"@ != "Empty"@,
        "127.0.0.1"@ != "empty"@,
{
    reveal_strlit("-setsocksfirewallproxy");
    reveal_strlit("-setsocksfirewallproxystate");
    reveal_strlit("-setproxybypassdomains");
    reveal_strlit("-setv6off");
    reveal_strlit("-setv6automatic");
    reveal_strlit("-setv6manual");
    reveal_strlit("-setdnsservers");
    reveal_strlit("on");
    reveal_strlit("off");
    reveal_strlit("Empty");
    reveal_strlit("empty");
    reveal_strlit("127.0.0.1");
    reveal_strlit("localhost, 127.0.0.1");
    reveal_strlit("localhost, 127.0.0.1, *.spotify.com, *.scdn.co, *.spotilocal.com, *.pscdn.co");
    assert("-setsocksfirewallproxy"@.len() == 22 && "-setsocksfirewallproxystate"@.len() == 27);
    assert("-setproxybypassdomains"@.len() == 22 && "-setproxybypassdomains"@[4] == 'p');
    assert("-setsocksfirewallproxy"@[4] == 's');
    assert("-setv6off"@.len() == 9 && "-setdnsservers"@.len() == 14);
    assert("-setv6automatic"@.len() == 15 && "-setv6manual"@.len() == 12);
    assert("on"@.len() == 2 && "off"@.len() == 3);
    assert("Empty"@.len() == 5 && "empty"@.len() == 5 && "127.0.0.1"@.len() == 9);
    assert("localhost, 127.0.0.1"@.len() == 20);
    assert("localhost, 127.0.0.1, *.spotify.com, *.scdn.co, *.spotilocal.com, *.pscdn.co"@.len() == 76);
}

/// Connecting routes every network service through Tor: after the proxy plan a listed
/// service has its SOCKS proxy on, at 127.0.0.1 port 9050, with only localhost (and,
/// with the Spotify bypass, Spotify's domains) skipping it; after the IPv6 plan its IPv6
/// is off; after the DNS plan (with dnsmasq found) its only DNS server is 127.0.0.1.
pub proof fn lemma_services_routed(
    s: crate::netstate::ServiceSettings,
    svcs: Seq<Seq<char>>,
    svc: Seq<char>,
    spotify: bool,
    dir: Seq<char>,
    bin: Seq<char>,
)
    requires
        svcs.contains(svc),
    ensures
        ({
            let t = crate::netstate::settings_after(s, svc, per_service(svcs, |x: Seq<char>| proxy_on(x, spotify)));
            &&& t.socks_on
            &&& t.server == "127.0.0.1"@
            &&& t.port == "9050"@
            &&& t.bypass == seq![
                if spotify {
                    "localhost, 127.0.0.1, *.spotify.com, *.scdn.co, *.spotilocal.com, *.pscdn.co"@
                } else {
                    "localhost, 127.0.0.1"@
                },
            ]
        }),
        crate::netstate::settings_after(s, svc, per_service(svcs, |x: Seq<char>| ipv6_off(x))).ipv6
            == crate::netstate::Ipv6ModeView::Off,
        crate::netstate::settings_after(s, svc, dns_leak_enable_plan(dir, Some(bin), svcs)).dns == seq!["127.0.0.1"@],
{
    lemma_commands_differ();
    let bt = bypass_text(spotify);
    let fp = |x: Seq<char>| proxy_on(x, spotify);
    let gp = |t: crate::netstate::ServiceSettings|
        t.socks_on && t.server == "127.0.0.1"@ && t.port == "9050"@ && t.bypass == seq![bt];
    assert forall|t: crate::netstate::ServiceSettings| #[trigger] gp(crate::netstate::settings_after(t, svc, fp(svc))) by {
        let a = proxy_on(svc, spotify);
        assert(a =~= seq![a[0]] + (seq![a[1]] + seq![a[2]]));
        crate::netstate::lemma_settings_after_concat(t, svc, seq![a[0]], seq![a[1]] + seq![a[2]]);
        crate::netstate::lemma_one(t, svc, a[0]);
        let t1 = crate::netstate::setting_effect(t, svc, a[0]);
        crate::netstate::lemma_settings_after_concat(t1, svc, seq![a[1]], seq![a[2]]);
        crate::netstate::lemma_one(t1, svc, a[1]);
        let t2 = crate::netstate::setting_effect(t1, svc, a[1]);
        crate::netstate::lemma_one(t2, svc, a[2]);
        assert(seq!["-setproxybypassdomains"@, svc, bt].skip(2) =~= seq![bt]);
        assert(t1.server == "127.0.0.1"@ && t1.port == "9050"@);
        assert(t2.socks_on && t2.server == t1.server && t2.port == t1.port);
        let t3 = crate::netstate::setting_effect(t2, svc, a[2]);
        assert(seq![bt][0] != seq!["Empty"@][0]);
        assert(t3.bypass == seq![bt]);
        assert(crate::netstate::settings_after(t, svc, a) == t3);
    }
    lemma_per_service_sets(s, svcs, fp, svc, gp);
    let fi = |x: Seq<char>| ipv6_off(x);
    let gi = |t: crate::netstate::ServiceSettings| t.ipv6 == crate::netstate::Ipv6ModeView::Off;
    assert forall|t: crate::netstate::ServiceSettings| #[trigger] gi(crate::netstate::settings_after(t, svc, fi(svc))) by {
        crate::netstate::lemma_one(t, svc, ipv6_off(svc)[0]);
    }
    lemma_per_service_sets(s, svcs, fi, svc, gi);
    let fd = |x: Seq<char>| dns_local(x);
    let gd = |t: crate::netstate::ServiceSettings| t.dns == seq!["127.0.0.1"@];
    assert forall|t: crate::netstate::ServiceSettings| #[trigger] gd(crate::netstate::settings_after(t, svc, fd(svc))) by {
        crate::netstate::lemma_one(t, svc, dns_local(svc)[0]);
        assert(seq!["-setdnsservers"@, svc, "127.0.0.1"@].skip(2) =~= seq!["127.0.0.1"@]);
        assert(seq!["127.0.0.1"@][0] != seq!["empty"@][0]);
        assert(crate::netstate::given_list(seq!["127.0.0.1"@], "empty"@) == seq!["127.0.0.1"@]);
        assert(crate::netstate::setting_effect(t, svc, dns_local(svc)[0]).dns == seq!["127.0.0.1"@]);
    }
    lemma_per_service_sets(s, svcs, fd, svc, gd);
    let conf = dir + "/dnsmasq.conf"@;
    let pre = seq![ActionView::WriteFile(conf, dnsmasq_conf_text(dir + "/dnsmasq.pid"@))] + seq![run_root(bin, seq!["-C"@, conf])];
    assert(dns_leak_enable_plan(dir, Some(bin), svcs) == pre + per_service(svcs, fd));
    crate::netstate::lemma_settings_after_concat(s, svc, pre, per_service(svcs, fd));
    assert(crate::helper::TS_HELPER@ != "networksetup"@) by {
        reveal_strlit("networksetup");
        reveal_strlit("/usr/local/bin/ts_helper");
        assert(crate::helper::TS_HELPER@[0] != ("networksetup"@)[0]);
    }
    assert forall|k: int| 0 <= k < pre.len() implies crate::netstate::leaves(svc, #[trigger] pre[k]) by {}
    crate::netstate::lemma_settings_untouched(s, svc, pre);
}

} // verus!

verus! {

/// dnsmasq's configuration line by line, for a pid file path without line breaks that
/// does not end in a carriage return: no system resolvers, every query forwarded to
/// Tor's DNS port 9053, listening on 127.0.0.1 port 53, and the pid file.
pub proof fn lemma_dnsmasq_conf_lines(pid_file: Seq<char>)
    requires
        forall|k: int| 0 <= k < pid_file.len() ==> pid_file[k] != '\n',
        pid_file.len() == 0 || pid_file.last() != '\r',
    ensures
        crate::text::lines(dnsmasq_conf_text(pid_file)) == seq![
            "no-resolv"@,
            "server=127.0.0.1#9053"@,
            "listen-address=127.0.0.1"@,
            "port=53"@,
            "pid-file="@ + pid_file,
        ],
{
    reveal_strlit("no-resolv\nserver=127.0.0.1#9053\nlisten-address=127.0.0.1\nport=53\npid-file=");
    reveal_strlit("no-resolv");
    reveal_strlit("server=127.0.0.1#9053");
    reveal_strlit("listen-address=127.0.0.1");
    reveal_strlit("port=53");
    reveal_strlit("pid-file=");
    let nl = seq!['\n'];
    let l1 = "no-resolv"@;
    let l2 = "server=127.0.0.1#9053"@;
    let l3 = "listen-address=127.0.0.1"@;
    let l4 = "port=53"@;
    let l5 = "pid-file="@ + pid_file;
    let r5 = l5 + nl;
    let r4 = l4 + nl + r5;
    let r3 = l3 + nl + r4;
    let r2 = l2 + nl + r3;
    let r1 = l1 + nl + r2;
    assert(dnsmasq_conf_text(pid_file) =~= r1);
    assert forall|k: int| 0 <= k < l1.len() implies l1[k] != '\n' by { assert(0 <= k < 9); }
    assert forall|k: int| 0 <= k < l2.len() implies l2[k] != '\n' by { assert(0 <= k < 21); }
    assert forall|k: int| 0 <= k < l3.len() implies l3[k] != '\n' by { assert(0 <= k < 24); }
    assert forall|k: int| 0 <= k < l4.len() implies l4[k] != '\n' by { assert(0 <= k < 7); }
    assert forall|k: int| 0 <= k < l5.len() implies l5[k] != '\n' by {
        if k >= 9 {
            assert(l5[k] == pid_file[k - 9]);
        }
    }
    assert(l1.last() == 'v' && l2.last() == '3' && l3.last() == '1' && l4.last() == '3');
    assert(l5.last() != '\r');
    crate::text::lemma_lines_one(l5);
    lemma_lines_cons(l4, r5);
    lemma_lines_cons(l3, r4);
    lemma_lines_cons(l2, r3);
    lemma_lines_cons(l1, r2);
    assert(crate::text::lines(dnsmasq_conf_text(pid_file)) =~= seq![l1, l2, l3, l4, l5]);
}

} // verus!

verus! {

/// Turning the proxy variables off undoes turning them on: it removes the very file
/// that enabling writes and that the shell hook sources, and clears from launchd each
/// variable that file exports.
pub proof fn lemma_env_disable_undoes_enable(dir: Seq<char>, np: Seq<char>)
    ensures
        crate::text::contains(env_hook_text(env_file_path_text(dir)), "source \""@ + env_file_path_text(dir) + "\""@),
        env_inject_disable_plan(dir)[0] == ActionView::RemoveFile(dir + "/env.sh"@),
        env_file_path_text(dir) == dir + "/env.sh"@,
        crate::text::contains(env_file_text(np), "export HTTP_PROXY="@) && env_inject_disable_plan(dir).contains(
            run("launchctl"@, seq!["unsetenv"@, "HTTP_PROXY"@]),
        ),
        crate::text::contains(env_file_text(np), "export HTTPS_PROXY="@) && env_inject_disable_plan(dir).contains(
            run("launchctl"@, seq!["unsetenv"@, "HTTPS_PROXY"@]),
        ),
        crate::text::contains(env_file_text(np), "export ALL_PROXY="@) && env_inject_disable_plan(dir).contains(
            run("launchctl"@, seq!["unsetenv"@, "ALL_PROXY"@]),
        ),
        crate::text::contains(env_file_text(np), "export http_proxy="@) && env_inject_disable_plan(dir).contains(
            run("launchctl"@, seq!["unsetenv"@, "http_proxy"@]),
        ),
        crate::text::contains(env_file_text(np), "export https_proxy="@) && env_inject_disable_plan(dir).contains(
            run("launchctl"@, seq!["unsetenv"@, "https_proxy"@]),
        ),
        crate::text::contains(env_file_text(np), "export all_proxy="@) && env_inject_disable_plan(dir).contains(
            run("launchctl"@, seq!["unsetenv"@, "all_proxy"@]),
        ),
        crate::text::contains(env_file_text(np), "export NO_PROXY="@) && env_inject_disable_plan(dir).contains(
            run("launchctl"@, seq!["unsetenv"@, "NO_PROXY"@]),
        ),
        crate::text::contains(env_file_text(np), "export no_proxy="@) && env_inject_disable_plan(dir).contains(
            run("launchctl"@, seq!["unsetenv"@, "no_proxy"@]),
        ),
{
    let t = env_file_text(np);
    let d = env_inject_disable_plan(dir);
    reveal_strlit("export HTTP_PROXY=socks5h://127.0.0.1:9050\nexport HTTPS_PROXY=socks5h://127.0.0.1:9050\nexport ALL_PROXY=socks5h://127.0.0.1:9050\nexport http_proxy=socks5h://127.0.0.1:9050\nexport https_proxy=socks5h://127.0.0.1:9050\nexport all_proxy=socks5h://127.0.0.1:9050\nexport NO_PROXY=");
    reveal_strlit("\nexport no_proxy=");
    reveal_strlit("export HTTP_PROXY=");
    reveal_strlit("export HTTPS_PROXY=");
    reveal_strlit("export ALL_PROXY=");
    reveal_strlit("export http_proxy=");
    reveal_strlit("export https_proxy=");
    reveal_strlit("export all_proxy=");
    reveal_strlit("export NO_PROXY=");
    reveal_strlit("export no_proxy=");
    let head = "export HTTP_PROXY=socks5h://127.0.0.1:9050\nexport HTTPS_PROXY=socks5h://127.0.0.1:9050\nexport ALL_PROXY=socks5h://127.0.0.1:9050\nexport http_proxy=socks5h://127.0.0.1:9050\nexport https_proxy=socks5h://127.0.0.1:9050\nexport all_proxy=socks5h://127.0.0.1:9050\nexport NO_PROXY="@;
    let tail = "\nexport no_proxy="@ + np + seq!['\n'];
    assert(t =~= head + np + tail);
    assert(t.subrange(0, 18) =~= "export HTTP_PROXY="@);
    assert(crate::text::occurs_at(t, "export HTTP_PROXY="@, 0));
    assert(t.subrange(43, 62) =~= "export HTTPS_PROXY="@);
    assert(crate::text::occurs_at(t, "export HTTPS_PROXY="@, 43));
    assert(t.subrange(87, 104) =~= "export ALL_PROXY="@);
    assert(crate::text::occurs_at(t, "export ALL_PROXY="@, 87));
    assert(t.subrange(129, 147) =~= "export http_proxy="@);
    assert(crate::text::occurs_at(t, "export http_proxy="@, 129));
    assert(t.subrange(172, 191) =~= "export https_proxy="@);
    assert(crate::text::occurs_at(t, "export https_proxy="@, 172));
    assert(t.subrange(216, 233) =~= "export all_proxy="@);
    assert(crate::text::occurs_at(t, "export all_proxy="@, 216));
    assert(t.subrange(258, 274) =~= "export NO_PROXY="@);
    assert(crate::text::occurs_at(t, "export NO_PROXY="@, 258));
    assert(t.subrange(274 + np.len() as int + 1, 274 + np.len() as int + 17) =~= "export no_proxy="@);
    assert(crate::text::occurs_at(t, "export no_proxy="@, 274 + np.len() as int + 1));
    assert(d[1] == run("launchctl"@, seq!["unsetenv"@, "HTTP_PROXY"@]));
    assert(d[2] == run("launchctl"@, seq!["unsetenv"@, "HTTPS_PROXY"@]));
    assert(d[3] == run("launchctl"@, seq!["unsetenv"@, "ALL_PROXY"@]));
    assert(d[4] == run("launchctl"@, seq!["unsetenv"@, "http_proxy"@]));
    assert(d[5] == run("launchctl"@, seq!["unsetenv"@, "https_proxy"@]));
    assert(d[6] == run("launchctl"@, seq!["unsetenv"@, "all_proxy"@]));
    assert(d[7] == run("launchctl"@, seq!["unsetenv"@, "NO_PROXY"@]));
    assert(d[8] == run("launchctl"@, seq!["unsetenv"@, "no_proxy"@]));
    let e = env_file_path_text(dir);
    let h = env_hook_text(e);
    let src = "source \""@ + e + "\""@;
    reveal_strlit("# TorShield-env-begin");
    reveal_strlit("\n[ -f \"");
    reveal_strlit("\" ] && source \"");
    reveal_strlit("source \"");
    reveal_strlit("\"");
    reveal_strlit("\"\n");
    let k: int = 1 + 21 + 7 + e.len() as int + 7;
    assert(h.subrange(k, k + src.len()) =~= src);
    assert(crate::text::occurs_at(h, src, k));
}

} // verus!
