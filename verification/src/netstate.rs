use vstd::prelude::*;
use crate::helper::{Action, ActionView, action_views, push_action, run, string_views, text_or_empty, bytes_view, ShellCommand};
use crate::text::{
    owned, chars_of, string_of, views, lines, lines_of, trim, trim_chars, starts_with, starts_with_chars, contains,
    contains_chars, slice_chars,
};

verus! {

/// How a network service's IPv6 was configured.
#[derive(Debug)]
pub enum Ipv6Mode {
    Automatic,
    Off,
    Manual { address: String, prefix: String, router: String },
    /// Not reported in a form that can be set again.
    Unknown,
}

/// A network service's settings before TorShield changed them, as `networksetup`
/// reported them.
#[derive(Debug)]
pub struct ServiceState {
    pub service: String,
    pub socks_enabled: bool,
    pub socks_server: String,
    pub socks_port: String,
    pub bypass: Vec<String>,
    pub ipv6: Ipv6Mode,
    pub dns: Vec<String>,
}

/// The trimmed rest of the first line that starts with `key`.
pub open spec fn line_field(ls: Seq<Seq<char>>, key: Seq<char>) -> Option<Seq<char>>
    decreases ls.len(),
{
    if ls.len() == 0 {
        None
    } else if starts_with(ls[0], key) {
        Some(trim(ls[0].skip(key.len() as int)))
    } else {
        line_field(ls.drop_first(), key)
    }
}

/// A field of a command's output, empty when the command did not run, printed no
/// UTF-8, or has no such line.
pub open spec fn field_of(out: Option<Seq<u8>>, key: Seq<char>) -> Seq<char> {
    match line_field(lines(text_or_empty(out)), key) {
        Some(v) => v,
        None => Seq::empty(),
    }
}

/// The trimmed, non-empty lines.
pub open spec fn entries(ls: Seq<Seq<char>>) -> Seq<Seq<char>>
    decreases ls.len(),
{
    if ls.len() == 0 {
        Seq::empty()
    } else if trim(ls.last()).len() == 0 {
        entries(ls.drop_last())
    } else {
        entries(ls.drop_last()).push(trim(ls.last()))
    }
}

/// The entries `networksetup` lists one per line (`-getproxybypassdomains`,
/// `-getdnsservers`); none when it says there aren't any.
pub open spec fn listed(out: Option<Seq<u8>>) -> Seq<Seq<char>> {
    let t = text_or_empty(out);
    if contains(t, "There aren't any"@) {
        Seq::empty()
    } else {
        entries(lines(t))
    }
}

fn text_lines(out: Option<&[u8]>) -> (r: Vec<Vec<char>>)
    ensures
        views(r@) == lines(text_or_empty(bytes_view(out))),
{
    let t: Vec<char> = match out {
        Some(b) => match crate::text::output_chars(b) {
            Some(v) => v,
            None => Vec::new(),
        },
        None => Vec::new(),
    };
    lines_of(&t)
}

/// The value of the field `key` in a command's output.
pub fn field_value(out: Option<&[u8]>, key: &str) -> (r: String)
    ensures
        r@ == field_of(bytes_view(out), key@),
{
    let ls = text_lines(out);
    let k = chars_of(key);
    let n = ls.len();
    let ghost all = views(ls@);
    assert(all.skip(0) =~= all);
    for i in 0..n
        invariant
            n == ls@.len(),
            all == views(ls@),
            all == lines(text_or_empty(bytes_view(out))),
            k@ == key@,
            line_field(all, key@) == line_field(all.skip(i as int), key@),
    {
        assert(all.skip(i as int)[0] == ls@[i as int]@);
        assert(all.skip(i as int).drop_first() =~= all.skip(i + 1));
        if starts_with_chars(&ls[i], &k) {
            let rest = slice_chars(&ls[i], k.len(), ls[i].len());
            assert(rest@ =~= ls@[i as int]@.skip(key@.len() as int));
            return string_of(&trim_chars(&rest));
        }
    }
    assert(all.skip(n as int) =~= Seq::<Seq<char>>::empty());
    String::new()
}

/// The entries of a `networksetup` listing.
pub fn listed_values(out: Option<&[u8]>) -> (r: Vec<String>)
    ensures
        string_views(r@) == listed(bytes_view(out)),
{
    let t: Vec<char> = match out {
        Some(b) => match crate::text::output_chars(b) {
            Some(v) => v,
            None => Vec::new(),
        },
        None => Vec::new(),
    };
    let mut r: Vec<String> = Vec::new();
    if contains_chars(&t, &chars_of("There aren't any")) {
        assert(string_views(r@) =~= Seq::<Seq<char>>::empty());
        return r;
    }
    let ls = lines_of(&t);
    let n = ls.len();
    let ghost all = views(ls@);
    for i in 0..n
        invariant
            n == ls@.len(),
            all == views(ls@),
            string_views(r@) == entries(all.take(i as int)),
    {
        assert(all.take(i + 1).drop_last() =~= all.take(i as int));
        assert(all.take(i + 1).last() == ls@[i as int]@);
        let e = trim_chars(&ls[i]);
        if e.len() > 0 {
            let ghost before = string_views(r@);
            r.push(string_of(&e));
            assert(string_views(r@) =~= before.push(e@));
        }
    }
    assert(all.take(n as int) =~= all);
    r
}

/// What the lines of `networksetup -getinfo` say of IPv6.
pub enum Ipv6ModeView {
    Automatic,
    Off,
    Manual(Seq<char>, Seq<char>, Seq<char>),
    Unknown,
}

pub open spec fn ipv6_view(m: Ipv6Mode) -> Ipv6ModeView {
    match m {
        Ipv6Mode::Automatic => Ipv6ModeView::Automatic,
        Ipv6Mode::Off => Ipv6ModeView::Off,
        Ipv6Mode::Manual { address, prefix, router } => Ipv6ModeView::Manual(address@, prefix@, router@),
        Ipv6Mode::Unknown => Ipv6ModeView::Unknown,
    }
}

/// IPv6 as `networksetup -getinfo` reports it: `IPv6: Automatic`, `IPv6: Off`, or
/// `IPv6: Manual` with its address, prefix length and router.
pub open spec fn ipv6_of(info: Option<Seq<u8>>) -> Ipv6ModeView {
    let mode = field_of(info, "IPv6:"@);
    if mode == "Automatic"@ {
        Ipv6ModeView::Automatic
    } else if mode == "Off"@ {
        Ipv6ModeView::Off
    } else if mode == "Manual"@ {
        let a = field_of(info, "IPv6 IP address:"@);
        let p = field_of(info, "IPv6 Prefix Length:"@);
        let r = field_of(info, "IPv6 Router:"@);
        if a.len() > 0 && p.len() > 0 && r.len() > 0 {
            Ipv6ModeView::Manual(a, p, r)
        } else {
            Ipv6ModeView::Unknown
        }
    } else {
        Ipv6ModeView::Unknown
    }
}

/// The IPv6 configuration in the output of `networksetup -getinfo <service>`.
pub fn ipv6_mode(info: Option<&[u8]>) -> (r: Ipv6Mode)
    ensures
        ipv6_view(r) == ipv6_of(bytes_view(info)),
{
    let mode = chars_of(field_value(info, "IPv6:").as_str());
    if crate::text::eq_chars(&mode, &chars_of("Automatic")) {
        Ipv6Mode::Automatic
    } else if crate::text::eq_chars(&mode, &chars_of("Off")) {
        Ipv6Mode::Off
    } else if crate::text::eq_chars(&mode, &chars_of("Manual")) {
        let a = field_value(info, "IPv6 IP address:");
        let p = field_value(info, "IPv6 Prefix Length:");
        let r = field_value(info, "IPv6 Router:");
        if a.as_str().unicode_len() > 0 && p.as_str().unicode_len() > 0 && r.as_str().unicode_len() > 0 {
            Ipv6Mode::Manual { address: a, prefix: p, router: r }
        } else {
            Ipv6Mode::Unknown
        }
    } else {
        Ipv6Mode::Unknown
    }
}

/// A service's settings from the outputs of `networksetup -getsocksfirewallproxy`,
/// `-getproxybypassdomains`, `-getinfo` and `-getdnsservers` for it.
pub open spec fn service_state_matches(
    st: ServiceState,
    service: Seq<char>,
    socks: Option<Seq<u8>>,
    bypass: Option<Seq<u8>>,
    info: Option<Seq<u8>>,
    dns: Option<Seq<u8>>,
) -> bool {
    &&& st.service@ == service
    &&& st.socks_enabled == (field_of(socks, "Enabled:"@) == "Yes"@)
    &&& st.socks_server@ == field_of(socks, "Server:"@)
    &&& st.socks_port@ == field_of(socks, "Port:"@)
    &&& string_views(st.bypass@) == listed(bypass)
    &&& ipv6_view(st.ipv6) == ipv6_of(info)
    &&& string_views(st.dns@) == listed(dns)
}

/// Records a service's settings from what `networksetup` printed about it.
pub fn service_state(
    service: &str,
    socks: Option<&[u8]>,
    bypass: Option<&[u8]>,
    info: Option<&[u8]>,
    dns: Option<&[u8]>,
) -> (r: ServiceState)
    ensures
        service_state_matches(r, service@, bytes_view(socks), bytes_view(bypass), bytes_view(info), bytes_view(dns)),
{
    let enabled = chars_of(field_value(socks, "Enabled:").as_str());
    ServiceState {
        service: owned(service),
        socks_enabled: crate::text::eq_chars(&enabled, &chars_of("Yes")),
        socks_server: field_value(socks, "Server:"),
        socks_port: field_value(socks, "Port:"),
        bypass: listed_values(bypass),
        ipv6: ipv6_mode(info),
        dns: listed_values(dns),
    }
}

/// A service about which nothing was recorded (after a crash): restoring it turns the
/// proxy off, clears the bypass list and DNS servers, and sets IPv6 to automatic.
pub fn unrecorded_state(service: &str) -> (r: ServiceState)
    ensures
        r.service@ == service@,
        !r.socks_enabled,
        r.socks_server@.len() == 0,
        r.bypass@.len() == 0,
        ipv6_view(r.ipv6) == Ipv6ModeView::Unknown,
        r.dns@.len() == 0,
{
    ServiceState {
        service: owned(service),
        socks_enabled: false,
        socks_server: String::new(),
        socks_port: String::new(),
        bypass: Vec::new(),
        ipv6: Ipv6Mode::Unknown,
        dns: Vec::new(),
    }
}

} // verus!

verus! {

/// `v`, or the single word `none` when `v` is empty (how `networksetup` is told to
/// clear a list).
pub open spec fn list_or(v: Seq<Seq<char>>, none: Seq<char>) -> Seq<Seq<char>> {
    if v.len() == 0 {
        seq![none]
    } else {
        v
    }
}

/// Setting a service's SOCKS proxy back: its server and port when it had one, its
/// bypass list (`Empty` when it had none), and its on/off state. A proxy that had no
/// server keeps the address TorShield gave it, switched off.
pub open spec fn proxy_back(st: ServiceState) -> Seq<ActionView> {
    let svc = st.service@;
    (if st.socks_server@.len() > 0 {
        seq![run("networksetup"@, seq!["-setsocksfirewallproxy"@, svc, st.socks_server@, st.socks_port@])]
    } else {
        Seq::empty()
    }) + seq![
        run("networksetup"@, seq!["-setproxybypassdomains"@, svc] + list_or(string_views(st.bypass@), "Empty"@)),
        run("networksetup"@, seq!["-setsocksfirewallproxystate"@, svc, if st.socks_enabled { "on"@ } else { "off"@ }]),
    ]
}

/// Setting a service's IPv6 back (automatic when its mode is unknown).
pub open spec fn ipv6_back(st: ServiceState) -> Seq<ActionView> {
    let svc = st.service@;
    match ipv6_view(st.ipv6) {
        Ipv6ModeView::Off => seq![run("networksetup"@, seq!["-setv6off"@, svc])],
        Ipv6ModeView::Manual(a, p, r) => seq![run("networksetup"@, seq!["-setv6manual"@, svc, a, p, r])],
        _ => seq![run("networksetup"@, seq!["-setv6automatic"@, svc])],
    }
}

/// Setting a service's DNS servers back (`empty` when it had none of its own).
pub open spec fn dns_back(st: ServiceState) -> Seq<ActionView> {
    seq![run("networksetup"@, seq!["-setdnsservers"@, st.service@] + list_or(string_views(st.dns@), "empty"@))]
}

/// The actions `f` gives for each recorded service, in order.
pub open spec fn per_state(sts: Seq<ServiceState>, f: spec_fn(ServiceState) -> Seq<ActionView>) -> Seq<ActionView>
    decreases sts.len(),
{
    if sts.len() == 0 {
        Seq::empty()
    } else {
        per_state(sts.drop_last(), f) + f(sts.last())
    }
}

pub proof fn lemma_per_state_step(sts: Seq<ServiceState>, f: spec_fn(ServiceState) -> Seq<ActionView>, i: int)
    requires
        0 <= i < sts.len(),
    ensures
        per_state(sts.take(i + 1), f) == per_state(sts.take(i), f) + f(sts[i]),
{
    assert(sts.take(i + 1).drop_last() =~= sts.take(i));
    assert(sts.take(i + 1).last() == sts[i]);
}

fn copy_strings(v: &Vec<String>) -> (r: Vec<String>)
    ensures
        string_views(r@) == string_views(v@),
{
    let mut r: Vec<String> = Vec::new();
    let n = v.len();
    for i in 0..n
        invariant
            n == v@.len(),
            string_views(r@) == string_views(v@).take(i as int),
    {
        let ghost before = string_views(r@);
        r.push(owned(v[i].as_str()));
        assert(string_views(r@) =~= before.push(v@[i as int]@));
        assert(string_views(v@).take(i + 1) =~= string_views(v@).take(i as int).push(v@[i as int]@));
    }
    assert(string_views(v@).take(n as int) =~= string_views(v@));
    r
}

/// Runs `networksetup` with `head`, then `list` (or `none` when it is empty).
fn push_networksetup(plan: &mut Vec<Action>, head: Vec<String>, list: &Vec<String>, none: &str)
    ensures
        action_views(final(plan)@) == action_views(old(plan)@).push(
            run("networksetup"@, string_views(head@) + list_or(string_views(list@), none@)),
        ),
{
    let mut args = head;
    let ghost h = string_views(args@);
    if list.len() == 0 {
        args.push(owned(none));
        assert(string_views(args@) =~= h + list_or(string_views(list@), none@));
    } else {
        let mut rest = copy_strings(list);
        let ghost t = string_views(rest@);
        args.append(&mut rest);
        assert(string_views(args@) =~= h + list_or(string_views(list@), none@));
    }
    push_action(plan, Action::Run(ShellCommand { program: owned("networksetup"), args }));
}

fn push_args(plan: &mut Vec<Action>, args: Vec<String>)
    ensures
        action_views(final(plan)@) == action_views(old(plan)@).push(run("networksetup"@, string_views(args@))),
{
    push_action(plan, Action::Run(ShellCommand { program: owned("networksetup"), args }));
}

/// Sets every recorded service's SOCKS proxy back as it was.
pub fn proxy_restore(states: &Vec<ServiceState>) -> (r: Vec<Action>)
    ensures
        action_views(r@) == per_state(states@, |s: ServiceState| proxy_back(s)),
{
    let mut plan: Vec<Action> = Vec::new();
    let n = states.len();
    for i in 0..n
        invariant
            n == states@.len(),
            action_views(plan@) == per_state(states@.take(i as int), |s: ServiceState| proxy_back(s)),
    {
        let ghost before = action_views(plan@);
        proof {
            lemma_per_state_step(states@, |s: ServiceState| proxy_back(s), i as int);
        }
        let st = &states[i];
        let svc = st.service.as_str();
        let ghost mid = before;
        if st.socks_server.as_str().unicode_len() > 0 {
            let args = vec![owned("-setsocksfirewallproxy"), owned(svc), owned(st.socks_server.as_str()), owned(st.socks_port.as_str())];
            push_args(&mut plan, args);
            assert(string_views(args@) =~= seq!["-setsocksfirewallproxy"@, svc@, st.socks_server@, st.socks_port@]);
        }
        let ghost mid2 = action_views(plan@);
        let head = vec![owned("-setproxybypassdomains"), owned(svc)];
        assert(string_views(head@) =~= seq!["-setproxybypassdomains"@, svc@]);
        push_networksetup(&mut plan, head, &st.bypass, "Empty");
        let state = if st.socks_enabled { "on" } else { "off" };
        let args = vec![owned("-setsocksfirewallproxystate"), owned(svc), owned(state)];
        assert(string_views(args@) =~= seq!["-setsocksfirewallproxystate"@, svc@, state@]);
        push_args(&mut plan, args);
        assert(action_views(plan@) =~= before + proxy_back(states@[i as int]));
    }
    assert(states@.take(n as int) =~= states@);
    plan
}

/// Sets every recorded service's IPv6 back as it was.
pub fn ipv6_restore(states: &Vec<ServiceState>) -> (r: Vec<Action>)
    ensures
        action_views(r@) == per_state(states@, |s: ServiceState| ipv6_back(s)),
{
    let mut plan: Vec<Action> = Vec::new();
    let n = states.len();
    for i in 0..n
        invariant
            n == states@.len(),
            action_views(plan@) == per_state(states@.take(i as int), |s: ServiceState| ipv6_back(s)),
    {
        let ghost before = action_views(plan@);
        proof {
            lemma_per_state_step(states@, |s: ServiceState| ipv6_back(s), i as int);
        }
        let st = &states[i];
        let svc = st.service.as_str();
        let args = match &st.ipv6 {
            Ipv6Mode::Off => {
                let a = vec![owned("-setv6off"), owned(svc)];
                assert(string_views(a@) =~= seq!["-setv6off"@, svc@]);
                a
            },
            Ipv6Mode::Manual { address, prefix, router } => {
                let a = vec![
                    owned("-setv6manual"),
                    owned(svc),
                    owned(address.as_str()),
                    owned(prefix.as_str()),
                    owned(router.as_str()),
                ];
                assert(string_views(a@) =~= seq!["-setv6manual"@, svc@, address@, prefix@, router@]);
                a
            },
            _ => {
                let a = vec![owned("-setv6automatic"), owned(svc)];
                assert(string_views(a@) =~= seq!["-setv6automatic"@, svc@]);
                a
            },
        };
        assert(seq![run("networksetup"@, string_views(args@))] =~= ipv6_back(states@[i as int]));
        push_args(&mut plan, args);
        assert(action_views(plan@) =~= before + ipv6_back(states@[i as int]));
    }
    assert(states@.take(n as int) =~= states@);
    plan
}

/// Sets every recorded service's DNS servers back as they were.
pub fn dns_restore(plan: &mut Vec<Action>, states: &Vec<ServiceState>)
    ensures
        action_views(final(plan)@) == action_views(old(plan)@) + per_state(states@, |s: ServiceState| dns_back(s)),
{
    let ghost start = action_views(plan@);
    let n = states.len();
    for i in 0..n
        invariant
            n == states@.len(),
            action_views(plan@) == start + per_state(states@.take(i as int), |s: ServiceState| dns_back(s)),
    {
        let ghost before = action_views(plan@);
        proof {
            lemma_per_state_step(states@, |s: ServiceState| dns_back(s), i as int);
        }
        let st = &states[i];
        let head = vec![owned("-setdnsservers"), owned(st.service.as_str())];
        assert(string_views(head@) =~= seq!["-setdnsservers"@, st.service@]);
        push_networksetup(plan, head, &st.dns, "empty");
        assert(action_views(plan@) =~= before + dns_back(states@[i as int]));
    }
    assert(states@.take(n as int) =~= states@);
}

} // verus!

verus! {

/// A network service's settings as `networksetup` keeps them.
pub struct ServiceSettings {
    pub socks_on: bool,
    pub server: Seq<char>,
    pub port: Seq<char>,
    pub bypass: Seq<Seq<char>>,
    pub ipv6: Ipv6ModeView,
    pub dns: Seq<Seq<char>>,
}

/// A list given to `networksetup`: the single word `none` clears it.
pub open spec fn given_list(v: Seq<Seq<char>>, none: Seq<char>) -> Seq<Seq<char>> {
    if v == seq![none] {
        Seq::empty()
    } else {
        v
    }
}

/// What one action does to the settings of service `svc`, as `networksetup`
/// documents its setters; anything else (another program, another service, files)
/// leaves them.
pub open spec fn setting_effect(s: ServiceSettings, svc: Seq<char>, a: ActionView) -> ServiceSettings {
    match a {
        ActionView::Run(prog, args) => if prog == "networksetup"@ && args.len() >= 2 && args[1] == svc {
            let cmd = args[0];
            if cmd == "-setsocksfirewallproxy"@ && args.len() >= 4 {
                ServiceSettings { server: args[2], port: args[3], ..s }
            } else if cmd == "-setsocksfirewallproxystate"@ && args.len() == 3 {
                ServiceSettings { socks_on: args[2] == "on"@, ..s }
            } else if cmd == "-setproxybypassdomains"@ {
                ServiceSettings { bypass: given_list(args.skip(2), "Empty"@), ..s }
            } else if cmd == "-setv6off"@ && args.len() == 2 {
                ServiceSettings { ipv6: Ipv6ModeView::Off, ..s }
            } else if cmd == "-setv6automatic"@ && args.len() == 2 {
                ServiceSettings { ipv6: Ipv6ModeView::Automatic, ..s }
            } else if cmd == "-setv6manual"@ && args.len() == 5 {
                ServiceSettings { ipv6: Ipv6ModeView::Manual(args[2], args[3], args[4]), ..s }
            } else if cmd == "-setdnsservers"@ {
                ServiceSettings { dns: given_list(args.skip(2), "empty"@), ..s }
            } else {
                s
            }
        } else {
            s
        },
        _ => s,
    }
}

/// The settings of `svc` after a plan.
pub open spec fn settings_after(s: ServiceSettings, svc: Seq<char>, plan: Seq<ActionView>) -> ServiceSettings
    decreases plan.len(),
{
    if plan.len() == 0 {
        s
    } else {
        settings_after(setting_effect(s, svc, plan[0]), svc, plan.drop_first())
    }
}

pub proof fn lemma_settings_after_concat(s: ServiceSettings, svc: Seq<char>, a: Seq<ActionView>, b: Seq<ActionView>)
    ensures
        settings_after(s, svc, a + b) == settings_after(settings_after(s, svc, a), svc, b),
    decreases a.len(),
{
    if a.len() > 0 {
        assert((a + b).drop_first() =~= a.drop_first() + b);
        assert((a + b)[0] == a[0]);
        lemma_settings_after_concat(setting_effect(s, svc, a[0]), svc, a.drop_first(), b);
    } else {
        assert(a + b =~= b);
    }
}

/// An action does not touch `svc` when it is not a `networksetup` call about `svc`.
pub open spec fn leaves(svc: Seq<char>, a: ActionView) -> bool {
    match a {
        ActionView::Run(prog, args) => !(prog == "networksetup"@ && args.len() >= 2 && args[1] == svc),
        _ => true,
    }
}

pub proof fn lemma_settings_untouched(s: ServiceSettings, svc: Seq<char>, plan: Seq<ActionView>)
    requires
        forall|k: int| 0 <= k < plan.len() ==> leaves(svc, #[trigger] plan[k]),
    ensures
        settings_after(s, svc, plan) == s,
    decreases plan.len(),
{
    if plan.len() > 0 {
        assert(leaves(svc, plan[0]));
        assert forall|k: int| 0 <= k < plan.drop_first().len() implies leaves(svc, #[trigger] plan.drop_first()[k]) by {
            assert(plan.drop_first()[k] == plan[k + 1]);
        }
        lemma_settings_untouched(s, svc, plan.drop_first());
    }
}

pub(crate) proof fn lemma_one(s: ServiceSettings, svc: Seq<char>, x: ActionView)
    ensures
        settings_after(s, svc, seq![x]) == setting_effect(s, svc, x),
{
    assert(seq![x].drop_first() =~= Seq::<ActionView>::empty());
    assert(seq![x][0] == x);
    let g = setting_effect(s, svc, x);
    assert(settings_after(g, svc, Seq::<ActionView>::empty()) == g);
}

/// What setting a service back leaves it with, whatever it was set to before: the
/// recorded proxy state, bypass list (unless it was the single word `Empty`), server and
/// port (when one was recorded), IPv6 mode (automatic when unknown) and DNS servers
/// (unless the single word `empty`).
pub proof fn lemma_back_sets_recorded(s: ServiceSettings, st: ServiceState)
    requires
        string_views(st.bypass@) != seq!["Empty"@],
        string_views(st.dns@) != seq!["empty"@],
    ensures
        ({
            let t = settings_after(s, st.service@, proxy_back(st));
            &&& t.socks_on == st.socks_enabled
            &&& t.bypass == string_views(st.bypass@)
            &&& st.socks_server@.len() > 0 ==> t.server == st.socks_server@ && t.port == st.socks_port@
            &&& t.ipv6 == s.ipv6
            &&& t.dns == s.dns
        }),
        settings_after(s, st.service@, ipv6_back(st)) == (ServiceSettings {
            ipv6: match ipv6_view(st.ipv6) {
                Ipv6ModeView::Unknown => Ipv6ModeView::Automatic,
                m => m,
            },
            ..s
        }),
        settings_after(s, st.service@, dns_back(st)) == (ServiceSettings { dns: string_views(st.dns@), ..s }),
{
    reveal_strlit("on");
    reveal_strlit("off");
    reveal_strlit("-setsocksfirewallproxy");
    reveal_strlit("-setsocksfirewallproxystate");
    reveal_strlit("-setproxybypassdomains");
    reveal_strlit("-setv6off");
    reveal_strlit("-setv6automatic");
    reveal_strlit("-setv6manual");
    reveal_strlit("-setdnsservers");
    let svc = st.service@;
    let b = string_views(st.bypass@);
    let d = string_views(st.dns@);
    let c1 = "-setsocksfirewallproxy"@;
    let c2 = "-setsocksfirewallproxystate"@;
    let c3 = "-setproxybypassdomains"@;
    let c4 = "-setv6off"@;
    let c5 = "-setv6automatic"@;
    let c6 = "-setv6manual"@;
    let c7 = "-setdnsservers"@;
    assert(c1.len() == 22 && c2.len() == 27 && c3.len() == 22 && c4.len() == 9 && c5.len() == 15 && c6.len() == 12
        && c7.len() == 14);
    assert(c1[4] == 's' && c2[4] == 's' && c3[4] == 'p' && c4[4] == 'v' && c5[4] == 'v' && c6[4] == 'v' && c7[4] == 'd');
    let first: Seq<ActionView> = if st.socks_server@.len() > 0 {
        seq![run("networksetup"@, seq!["-setsocksfirewallproxy"@, svc, st.socks_server@, st.socks_port@])]
    } else {
        Seq::empty()
    };
    let x1 = run("networksetup"@, seq!["-setproxybypassdomains"@, svc] + list_or(b, "Empty"@));
    let x2 = run("networksetup"@, seq!["-setsocksfirewallproxystate"@, svc, if st.socks_enabled { "on"@ } else { "off"@ }]);
    assert(proxy_back(st) == first + seq![x1, x2]);
    lemma_settings_after_concat(s, svc, first, seq![x1, x2]);
    let s1 = settings_after(s, svc, first);
    if st.socks_server@.len() > 0 {
        lemma_one(s, svc, first[0]);
    }
    assert(seq![x1, x2] =~= seq![x1] + seq![x2]);
    lemma_settings_after_concat(s1, svc, seq![x1], seq![x2]);
    lemma_one(s1, svc, x1);
    let s2 = setting_effect(s1, svc, x1);
    lemma_one(s2, svc, x2);
    assert((seq!["-setproxybypassdomains"@, svc] + list_or(b, "Empty"@)).skip(2) =~= list_or(b, "Empty"@));
    assert(given_list(list_or(b, "Empty"@), "Empty"@) == b);
    assert(("on"@).len() == 2 && ("off"@).len() == 3);
    if st.socks_server@.len() > 0 {
        assert(s1.server == st.socks_server@ && s1.port == st.socks_port@);
    } else {
        assert(first =~= Seq::<ActionView>::empty());
        assert(s1 == s);
    }
    assert(s1.ipv6 == s.ipv6 && s1.dns == s.dns);
    assert(s2.bypass == b);
    let s3 = setting_effect(s2, svc, x2);
    assert(s3.socks_on == st.socks_enabled);
    lemma_one(s, svc, ipv6_back(st)[0]);
    lemma_one(s, svc, dns_back(st)[0]);
    assert((seq!["-setdnsservers"@, svc] + list_or(d, "empty"@)).skip(2) =~= list_or(d, "empty"@));
    assert(given_list(list_or(d, "empty"@), "empty"@) == d);
}

} // verus!

verus! {

/// Each action of `f(st)` is about `st`'s service only.
pub open spec fn about_own_service(f: spec_fn(ServiceState) -> Seq<ActionView>) -> bool {
    forall|st: ServiceState, svc: Seq<char>, k: int|
        st.service@ != svc && 0 <= k < f(st).len() ==> #[trigger] leaves(svc, f(st)[k])
}

pub open spec fn names_distinct(sts: Seq<ServiceState>) -> bool {
    forall|i: int, j: int| 0 <= i < sts.len() && 0 <= j < sts.len() && i != j ==> sts[i].service@ != sts[j].service@
}

proof fn lemma_per_state_leaves(sts: Seq<ServiceState>, f: spec_fn(ServiceState) -> Seq<ActionView>, svc: Seq<char>)
    requires
        about_own_service(f),
        forall|j: int| 0 <= j < sts.len() ==> (#[trigger] sts[j]).service@ != svc,
    ensures
        forall|k: int| 0 <= k < per_state(sts, f).len() ==> leaves(svc, #[trigger] per_state(sts, f)[k]),
    decreases sts.len(),
{
    if sts.len() > 0 {
        let p = per_state(sts.drop_last(), f);
        let q = f(sts.last());
        assert forall|j: int| 0 <= j < sts.drop_last().len() implies (#[trigger] sts.drop_last()[j]).service@ != svc by {
            assert(sts.drop_last()[j] == sts[j]);
        }
        lemma_per_state_leaves(sts.drop_last(), f, svc);
        assert(sts.last().service@ != svc);
        assert forall|k: int| 0 <= k < (p + q).len() implies leaves(svc, #[trigger] (p + q)[k]) by {
            if k < p.len() {
                assert((p + q)[k] == p[k]);
            } else {
                assert((p + q)[k] == q[k - p.len()]);
            }
        }
    }
}

/// Among the plans for all recorded services, only the one for a service's own record
/// changes that service's settings.
pub proof fn lemma_per_state_own(s: ServiceSettings, sts: Seq<ServiceState>, f: spec_fn(ServiceState) -> Seq<ActionView>, i: int)
    requires
        about_own_service(f),
        names_distinct(sts),
        0 <= i < sts.len(),
    ensures
        settings_after(s, sts[i].service@, per_state(sts, f)) == settings_after(s, sts[i].service@, f(sts[i])),
    decreases sts.len(),
{
    let svc = sts[i].service@;
    let d = sts.drop_last();
    let p = per_state(d, f);
    let q = f(sts.last());
    lemma_settings_after_concat(s, svc, p, q);
    if i == sts.len() - 1 {
        assert forall|j: int| 0 <= j < d.len() implies (#[trigger] d[j]).service@ != svc by {
            assert(d[j] == sts[j]);
        }
        lemma_per_state_leaves(d, f, svc);
        lemma_settings_untouched(s, svc, p);
    } else {
        assert(d[i] == sts[i]);
        assert(names_distinct(d)) by {
            assert forall|a: int, b: int| 0 <= a < d.len() && 0 <= b < d.len() && a != b implies d[a].service@
                != d[b].service@ by {
                assert(d[a] == sts[a] && d[b] == sts[b]);
            }
        }
        lemma_per_state_own(s, d, f, i);
        assert(sts.last().service@ != svc);
        assert forall|k: int| 0 <= k < q.len() implies leaves(svc, #[trigger] q[k]) by {}
        lemma_settings_untouched(settings_after(s, svc, p), svc, q);
    }
}

proof fn lemma_backs_about_own_service()
    ensures
        about_own_service(|s: ServiceState| proxy_back(s)),
        about_own_service(|s: ServiceState| ipv6_back(s)),
        about_own_service(|s: ServiceState| dns_back(s)),
{
    assert forall|st: ServiceState, svc: Seq<char>, k: int|
        st.service@ != svc && 0 <= k < proxy_back(st).len() implies #[trigger] leaves(svc, proxy_back(st)[k]) by {
        let first: Seq<ActionView> = if st.socks_server@.len() > 0 {
            seq![run("networksetup"@, seq!["-setsocksfirewallproxy"@, st.service@, st.socks_server@, st.socks_port@])]
        } else {
            Seq::empty()
        };
        if k < first.len() {
            assert(proxy_back(st)[k] == first[k]);
        }
    }
    assert forall|st: ServiceState, svc: Seq<char>, k: int|
        st.service@ != svc && 0 <= k < ipv6_back(st).len() implies #[trigger] leaves(svc, ipv6_back(st)[k]) by {}
    assert forall|st: ServiceState, svc: Seq<char>, k: int|
        st.service@ != svc && 0 <= k < dns_back(st).len() implies #[trigger] leaves(svc, dns_back(st)[k]) by {}
}

/// Disconnecting gives every recorded service its settings back, whatever connecting
/// (or anything else) set them to: after the proxy, IPv6 and DNS restore plans, a
/// service has its recorded proxy state and bypass list (with its server and port when
/// one was recorded), its recorded IPv6 mode (automatic when it could not be read) and
/// its recorded DNS servers.
pub proof fn lemma_settings_restored(
    s: ServiceSettings,
    sts: Seq<ServiceState>,
    i: int,
    dir: Seq<char>,
    pid: Option<Seq<char>>,
)
    requires
        names_distinct(sts),
        0 <= i < sts.len(),
        string_views(sts[i].bypass@) != seq!["Empty"@],
        string_views(sts[i].dns@) != seq!["empty"@],
    ensures
        ({
            let st = sts[i];
            let svc = st.service@;
            let t = settings_after(s, svc, per_state(sts, |x: ServiceState| proxy_back(x)));
            let u = settings_after(t, svc, per_state(sts, |x: ServiceState| ipv6_back(x)));
            let v = settings_after(u, svc, crate::proxy::dns_leak_disable_plan(dir, pid, sts));
            &&& v.socks_on == st.socks_enabled
            &&& v.bypass == string_views(st.bypass@)
            &&& st.socks_server@.len() > 0 ==> v.server == st.socks_server@ && v.port == st.socks_port@
            &&& v.ipv6 == (match ipv6_view(st.ipv6) {
                Ipv6ModeView::Unknown => Ipv6ModeView::Automatic,
                m => m,
            })
            &&& v.dns == string_views(st.dns@)
        }),
{
    let st = sts[i];
    let svc = st.service@;
    lemma_backs_about_own_service();
    lemma_per_state_own(s, sts, |x: ServiceState| proxy_back(x), i);
    let t = settings_after(s, svc, per_state(sts, |x: ServiceState| proxy_back(x)));
    lemma_back_sets_recorded(s, st);
    lemma_per_state_own(t, sts, |x: ServiceState| ipv6_back(x), i);
    let u = settings_after(t, svc, per_state(sts, |x: ServiceState| ipv6_back(x)));
    lemma_back_sets_recorded(t, st);
    let conf = dir + "/dnsmasq.conf"@;
    let pre = (match pid {
        Some(p) => seq![crate::helper::run_root("kill"@, seq![trim(p)]), ActionView::RemoveFile(dir + "/dnsmasq.pid"@)],
        None => Seq::empty(),
    }) + seq![crate::helper::run_root("/usr/bin/pkill"@, seq!["-f"@, "dnsmasq.*"@ + conf])];
    let back = per_state(sts, |x: ServiceState| dns_back(x));
    assert(crate::proxy::dns_leak_disable_plan(dir, pid, sts) == pre + back);
    lemma_settings_after_concat(u, svc, pre, back);
    reveal_strlit("networksetup");
    assert(crate::helper::TS_HELPER@ != "networksetup"@) by {
        reveal_strlit("/usr/local/bin/ts_helper");
        assert(crate::helper::TS_HELPER@[0] != ("networksetup"@)[0]);
    }
    assert forall|k: int| 0 <= k < pre.len() implies leaves(svc, #[trigger] pre[k]) by {}
    lemma_settings_untouched(u, svc, pre);
    lemma_per_state_own(u, sts, |x: ServiceState| dns_back(x), i);
    lemma_back_sets_recorded(u, st);
}

} // verus!
