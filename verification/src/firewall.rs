use vstd::prelude::*;
use crate::helper::{Action, ActionView, action_views, push_action, push_root, push_run, run, run_root, sh, str_views, TS_HELPER};
use crate::text::{owned, chars_of, string_of, contains, contains_chars, trim_end, is_ws, append_chars};

verus! {

pub open spec fn pf_anchor() -> Seq<char> {
    "com.torshield.killswitch"@
}

pub open spec fn pf_anchor_path() -> Seq<char> {
    "/etc/pf.anchors/com.torshield.killswitch"@
}

pub open spec fn pf_table_marker() -> Seq<char> {
    "# TorShield-apple-relay-table"@
}

/// The relay table lives in `pf.conf` itself (tables inside anchors break at boot).
pub open spec fn pf_table_def() -> Seq<char> {
    "# TorShield-apple-relay-table\ntable <apple_relay> const { 17.0.0.0/8 }\n"@
}

/// The kill switch on interface `iface`, read first match first (every rule is
/// `quick`): skip loopback; drop traffic to Apple's relay network; drop all outbound
/// UDP; let out TCP to Tor's port 9050; allow inbound TCP state; drop every other
/// outbound packet.
pub open spec fn pf_anchor_rules_text(iface: Seq<char>) -> Seq<char> {
    "# TorShield kill switch anchor\nset skip on lo0\nblock drop out quick on "@ + iface + " to <apple_relay>\nblock drop out quick on "@
        + iface + " proto udp all\npass out quick on "@ + iface + " proto tcp to any port 9050 keep state\npass in quick on "@
        + iface + " proto tcp keep state\nblock drop out quick on "@ + iface + " all\n"@
}

/// The kill switch rules for the primary interface.
pub fn build_pf_anchor_rules(iface: &str) -> (r: String)
    ensures
        r@ == pf_anchor_rules_text(iface@),
{
    let mut r = owned("# TorShield kill switch anchor\nset skip on lo0\nblock drop out quick on ");
    r.append(iface);
    r.append(" to <apple_relay>\nblock drop out quick on ");
    r.append(iface);
    r.append(" proto udp all\npass out quick on ");
    r.append(iface);
    r.append(" proto tcp to any port 9050 keep state\npass in quick on ");
    r.append(iface);
    r.append(" proto tcp keep state\nblock drop out quick on ");
    r.append(iface);
    r.append(" all\n");
    r
}

/// The lines that load the anchor from its file.
pub open spec fn pf_anchor_reference_text() -> Seq<char> {
    "anchor \"com.torshield.killswitch\"\nload anchor \"com.torshield.killswitch\" from \"/etc/pf.anchors/com.torshield.killswitch\"\n"@
}

pub fn pf_anchor_reference() -> (r: String)
    ensures
        r@ == pf_anchor_reference_text(),
{
    owned(
        "anchor \"com.torshield.killswitch\"\nload anchor \"com.torshield.killswitch\" from \"/etc/pf.anchors/com.torshield.killswitch\"\n",
    )
}

/// `pf.conf` with the relay table and the anchor reference added where missing (after
/// trailing whitespace is trimmed and a line break); `None` when both are present.
pub open spec fn patched_pf_conf(conf: Seq<char>) -> Option<Seq<char>> {
    let needs_table = !contains(conf, pf_table_marker());
    let needs_anchor = !contains(conf, pf_anchor());
    if !needs_table && !needs_anchor {
        None
    } else {
        Some(trim_end(conf) + (if needs_table {
            seq!['\n'] + pf_table_def()
        } else {
            Seq::empty()
        }) + (if needs_anchor {
            seq!['\n'] + pf_anchor_reference_text()
        } else {
            Seq::empty()
        }))
    }
}

/// The new `pf.conf`, if it needs the table or the anchor.
pub fn patch_pf_conf(conf: &str) -> (r: Option<String>)
    ensures
        r matches Some(s) ==> patched_pf_conf(conf@) == Some(s@),
        r is None ==> patched_pf_conf(conf@) is None,
{
    let c = chars_of(conf);
    let needs_table = !contains_chars(&c, &chars_of("# TorShield-apple-relay-table"));
    let needs_anchor = !contains_chars(&c, &chars_of("com.torshield.killswitch"));
    if !needs_table && !needs_anchor {
        return None;
    }
    let mut out = trim_end_chars(&c);
    if needs_table {
        out.push('\n');
        append_chars(&mut out, &chars_of("# TorShield-apple-relay-table\ntable <apple_relay> const { 17.0.0.0/8 }\n"));
    }
    if needs_anchor {
        out.push('\n');
        append_chars(
            &mut out,
            &chars_of(
                "anchor \"com.torshield.killswitch\"\nload anchor \"com.torshield.killswitch\" from \"/etc/pf.anchors/com.torshield.killswitch\"\n",
            ),
        );
    }
    assert(out@ =~= patched_pf_conf(conf@)->0);
    Some(string_of(&out))
}

/// `v` without trailing whitespace.
fn trim_end_chars(v: &[char]) -> (r: Vec<char>)
    ensures
        r@ == trim_end(v@),
{
    let j = crate::text::last_non_ws_end(v, 0, v.len());
    proof {
        crate::text::lemma_trim_end_take(v@, j as int);
        if j > 0 {
            assert(v@.take(j as int).last() == v@[j - 1]);
        }
    }
    crate::text::slice_chars(v, 0, j)
}

} // verus!

verus! {

proof fn lemma_occurs_trim_end(s: Seq<char>, m: Seq<char>, i: int)
    requires
        m.len() > 0,
        !is_ws(m.last()),
        crate::text::occurs_at(s, m, i),
    ensures
        crate::text::occurs_at(trim_end(s), m, i),
    decreases s.len(),
{
    if s.len() > 0 && is_ws(s.last()) {
        assert(s[i + m.len() - 1] == m.last()) by {
            assert(s.subrange(i, i + m.len())[m.len() - 1] == m[m.len() - 1]);
        }
        assert(i + m.len() < s.len());
        assert(s.drop_last().subrange(i, i + m.len()) =~= s.subrange(i, i + m.len()));
        lemma_occurs_trim_end(s.drop_last(), m, i);
    }
}

proof fn lemma_occurs_extend(a: Seq<char>, b: Seq<char>, m: Seq<char>, i: int)
    requires
        crate::text::occurs_at(a, m, i),
    ensures
        crate::text::occurs_at(a + b, m, i),
{
    assert((a + b).subrange(i, i + m.len()) =~= a.subrange(i, i + m.len()));
}

proof fn lemma_occurs_suffix(a: Seq<char>, b: Seq<char>, m: Seq<char>, i: int)
    requires
        crate::text::occurs_at(b, m, i),
    ensures
        crate::text::occurs_at(a + b, m, a.len() + i),
{
    assert((a + b).subrange(a.len() + i, a.len() + i + m.len()) =~= b.subrange(i, i + m.len()));
}

/// Patching `pf.conf` is done once: the patched file holds both the relay table and the
/// anchor reference, so enabling the kill switch again leaves it unchanged.
pub proof fn lemma_pf_patch_idempotent(conf: Seq<char>)
    ensures
        patched_pf_conf(conf) matches Some(p) ==> patched_pf_conf(p) is None,
{
    reveal_strlit("# TorShield-apple-relay-table");
    reveal_strlit("com.torshield.killswitch");
    reveal_strlit("# TorShield-apple-relay-table\ntable <apple_relay> const { 17.0.0.0/8 }\n");
    reveal_strlit(
        "anchor \"com.torshield.killswitch\"\nload anchor \"com.torshield.killswitch\" from \"/etc/pf.anchors/com.torshield.killswitch\"\n",
    );
    let mk = pf_table_marker();
    let an = pf_anchor();
    if let Some(p) = patched_pf_conf(conf) {
        let needs_table = !contains(conf, mk);
        let needs_anchor = !contains(conf, an);
        let te = trim_end(conf);
        let t: Seq<char> = if needs_table { seq!['\n'] + pf_table_def() } else { Seq::empty() };
        let a: Seq<char> = if needs_anchor { seq!['\n'] + pf_anchor_reference_text() } else { Seq::empty() };
        assert(p == te + t + a);
        // the relay table marker
        if needs_table {
            assert(crate::text::occurs_at(t, mk, 1)) by {
                assert(t.subrange(1, 1 + mk.len() as int) =~= mk);
            }
            lemma_occurs_suffix(te, t, mk, 1);
            lemma_occurs_extend(te + t, a, mk, te.len() as int + 1);
            assert(contains(p, mk));
        } else {
            let i = choose|i: int| crate::text::occurs_at(conf, mk, i);
            lemma_occurs_trim_end(conf, mk, i);
            lemma_occurs_extend(te, t, mk, i);
            lemma_occurs_extend(te + t, a, mk, i);
            assert(contains(p, mk));
        }
        // the anchor
        if needs_anchor {
            assert(crate::text::occurs_at(a, an, 9)) by {
                assert(a.subrange(9, 9 + an.len() as int) =~= an);
            }
            lemma_occurs_suffix(te + t, a, an, 9);
            assert(contains(p, an));
        } else {
            let i = choose|i: int| crate::text::occurs_at(conf, an, i);
            lemma_occurs_trim_end(conf, an, i);
            lemma_occurs_extend(te, t, an, i);
            lemma_occurs_extend(te + t, a, an, i);
            assert(contains(p, an));
        }
    }
}

} // verus!

verus! {

/// Turning the kill switch on for `iface`: write the anchor file, patch `pf.conf`
/// through the helper when it lacks the table or the anchor, enable pf, load the anchor.
pub open spec fn pf_enable_plan(iface: Seq<char>, pf_conf: Seq<char>) -> Seq<ActionView> {
    seq![ActionView::WriteFile(pf_anchor_path(), pf_anchor_rules_text(iface))] + (match patched_pf_conf(pf_conf) {
        Some(p) => seq![ActionView::RunWithInput(TS_HELPER@, seq!["write-pf-conf"@], p)],
        None => Seq::empty(),
    }) + seq![
        run_root("/sbin/pfctl"@, seq!["-e"@]),
        run_root("/sbin/pfctl"@, seq!["-a"@, pf_anchor(), "-f"@, pf_anchor_path()]),
    ]
}

/// The kill switch steps, given the primary interface and the current `pf.conf`
/// (empty when unreadable).
pub fn pf_enable(iface: &str, pf_conf: &str) -> (r: Vec<Action>)
    ensures
        action_views(r@) == pf_enable_plan(iface@, pf_conf@),
{
    let mut plan: Vec<Action> = Vec::new();
    push_action(
        &mut plan,
        Action::WriteFile(owned("/etc/pf.anchors/com.torshield.killswitch"), build_pf_anchor_rules(iface)),
    );
    match patch_pf_conf(pf_conf) {
        Some(p) => {
            let a = [ "write-pf-conf" ];
            push_action(&mut plan, Action::RunWithInput(sh(TS_HELPER, &a), p));
            assert(str_views(a@) =~= seq!["write-pf-conf"@]);
        },
        None => {},
    }
    let a1 = [ "-e" ];
    push_root(&mut plan, "/sbin/pfctl", &a1);
    assert(str_views(a1@) =~= seq!["-e"@]);
    let a2 = [ "-a", "com.torshield.killswitch", "-f", "/etc/pf.anchors/com.torshield.killswitch" ];
    push_root(&mut plan, "/sbin/pfctl", &a2);
    assert(str_views(a2@) =~= seq!["-a"@, pf_anchor(), "-f"@, pf_anchor_path()]);
    assert(action_views(plan@) =~= pf_enable_plan(iface@, pf_conf@));
    plan
}

/// Turning the kill switch off: flush the anchor, remove its file.
pub open spec fn pf_disable_plan() -> Seq<ActionView> {
    seq![
        run_root("/sbin/pfctl"@, seq!["-a"@, pf_anchor(), "-F"@, "all"@]),
        ActionView::RemoveFile(pf_anchor_path()),
    ]
}

pub fn pf_disable() -> (r: Vec<Action>)
    ensures
        action_views(r@) == pf_disable_plan(),
{
    let mut plan: Vec<Action> = Vec::new();
    let a = [ "-a", "com.torshield.killswitch", "-F", "all" ];
    push_root(&mut plan, "/sbin/pfctl", &a);
    assert(str_views(a@) =~= seq!["-a"@, pf_anchor(), "-F"@, "all"@]);
    push_action(&mut plan, Action::RemoveFile(owned("/etc/pf.anchors/com.torshield.killswitch")));
    assert(action_views(plan@) =~= pf_disable_plan());
    plan
}

/// The watchdog: every five seconds, flush the kill switch if TorShield is not running.
pub open spec fn watchdog_script_text() -> Seq<char> {
    "#!/bin/sh\nwhile true; do\nif ! pgrep -x torshield > /dev/null 2>&1; then\n/sbin/pfctl -a 'com.torshield.killswitch' -F all 2>/dev/null\nfi\nsleep 5\ndone\n"@
}

/// The launch daemon that keeps the watchdog running.
pub open spec fn watchdog_plist_text() -> Seq<char> {
    "<?xml version=\"1.0\" encoding=\"UTF-8\"?>\n<!DOCTYPE plist PUBLIC \"-//Apple//DTD PLIST 1.0//EN\" \"http://www.apple.com/DTDs/PropertyList-1.0.dtd\">\n<plist version=\"1.0\"><dict>\n<key>Label</key><string>com.torshield.watchdog</string>\n<key>ProgramArguments</key>\n<array><string>/bin/sh</string><string>/usr/local/bin/torshield-watchdog</string></array>\n<key>RunAtLoad</key><true/>\n<key>KeepAlive</key><true/>\n<key>StandardErrorPath</key><string>/dev/null</string>\n<key>StandardOutPath</key><string>/dev/null</string>\n</dict></plist>\n"@
}

/// The AppleScript that installs script and daemon (both passed base64-encoded) and
/// loads the daemon, after asking for an administrator password.
pub open spec fn watchdog_install_text() -> Seq<char> {
    "do shell script \"printf '%s' "@ + crate::base64::base64(vstd::utf8::encode_utf8(watchdog_script_text()))
        + " | base64 -d > '/usr/local/bin/torshield-watchdog' && chmod 755 '/usr/local/bin/torshield-watchdog' && printf '%s' "@
        + crate::base64::base64(vstd::utf8::encode_utf8(watchdog_plist_text()))
        + " | base64 -d > '/Library/LaunchDaemons/com.torshield.watchdog.plist' && launchctl load '/Library/LaunchDaemons/com.torshield.watchdog.plist'\" with administrator privileges"@
}

/// Installs the watchdog unless both its daemon and its script exist already.
pub fn ensure_watchdog(installed: bool) -> (r: Vec<Action>)
    ensures
        installed ==> action_views(r@) == Seq::<ActionView>::empty(),
        !installed ==> action_views(r@) == seq![run("osascript"@, seq!["-e"@, watchdog_install_text()])],
{
    let mut plan: Vec<Action> = Vec::new();
    if installed {
        assert(action_views(plan@) =~= Seq::<ActionView>::empty());
        return plan;
    }
    let script = "#!/bin/sh\nwhile true; do\nif ! pgrep -x torshield > /dev/null 2>&1; then\n/sbin/pfctl -a 'com.torshield.killswitch' -F all 2>/dev/null\nfi\nsleep 5\ndone\n";
    let plist = "<?xml version=\"1.0\" encoding=\"UTF-8\"?>\n<!DOCTYPE plist PUBLIC \"-//Apple//DTD PLIST 1.0//EN\" \"http://www.apple.com/DTDs/PropertyList-1.0.dtd\">\n<plist version=\"1.0\"><dict>\n<key>Label</key><string>com.torshield.watchdog</string>\n<key>ProgramArguments</key>\n<array><string>/bin/sh</string><string>/usr/local/bin/torshield-watchdog</string></array>\n<key>RunAtLoad</key><true/>\n<key>KeepAlive</key><true/>\n<key>StandardErrorPath</key><string>/dev/null</string>\n<key>StandardOutPath</key><string>/dev/null</string>\n</dict></plist>\n";
    let mut cmd = owned("do shell script \"printf '%s' ");
    cmd.append(crate::base64::base64_encode(script.as_bytes()).as_str());
    cmd.append(
        " | base64 -d > '/usr/local/bin/torshield-watchdog' && chmod 755 '/usr/local/bin/torshield-watchdog' && printf '%s' ",
    );
    cmd.append(crate::base64::base64_encode(plist.as_bytes()).as_str());
    cmd.append(
        " | base64 -d > '/Library/LaunchDaemons/com.torshield.watchdog.plist' && launchctl load '/Library/LaunchDaemons/com.torshield.watchdog.plist'\" with administrator privileges",
    );
    let a = [ "-e", cmd.as_str() ];
    push_run(&mut plan, "osascript", &a);
    assert(str_views(a@) =~= seq!["-e"@, watchdog_install_text()]);
    plan
}

} // verus!

verus! {

/// The rule that lets Tor's connections out.
pub open spec fn pass_tor_rule(iface: Seq<char>) -> Seq<char> {
    "pass out quick on "@ + iface + " proto tcp to any port 9050 keep state\n"@
}

/// The rule that drops every other outbound packet.
pub open spec fn block_all_rule(iface: Seq<char>) -> Seq<char> {
    "block drop out quick on "@ + iface + " all\n"@
}

/// pf takes the first `quick` rule that matches: in the kill switch, the rule that lets
/// Tor's connections out comes before the rule that drops everything else, which is
/// the last rule.
pub proof fn lemma_tor_passes_before_block(iface: Seq<char>)
    ensures
        exists|a: Seq<char>, b: Seq<char>|
            pf_anchor_rules_text(iface) == a + #[trigger] pass_tor_rule(iface) + b + block_all_rule(iface),
{
    let a = "# TorShield kill switch anchor\nset skip on lo0\nblock drop out quick on "@ + iface + " to <apple_relay>\nblock drop out quick on "@
        + iface + " proto udp all\n"@;
    let b = "pass in quick on "@ + iface + " proto tcp keep state\n"@;
    reveal_strlit(" proto udp all\npass out quick on ");
    reveal_strlit(" proto udp all\n");
    reveal_strlit("pass out quick on ");
    reveal_strlit(" proto tcp to any port 9050 keep state\npass in quick on ");
    reveal_strlit(" proto tcp to any port 9050 keep state\n");
    reveal_strlit("pass in quick on ");
    reveal_strlit(" proto tcp keep state\nblock drop out quick on ");
    reveal_strlit(" proto tcp keep state\n");
    reveal_strlit("block drop out quick on ");
    assert(pf_anchor_rules_text(iface) =~= a + pass_tor_rule(iface) + b + block_all_rule(iface));
}

} // verus!

verus! {

/// The protocols a rule names.
pub enum PfProto {
    Any,
    Tcp,
    Udp,
}

/// A `quick` rule of the kill switch, on the primary interface.
pub struct PfRule {
    pub pass: bool,
    pub outbound: bool,
    pub proto: PfProto,
    /// Only packets to the `<apple_relay>` table.
    pub to_relay: bool,
    /// Only packets to this destination port.
    pub port: Option<int>,
}

/// A packet as the kill switch sees it.
pub struct Packet {
    pub outbound: bool,
    pub on_iface: bool,
    pub tcp: bool,
    pub udp: bool,
    pub to_relay: bool,
    pub port: int,
}

/// The kill switch's rules after `set skip on lo0`, in order.
pub open spec fn kill_switch_rules() -> Seq<PfRule> {
    seq![
        PfRule { pass: false, outbound: true, proto: PfProto::Any, to_relay: true, port: None },
        PfRule { pass: false, outbound: true, proto: PfProto::Udp, to_relay: false, port: None },
        PfRule { pass: true, outbound: true, proto: PfProto::Tcp, to_relay: false, port: Some(9050) },
        PfRule { pass: true, outbound: false, proto: PfProto::Tcp, to_relay: false, port: None },
        PfRule { pass: false, outbound: true, proto: PfProto::Any, to_relay: false, port: None },
    ]
}

/// A rule in pf's syntax, on interface `iface`.
pub open spec fn render_rule(r: PfRule, iface: Seq<char>) -> Seq<char> {
    (if r.pass { "pass"@ } else { "block drop"@ }) + (if r.outbound { " out"@ } else { " in"@ }) + " quick on "@ + iface
        + (match r.proto {
        PfProto::Any => Seq::empty(),
        PfProto::Tcp => " proto tcp"@,
        PfProto::Udp => " proto udp"@,
    }) + (if r.to_relay {
        " to <apple_relay>"@
    } else if r.port == Some(9050int) {
        " to any port 9050"@
    } else if r.pass {
        Seq::empty()
    } else {
        " all"@
    }) + (if r.pass { " keep state"@ } else { Seq::empty() }) + seq!['\n']
}

pub open spec fn render_rules(rs: Seq<PfRule>, iface: Seq<char>) -> Seq<char>
    decreases rs.len(),
{
    if rs.len() == 0 {
        Seq::empty()
    } else {
        render_rules(rs.drop_last(), iface) + render_rule(rs.last(), iface)
    }
}

/// Whether a rule applies to a packet.
pub open spec fn rule_matches(r: PfRule, p: Packet) -> bool {
    &&& p.on_iface
    &&& r.outbound == p.outbound
    &&& match r.proto {
        PfProto::Any => true,
        PfProto::Tcp => p.tcp,
        PfProto::Udp => p.udp,
    }
    &&& r.to_relay ==> p.to_relay
    &&& (r.port matches Some(n) ==> p.port == n)
}

/// pf's verdict under `quick` rules: the first rule that applies decides (`None` when
/// none does).
pub open spec fn first_match(rs: Seq<PfRule>, p: Packet) -> Option<bool>
    decreases rs.len(),
{
    if rs.len() == 0 {
        None
    } else if rule_matches(rs[0], p) {
        Some(rs[0].pass)
    } else {
        first_match(rs.drop_first(), p)
    }
}

/// The kill switch's text is its header and then its rules, in pf's syntax.
pub proof fn lemma_kill_switch_text(iface: Seq<char>)
    ensures
        pf_anchor_rules_text(iface) == "# TorShield kill switch anchor\nset skip on lo0\n"@ + render_rules(
            kill_switch_rules(),
            iface,
        ),
{
    let rs = kill_switch_rules();
    reveal_with_fuel(render_rules, 6);
    assert(rs.drop_last().drop_last().drop_last().drop_last().drop_last() =~= Seq::<PfRule>::empty());
    reveal_strlit("pass");
    reveal_strlit("block drop");
    reveal_strlit(" out");
    reveal_strlit(" in");
    reveal_strlit(" quick on ");
    reveal_strlit(" proto tcp");
    reveal_strlit(" proto udp");
    reveal_strlit(" to <apple_relay>");
    reveal_strlit(" to any port 9050");
    reveal_strlit(" all");
    reveal_strlit(" keep state");
    reveal_strlit("# TorShield kill switch anchor\nset skip on lo0\n");
    reveal_strlit("# TorShield kill switch anchor\nset skip on lo0\nblock drop out quick on ");
    reveal_strlit(" to <apple_relay>\nblock drop out quick on ");
    reveal_strlit(" proto udp all\npass out quick on ");
    reveal_strlit(" proto tcp to any port 9050 keep state\npass in quick on ");
    reveal_strlit(" proto tcp keep state\nblock drop out quick on ");
    reveal_strlit(" all\n");
    let l0 = "block drop out quick on "@ + iface + " to <apple_relay>\n"@;
    let l1 = "block drop out quick on "@ + iface + " proto udp all\n"@;
    let l2 = "pass out quick on "@ + iface + " proto tcp to any port 9050 keep state\n"@;
    let l3 = "pass in quick on "@ + iface + " proto tcp keep state\n"@;
    let l4 = "block drop out quick on "@ + iface + " all\n"@;
    reveal_strlit("block drop out quick on ");
    reveal_strlit("pass out quick on ");
    reveal_strlit("pass in quick on ");
    reveal_strlit(" to <apple_relay>\n");
    reveal_strlit(" proto udp all\n");
    reveal_strlit(" proto tcp to any port 9050 keep state\n");
    reveal_strlit(" proto tcp keep state\n");
    assert(render_rule(rs[0], iface) =~= l0);
    assert(render_rule(rs[1], iface) =~= l1);
    assert(render_rule(rs[2], iface) =~= l2);
    assert(render_rule(rs[3], iface) =~= l3);
    assert(render_rule(rs[4], iface) =~= l4);
    assert(render_rules(rs, iface) == l0 + l1 + l2 + l3 + l4);
    lemma_rules_text_split(iface);
}

proof fn lemma_rules_text_split(iface: Seq<char>)
    ensures
        pf_anchor_rules_text(iface) == "# TorShield kill switch anchor\nset skip on lo0\n"@ + ("block drop out quick on "@ + iface
            + " to <apple_relay>\n"@) + ("block drop out quick on "@ + iface + " proto udp all\n"@) + ("pass out quick on "@
            + iface + " proto tcp to any port 9050 keep state\n"@) + ("pass in quick on "@ + iface
            + " proto tcp keep state\n"@) + ("block drop out quick on "@ + iface + " all\n"@),
{
    reveal_strlit("# TorShield kill switch anchor\nset skip on lo0\nblock drop out quick on ");
    reveal_strlit(" to <apple_relay>\nblock drop out quick on ");
    reveal_strlit(" proto udp all\npass out quick on ");
    reveal_strlit(" proto tcp to any port 9050 keep state\npass in quick on ");
    reveal_strlit(" proto tcp keep state\nblock drop out quick on ");
    reveal_strlit(" all\n");
    reveal_strlit("# TorShield kill switch anchor\nset skip on lo0\n");
    reveal_strlit("block drop out quick on ");
    reveal_strlit("pass out quick on ");
    reveal_strlit("pass in quick on ");
    reveal_strlit(" to <apple_relay>\n");
    reveal_strlit(" proto udp all\n");
    reveal_strlit(" proto tcp to any port 9050 keep state\n");
    reveal_strlit(" proto tcp keep state\n");
    let h = "# TorShield kill switch anchor\nset skip on lo0\n"@;
    let b = "block drop out quick on "@;
    assert("# TorShield kill switch anchor\nset skip on lo0\nblock drop out quick on "@ =~= h + b);
    assert(" to <apple_relay>\nblock drop out quick on "@ =~= " to <apple_relay>\n"@ + b);
    assert(" proto udp all\npass out quick on "@ =~= " proto udp all\n"@ + "pass out quick on "@);
    assert(" proto tcp to any port 9050 keep state\npass in quick on "@ =~= " proto tcp to any port 9050 keep state\n"@
        + "pass in quick on "@);
    assert(" proto tcp keep state\nblock drop out quick on "@ =~= " proto tcp keep state\n"@ + b);
    assert(pf_anchor_rules_text(iface) =~= h + (b + iface + " to <apple_relay>\n"@) + (b + iface + " proto udp all\n"@) + (
    "pass out quick on "@ + iface + " proto tcp to any port 9050 keep state\n"@) + ("pass in quick on "@ + iface
        + " proto tcp keep state\n"@) + (b + iface + " all\n"@));
}

/// Read with pf's first-match `quick` rules, the kill switch on the primary interface
/// drops every outbound packet to Apple's relay network, every outbound UDP packet and
/// every outbound packet that is not TCP to port 9050, lets outbound TCP to port 9050
/// through, and keeps inbound TCP.
pub proof fn lemma_kill_switch_verdicts(p: Packet)
    requires
        p.on_iface,
        !(p.tcp && p.udp),
    ensures
        p.outbound && p.to_relay ==> first_match(kill_switch_rules(), p) == Some(false),
        p.outbound && p.udp ==> first_match(kill_switch_rules(), p) == Some(false),
        p.outbound && !p.to_relay && p.tcp && p.port == 9050 ==> first_match(kill_switch_rules(), p) == Some(true),
        p.outbound && !(p.tcp && p.port == 9050) ==> first_match(kill_switch_rules(), p) == Some(false),
        !p.outbound && p.tcp ==> first_match(kill_switch_rules(), p) == Some(true),
{
    reveal_with_fuel(first_match, 6);
    let rs = kill_switch_rules();
    assert(rs.drop_first()[0] == rs[1]);
    assert(rs.drop_first().drop_first()[0] == rs[2]);
    assert(rs.drop_first().drop_first().drop_first()[0] == rs[3]);
    assert(rs.drop_first().drop_first().drop_first().drop_first()[0] == rs[4]);
    assert(rs.drop_first().drop_first().drop_first().drop_first().drop_first() =~= Seq::<PfRule>::empty());
}

} // verus!

verus! {

/// Turning the kill switch on writes its rules for the interface into the anchor file
/// first, and ends by enabling pf and then loading that file into TorShield's anchor;
/// it never disables pf. Turning it off flushes that anchor and deletes the file.
pub proof fn lemma_kill_switch_switches(iface: Seq<char>, pf_conf: Seq<char>)
    ensures
        ({
            let p = pf_enable_plan(iface, pf_conf);
            &&& p.len() >= 3
            &&& p[0] == ActionView::WriteFile("/etc/pf.anchors/com.torshield.killswitch"@, pf_anchor_rules_text(iface))
            &&& p[p.len() - 2] == ActionView::Run("/usr/local/bin/ts_helper"@, seq!["/sbin/pfctl"@, "-e"@])
            &&& p[p.len() - 1] == ActionView::Run(
                "/usr/local/bin/ts_helper"@,
                seq!["/sbin/pfctl"@, "-a"@, "com.torshield.killswitch"@, "-f"@, "/etc/pf.anchors/com.torshield.killswitch"@],
            )
            &&& !p.contains(ActionView::Run("/usr/local/bin/ts_helper"@, seq!["/sbin/pfctl"@, "-d"@]))
        }),
        pf_disable_plan() == seq![
            ActionView::Run("/usr/local/bin/ts_helper"@, seq!["/sbin/pfctl"@, "-a"@, "com.torshield.killswitch"@, "-F"@, "all"@]),
            ActionView::RemoveFile("/etc/pf.anchors/com.torshield.killswitch"@),
        ],
{
    reveal_strlit("-e");
    reveal_strlit("-d");
    reveal_strlit("/usr/local/bin/ts_helper");
    reveal_strlit("write-pf-conf");
    let p = pf_enable_plan(iface, pf_conf);
    let mid: Seq<ActionView> = match patched_pf_conf(pf_conf) {
        Some(x) => seq![ActionView::RunWithInput(TS_HELPER@, seq!["write-pf-conf"@], x)],
        None => Seq::empty(),
    };
    let enable = run_root("/sbin/pfctl"@, seq!["-e"@]);
    let load = run_root("/sbin/pfctl"@, seq!["-a"@, pf_anchor(), "-f"@, pf_anchor_path()]);
    let tail = seq![enable, load];
    assert(p == seq![ActionView::WriteFile(pf_anchor_path(), pf_anchor_rules_text(iface))] + mid + tail);
    assert(seq!["/sbin/pfctl"@] + seq!["-e"@] =~= seq!["/sbin/pfctl"@, "-e"@]);
    assert(seq!["/sbin/pfctl"@] + seq!["-a"@, pf_anchor(), "-f"@, pf_anchor_path()] =~= seq![
        "/sbin/pfctl"@,
        "-a"@,
        pf_anchor(),
        "-f"@,
        pf_anchor_path(),
    ]);
    assert(seq!["/sbin/pfctl"@] + seq!["-a"@, pf_anchor(), "-F"@, "all"@] =~= seq![
        "/sbin/pfctl"@,
        "-a"@,
        pf_anchor(),
        "-F"@,
        "all"@,
    ]);
    let off = ActionView::Run("/usr/local/bin/ts_helper"@, seq!["/sbin/pfctl"@, "-d"@]);
    if p.contains(off) {
        let k = choose|k: int| 0 <= k < p.len() && p[k] == off;
        assert(("-d"@)[1] != ("-e"@)[1]);
        if k == p.len() - 1 {
            assert(p[k]->Run_1.len() == 5);
        } else if k == p.len() - 2 {
            assert(p[k]->Run_1[1] == "-e"@);
        } else if k == 0 {
        } else {
            assert(p[k] == mid[k - 1]);
        }
    }
}

} // verus!

verus! {

/// The watchdog flushes the very anchor that turning the kill switch on loads, and
/// does so only once no process named `torshield` is running.
pub proof fn lemma_watchdog_flushes_anchor()
    ensures
        crate::text::contains(watchdog_script_text(), "/sbin/pfctl -a '"@ + pf_anchor() + "' -F all"@),
        crate::text::contains(watchdog_script_text(), "if ! pgrep -x torshield > /dev/null 2>&1; then\n"@),
{
    reveal_strlit("#!/bin/sh\nwhile true; do\nif ! pgrep -x torshield > /dev/null 2>&1; then\n/sbin/pfctl -a 'com.torshield.killswitch' -F all 2>/dev/null\nfi\nsleep 5\ndone\n");
    reveal_strlit("/sbin/pfctl -a '");
    reveal_strlit("com.torshield.killswitch");
    reveal_strlit("' -F all");
    reveal_strlit("if ! pgrep -x torshield > /dev/null 2>&1; then\n");
    let w = watchdog_script_text();
    let f = "/sbin/pfctl -a '"@ + pf_anchor() + "' -F all"@;
    assert(w.subrange(72, 120) =~= f);
    assert(crate::text::occurs_at(w, f, 72));
    let g = "if ! pgrep -x torshield > /dev/null 2>&1; then\n"@;
    assert(w.subrange(25, 72) =~= g);
    assert(crate::text::occurs_at(w, g, 25));
}

} // verus!
