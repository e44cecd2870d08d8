use torshield::helper::{helper_install_ready, helper_source, HelperSource};
use torshield::helper::{
    clear_logs, ensure_opsec_dir, get_network_services, helper_install_command, helper_ok, icon_path, lock_path,
    opsec_dir, primary_interface, root, sh, Action, ShellCommand,
};
use torshield::proxy::{
    default_no_proxy_list, dns_leak_disable, dns_leak_enable, env_file_path, env_inject_disable, env_inject_enable,
    ipv6_disable, ipv6_restore, proxy_disable, proxy_enable,
};
use torshield::firewall::{
    build_pf_anchor_rules, ensure_watchdog, patch_pf_conf, pf_anchor_reference, pf_disable, pf_enable,
};
use torshield::netstate::{service_state, unrecorded_state, ServiceState, Ipv6Mode};
use torshield::mac_spoof::{hw_mac, mac_spoof_enable, mac_spoof_restore, spoofed_mac_string};

fn cmd(c: &ShellCommand) -> (String, Vec<String>) {
    (c.program.clone(), c.args.clone())
}

fn run_of(a: &Action) -> (String, Vec<String>) {
    match a {
        Action::Run(c) => cmd(c),
        other => panic!("not a command: {:?}", other),
    }
}

fn strs(v: &[&str]) -> Vec<String> {
    v.iter().map(|s| s.to_string()).collect()
}

#[test]
fn opsec_dir_prefers_home() {
    assert_eq!(opsec_dir(Some("/Users/a"), Some("/Users/b")), "/Users/a/.config/opsec");
    assert_eq!(opsec_dir(Some(""), Some("/Users/b")), "/Users/b/.config/opsec");
    assert_eq!(opsec_dir(None, None), "/tmp/.config/opsec");
    assert_eq!(opsec_dir(None, Some("")), "/tmp/.config/opsec");
}

#[test]
fn paths_inside_opsec_dir() {
    assert_eq!(icon_path("/d", true), "/d/icon_on.png");
    assert_eq!(icon_path("/d", false), "/d/icon_off.png");
    assert_eq!(lock_path("/d"), "/d/active.lock");
    assert_eq!(env_file_path("/d"), "/d/env.sh");
}

#[test]
fn root_commands_go_through_helper() {
    assert_eq!(cmd(&root("/sbin/pfctl", &["-e"])), ("/usr/local/bin/ts_helper".to_string(), strs(&["/sbin/pfctl", "-e"])));
    assert_eq!(cmd(&sh("networksetup", &["-setv6off", "Wi-Fi"])), ("networksetup".to_string(), strs(&["-setv6off", "Wi-Fi"])));
}

#[test]
fn network_services_skip_heading_and_disabled() {
    let out = b"An asterisk (*) denotes that a network service is disabled.\nWi-Fi\n*Bluetooth PAN\nThunderbolt Bridge\n";
    assert_eq!(get_network_services(Some(out)), strs(&["Wi-Fi", "Thunderbolt Bridge"]));
    assert_eq!(get_network_services(None), Vec::<String>::new());
    assert_eq!(get_network_services(Some(b"")), Vec::<String>::new());
    assert_eq!(get_network_services(Some(&[0xff, 0xfe, b'\n', b'x'])), Vec::<String>::new());
}

#[test]
fn primary_interface_from_route_output() {
    let out = b"   route to: default\ndestination: default\n  interface: en1\n      flags: <UP,DONE>\n";
    assert_eq!(primary_interface(Some(out)), "en1");
    assert_eq!(primary_interface(Some(b"no route\n")), "en0");
    assert_eq!(primary_interface(None), "en0");
}

#[test]
fn helper_must_be_setuid_root_file() {
    assert!(helper_ok(Some((true, 0, 0o104755))));
    assert!(!helper_ok(Some((true, 501, 0o104755))));
    assert!(!helper_ok(Some((true, 0, 0o100755))));
    assert!(!helper_ok(Some((false, 0, 0o104755))));
    assert!(!helper_ok(None));
}

#[test]
fn helper_install_escapes_quotes() {
    let c = helper_install_command("/tmp/it's/ts_helper");
    assert_eq!(c.program, "osascript");
    assert_eq!(c.args[0], "-e");
    assert_eq!(
        c.args[1],
        "do shell script \"cp '/tmp/it'\\''s/ts_helper' '/usr/local/bin/ts_helper' && chown root:wheel '/usr/local/bin/ts_helper' && chmod 4755 '/usr/local/bin/ts_helper'\" with administrator privileges"
    );
}

#[test]
fn log_purge_and_dir_plans() {
    let p = clear_logs("/Users/a", "/d");
    assert_eq!(run_of(&p[0]), ("log".to_string(), strs(&["erase", "--all"])));
    assert!(matches!(&p[1], Action::RemoveDirAll(d) if d == "/Users/a/Library/Logs/CrashReporter"));
    assert!(matches!(&p[2], Action::WriteFile(f, c) if f == "/d/tor.log" && c.is_empty()));
    let d = ensure_opsec_dir("/d");
    assert!(matches!(&d[0], Action::CreateDir(x) if x == "/d"));
    assert!(matches!(&d[1], Action::SetMode(x, 0o700) if x == "/d"));
}

#[test]
fn proxy_commands_per_service() {
    let svcs = strs(&["Wi-Fi", "USB LAN"]);
    let p = proxy_enable(&svcs, false);
    assert_eq!(p.len(), 6);
    assert_eq!(run_of(&p[0]), ("networksetup".to_string(), strs(&["-setsocksfirewallproxy", "Wi-Fi", "127.0.0.1", "9050", "off"])));
    assert_eq!(run_of(&p[4]), ("networksetup".to_string(), strs(&["-setsocksfirewallproxystate", "USB LAN", "on"])));
    assert_eq!(run_of(&p[5]), ("networksetup".to_string(), strs(&["-setproxybypassdomains", "USB LAN", "localhost, 127.0.0.1"])));
    let sp = proxy_enable(&svcs, true);
    assert_eq!(
        run_of(&sp[2]),
        ("networksetup".to_string(), strs(&["-setproxybypassdomains", "Wi-Fi", "localhost, 127.0.0.1, *.spotify.com, *.scdn.co, *.spotilocal.com, *.pscdn.co"]))
    );
    let unknown: Vec<ServiceState> = svcs.iter().map(|s| unrecorded_state(s)).collect();
    let q = proxy_disable(&unknown);
    assert_eq!(run_of(&q[0]), ("networksetup".to_string(), strs(&["-setproxybypassdomains", "Wi-Fi", "Empty"])));
    assert_eq!(run_of(&q[3]), ("networksetup".to_string(), strs(&["-setsocksfirewallproxystate", "USB LAN", "off"])));
    assert_eq!(run_of(&ipv6_disable(&svcs)[0]), ("networksetup".to_string(), strs(&["-setv6off", "Wi-Fi"])));
    assert_eq!(run_of(&ipv6_restore(&unknown)[1]), ("networksetup".to_string(), strs(&["-setv6automatic", "USB LAN"])));
    assert!(proxy_enable(&Vec::new(), false).is_empty());
}

#[test]
fn env_injection_hook_is_written_once() {
    let np = default_no_proxy_list();
    let p = env_inject_enable("/d", "/Users/a", &np, Some("alias ll='ls -l'\n"), None);
    assert_eq!(p.len(), 4);
    let hook = "\n# TorShield-env-begin\n[ -f \"/d/env.sh\" ] && source \"/d/env.sh\"\n# TorShield-env-end\n";
    match &p[1] {
        Action::WriteFile(f, c) => {
            assert_eq!(f, "/d/env.sh");
            assert!(c.starts_with("export HTTP_PROXY=socks5h://127.0.0.1:9050\n"));
            assert!(c.ends_with("export no_proxy=localhost,127.0.0.1,::1,github.com,api.github.com,*.github.com\n"));
        }
        other => panic!("{:?}", other),
    }
    assert!(matches!(&p[2], Action::AppendFile(f, c) if f == "/Users/a/.zshrc" && c == hook));
    assert!(matches!(&p[3], Action::WriteFile(f, c) if f == "/Users/a/.bashrc" && c == hook.trim_start()));
    let again = env_inject_enable("/d", "/Users/a", &np, Some(&format!("alias ll='ls -l'\n{}", hook)), Some(hook.trim_start()));
    assert_eq!(again.len(), 2);
}

#[test]
fn env_injection_removal() {
    let p = env_inject_disable("/d");
    assert_eq!(p.len(), 9);
    assert!(matches!(&p[0], Action::RemoveFile(f) if f == "/d/env.sh"));
    assert_eq!(run_of(&p[8]), ("launchctl".to_string(), strs(&["unsetenv", "no_proxy"])));
}

#[test]
fn dns_leak_plans() {
    let svcs = strs(&["Wi-Fi"]);
    let p = dns_leak_enable("/d", Some("/opt/homebrew/sbin/dnsmasq"), &svcs);
    assert!(matches!(&p[0], Action::WriteFile(f, c) if f == "/d/dnsmasq.conf"
        && c == "no-resolv\nserver=127.0.0.1#9053\nlisten-address=127.0.0.1\nport=53\npid-file=/d/dnsmasq.pid\n"));
    assert_eq!(run_of(&p[1]), ("/usr/local/bin/ts_helper".to_string(), strs(&["/opt/homebrew/sbin/dnsmasq", "-C", "/d/dnsmasq.conf"])));
    assert_eq!(run_of(&p[2]), ("networksetup".to_string(), strs(&["-setdnsservers", "Wi-Fi", "127.0.0.1"])));
    assert_eq!(dns_leak_enable("/d", None, &svcs).len(), 1);
    let unknown = vec![unrecorded_state("Wi-Fi")];
    let q = dns_leak_disable("/d", Some(" 4242\n"), &unknown);
    assert_eq!(q.len(), 4);
    assert_eq!(run_of(&q[0]), ("/usr/local/bin/ts_helper".to_string(), strs(&["kill", "4242"])));
    assert!(matches!(&q[1], Action::RemoveFile(f) if f == "/d/dnsmasq.pid"));
    assert_eq!(run_of(&q[2]), ("/usr/local/bin/ts_helper".to_string(), strs(&["/usr/bin/pkill", "-f", "dnsmasq.*/d/dnsmasq.conf"])));
    assert_eq!(run_of(&q[3]), ("networksetup".to_string(), strs(&["-setdnsservers", "Wi-Fi", "empty"])));
    assert_eq!(dns_leak_disable("/d", None, &unknown).len(), 2);
}

#[test]
fn pf_anchor_texts() {
    assert_eq!(
        build_pf_anchor_rules("en0"),
        "# TorShield kill switch anchor\nset skip on lo0\nblock drop out quick on en0 to <apple_relay>\nblock drop out quick on en0 proto udp all\npass out quick on en0 proto tcp to any port 9050 keep state\npass in quick on en0 proto tcp keep state\nblock drop out quick on en0 all\n"
    );
    assert_eq!(
        pf_anchor_reference(),
        "anchor \"com.torshield.killswitch\"\nload anchor \"com.torshield.killswitch\" from \"/etc/pf.anchors/com.torshield.killswitch\"\n"
    );
}

#[test]
fn pf_conf_is_patched_once() {
    let conf = "scrub-anchor \"com.apple/*\"\nanchor \"com.apple/*\"\n\n";
    let patched = patch_pf_conf(conf).unwrap();
    assert_eq!(
        patched,
        format!(
            "scrub-anchor \"com.apple/*\"\nanchor \"com.apple/*\"\n# TorShield-apple-relay-table\ntable <apple_relay> const {{ 17.0.0.0/8 }}\n\n{}",
            pf_anchor_reference()
        )
    );
    assert_eq!(patch_pf_conf(&patched), None);
    let only_table = "# TorShield-apple-relay-table\n";
    assert_eq!(patch_pf_conf(only_table).unwrap(), format!("# TorShield-apple-relay-table\n{}", pf_anchor_reference()));
}

#[test]
fn pf_switch_plans() {
    let p = pf_enable("en0", "");
    assert_eq!(p.len(), 4);
    assert!(matches!(&p[0], Action::WriteFile(f, _) if f == "/etc/pf.anchors/com.torshield.killswitch"));
    assert!(matches!(&p[1], Action::RunWithInput(c, _) if c.program == "/usr/local/bin/ts_helper" && c.args == strs(&["write-pf-conf"])));
    assert_eq!(run_of(&p[3]), ("/usr/local/bin/ts_helper".to_string(), strs(&["/sbin/pfctl", "-a", "com.torshield.killswitch", "-f", "/etc/pf.anchors/com.torshield.killswitch"])));
    let patched = patch_pf_conf("").unwrap();
    assert_eq!(pf_enable("en0", &patched).len(), 3);
    let d = pf_disable();
    assert_eq!(run_of(&d[0]), ("/usr/local/bin/ts_helper".to_string(), strs(&["/sbin/pfctl", "-a", "com.torshield.killswitch", "-F", "all"])));
}

#[test]
fn watchdog_install_only_when_missing() {
    assert!(ensure_watchdog(true).is_empty());
    let p = ensure_watchdog(false);
    let (prog, args) = run_of(&p[0]);
    assert_eq!(prog, "osascript");
    assert!(args[1].starts_with("do shell script \"printf '%s' IyEvYmluL3NoCndoaWxlIHRydWU7IGRvCmlm"));
    assert!(args[1].ends_with("launchctl load '/Library/LaunchDaemons/com.torshield.watchdog.plist'\" with administrator privileges"));
}

#[test]
fn spoofed_mac_uses_apple_prefix() {
    assert_eq!(spoofed_mac_string(&[0, 1, 2, 3]), "3c:06:30:01:02:03");
    assert_eq!(spoofed_mac_string(&[13, 0xab, 0xcd, 0xef]), "f0:18:98:ab:cd:ef");
    assert_eq!(spoofed_mac_string(&[255, 0, 0, 0]), "28:cf:e9:00:00:00");
}

#[test]
fn mac_spoof_plan_shape() {
    let p = mac_spoof_enable("en0").unwrap();
    assert_eq!(p.len(), 4);
    assert_eq!(run_of(&p[0]), ("/usr/local/bin/ts_helper".to_string(), strs(&["/sbin/ifconfig", "en0", "down"])));
    assert!(matches!(&p[1], Action::SleepMillis(300)));
    let (_, args) = run_of(&p[2]);
    assert_eq!(args.len(), 4);
    assert_eq!(args[2], "ether");
    assert_eq!(args[3].len(), 17);
    assert_eq!(run_of(&p[3]), ("/usr/local/bin/ts_helper".to_string(), strs(&["/sbin/ifconfig", "en0", "up"])));
}

#[test]
fn hardware_mac_from_networksetup() {
    assert_eq!(hw_mac(b"Ethernet Address: a1:b2:c3:d4:e5:f6 (Device: en0)\n"), Some("a1:b2:c3:d4:e5:f6".to_string()));
    assert_eq!(hw_mac(b"Ethernet Address: N/A\n"), None);
    let r = mac_spoof_restore("en0", Some(b"Ethernet Address: a1:b2:c3:d4:e5:f6\n"));
    assert_eq!(run_of(&r[2]), ("/usr/local/bin/ts_helper".to_string(), strs(&["/sbin/ifconfig", "en0", "ether", "a1:b2:c3:d4:e5:f6"])));
    assert!(mac_spoof_restore("en0", None).is_empty());
}

#[test]
fn spoofed_mac_is_read_back_as_a_hardware_address() {
    for r in [[0u8, 1, 2, 3], [9, 0xff, 0xee, 0xdd], [200, 0, 0x7f, 0x80]] {
        let mac = spoofed_mac_string(&r);
        let out = format!("Ethernet Address: {} (Device: en0)\n", mac);
        assert_eq!(hw_mac(mac.as_bytes()), Some(mac.clone()));
        assert_eq!(hw_mac(out.as_bytes()), Some(mac));
    }
}

fn recorded_wifi() -> ServiceState {
    service_state(
        "Wi-Fi",
        Some(b"Enabled: Yes\nServer: 10.0.0.5\nPort: 1080\nAuthenticated Proxy Enabled: 0\n"),
        Some(b"*.local\n169.254/16\n"),
        Some(b"DHCP Configuration\nIP address: 192.168.1.5\nIPv6: Off\nIPv6 IP address: none\nIPv6 Router: none\n"),
        Some(b"1.1.1.1\n9.9.9.9\n"),
    )
}

#[test]
fn service_settings_are_read() {
    let st = recorded_wifi();
    assert_eq!(st.service, "Wi-Fi");
    assert!(st.socks_enabled);
    assert_eq!((st.socks_server.as_str(), st.socks_port.as_str()), ("10.0.0.5", "1080"));
    assert_eq!(st.bypass, strs(&["*.local", "169.254/16"]));
    assert!(matches!(st.ipv6, Ipv6Mode::Off));
    assert_eq!(st.dns, strs(&["1.1.1.1", "9.9.9.9"]));
    let none = service_state(
        "Ethernet",
        Some(b"Enabled: No\nServer: \nPort: 0\n"),
        Some(b"There aren't any bypass domains set on Ethernet.\n"),
        Some(b"IPv6: Manual\nIPv6 IP address: fd00::5\nIPv6 Prefix Length: 64\nIPv6 Router: fd00::1\n"),
        Some(b"There aren't any DNS Servers set on Ethernet.\n"),
    );
    assert!(!none.socks_enabled);
    assert_eq!(none.socks_server, "");
    assert!(none.bypass.is_empty() && none.dns.is_empty());
    assert!(matches!(&none.ipv6, Ipv6Mode::Manual { address, prefix, router } if address == "fd00::5" && prefix == "64" && router == "fd00::1"));
    let auto = service_state("X", None, None, Some(b"IPv6: Automatic\n"), None);
    assert!(matches!(auto.ipv6, Ipv6Mode::Automatic));
    let odd = service_state("X", None, None, Some(b"IPv6: Manual\n"), None);
    assert!(matches!(odd.ipv6, Ipv6Mode::Unknown));
}

#[test]
fn every_service_is_restored() {
    let svcs = vec!["Wi-Fi".to_string()];
    let on = proxy_enable(&svcs, false);
    let v6_off = ipv6_disable(&svcs);
    let dns_on = dns_leak_enable("/d", Some("/usr/sbin/dnsmasq"), &svcs);
    let has = |plan: &Vec<Action>, args: &[&str]| {
        plan.iter().any(|a| matches!(a, Action::Run(c) if c.program == "networksetup" && c.args == strs(args)))
    };
    assert!(has(&on, &["-setsocksfirewallproxystate", "Wi-Fi", "on"]));
    assert!(has(&v6_off, &["-setv6off", "Wi-Fi"]));
    assert!(has(&dns_on, &["-setdnsservers", "Wi-Fi", "127.0.0.1"]));
    let states = vec![recorded_wifi()];
    let off = proxy_disable(&states);
    assert!(has(&off, &["-setsocksfirewallproxy", "Wi-Fi", "10.0.0.5", "1080"]));
    assert!(has(&off, &["-setproxybypassdomains", "Wi-Fi", "*.local", "169.254/16"]));
    assert!(has(&off, &["-setsocksfirewallproxystate", "Wi-Fi", "on"]));
    assert!(has(&ipv6_restore(&states), &["-setv6off", "Wi-Fi"]));
    assert!(has(&dns_leak_disable("/d", None, &states), &["-setdnsservers", "Wi-Fi", "1.1.1.1", "9.9.9.9"]));
}

#[test]
fn binary_locations_in_search_order() {
    assert_eq!(
        torshield::tor::tor_candidates(),
        strs(&["/opt/homebrew/bin/tor", "/usr/local/bin/tor", "/usr/bin/tor"])
    );
    assert_eq!(
        torshield::proxy::dnsmasq_candidates(),
        strs(&["/opt/homebrew/sbin/dnsmasq", "/usr/local/sbin/dnsmasq", "/usr/sbin/dnsmasq"])
    );
}

#[test]
fn helper_build_decisions() {
    assert_eq!(helper_source(Some("int main(){}"), "int main(){}"), HelperSource::Bundled);
    assert_eq!(helper_source(Some("int main(){ evil(); }"), "int main(){}"), HelperSource::Embedded);
    assert_eq!(helper_source(None, "int main(){}"), HelperSource::Embedded);
    assert!(helper_install_ready(true, true));
    assert!(!helper_install_ready(true, false));
    assert!(!helper_install_ready(false, true));
}
