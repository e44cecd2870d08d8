use torshield::config::Config;
use std::collections::HashMap;
use torshield::firefox::{firefox_quit_plan, firefox_reopen_plan, firefox_prefs, firefox_version, prefs_js_enabled, profile_plan, strip_prefs, user_js_enabled, ProfileFiles};
use torshield::helper::Action;

#[test]
fn strip_removes_only_managed_prefs() {
    let content = "user_pref(\"network.proxy.type\", 1);\nuser_pref(\"browser.tabs.warnOnClose\", false);\n  user_pref(\"geo.enabled\", false);\n// user_pref(\"geo.enabled\", true);\nuser_pref(\"media.peerconnection.enabled\", true);";
    assert_eq!(
        strip_prefs(content),
        "user_pref(\"browser.tabs.warnOnClose\", false);\n// user_pref(\"geo.enabled\", true);"
    );
}

#[test]
fn strip_keeps_prefs_whose_names_only_contain_a_managed_word() {
    let content = "user_pref(\"extensions.geo.enabled\", true);\nuser_pref(\"my.network.proxy\", 1);";
    assert_eq!(strip_prefs(content), content);
}

#[test]
fn strip_splits_lines_like_str_lines() {
    assert_eq!(strip_prefs(""), "");
    assert_eq!(strip_prefs("a\r\nb\n"), "a\nb");
    assert_eq!(strip_prefs("a\n\nuser_pref(\"dom.battery.enabled\", false);\n"), "a\n");
    assert_eq!(strip_prefs("x\r"), "x\r");
}

#[test]
fn prefs_block_with_user_agent() {
    let p = firefox_prefs(true, false, false, "128.0");
    assert!(p.starts_with("\n// TorShield\nuser_pref(\"network.proxy.type\", 1);\n"));
    assert!(p.contains("user_pref(\"privacy.resistFingerprinting\", false);\n"));
    assert!(p.contains("user_pref(\"dom.webaudio.enabled\", true);\n"));
    assert!(p.contains(
        "user_pref(\"general.useragent.override\", \"Mozilla/5.0 (Windows NT 10.0; Win64; x64; rv:128.0) Gecko/20100101 Firefox/128.0\");\n"
    ));
    assert!(!p.contains("intl.accept_languages"));
    assert!(p.ends_with("Firefox/128.0\");\n"));
}

#[test]
fn prefs_block_with_fingerprinting_resistance() {
    let p = firefox_prefs(true, true, true, "128.0");
    assert!(p.contains("user_pref(\"privacy.resistFingerprinting\", true);\n"));
    assert!(p.contains("user_pref(\"privacy.fingerprintingProtection.overrides\", \"+AllTargets\");\n"));
    assert!(p.contains("user_pref(\"dom.webaudio.enabled\", false);\n"));
    assert!(!p.contains("general.useragent.override"));
    assert!(p.ends_with(
        "user_pref(\"intl.accept_languages\", \"en-US, en\");\nuser_pref(\"javascript.use_us_english_locale\", true);\n"
    ));
    assert_eq!(p.lines().count(), 2 + 23 + 5 + 2);
}

#[test]
fn stripping_the_prefs_block_leaves_the_marker() {
    for (ua, lang, rfp) in [(true, true, false), (false, false, true), (true, false, true)] {
        assert_eq!(strip_prefs(&firefox_prefs(ua, lang, rfp, "Mozilla Firefox 131.0")), "\n// TorShield");
    }
}

#[test]
fn version_from_firefox_output() {
    assert_eq!(firefox_version("Mozilla Firefox 128.0.3\n"), "128.0");
    assert_eq!(firefox_version("Mozilla Firefox 128.3.1\n"), "128.3");
    assert_eq!(firefox_version("130.1\n"), "130.1");
    assert_eq!(firefox_version("115"), "115");
    assert_eq!(firefox_version(""), "128.0");
    assert_eq!(firefox_version("  \n"), "128.0");
}

#[test]
fn user_js_hardening() {
    let mut cfg = Config::default();
    cfg.resist_fp = false;
    let old = "user_pref(\"browser.tabs.warnOnClose\", false);\nuser_pref(\"network.proxy.type\", 0);";
    let hardened = user_js_enabled(old, &cfg, "128.0");
    assert!(hardened.starts_with("user_pref(\"browser.tabs.warnOnClose\", false);\n// TorShield\n"));
    assert!(!hardened.contains("\"network.proxy.type\", 0"));
    assert_eq!(
        strip_prefs(&hardened),
        "user_pref(\"browser.tabs.warnOnClose\", false);\n// TorShield"
    );
}

#[test]
fn prefs_js_hardening() {
    let cfg = Config::default();
    let old = "user_pref(\"app.update.auto\", false);\nuser_pref(\"privacy.resistFingerprinting\", false);\n";
    let on = prefs_js_enabled(old, &cfg, "128.0");
    assert_eq!(
        on,
        "user_pref(\"app.update.auto\", false);\nuser_pref(\"layout.css.prefers-color-scheme.content-override\", 1);\nuser_pref(\"privacy.resistFingerprinting\", true);\nuser_pref(\"general.useragent.override\", \"Mozilla/5.0 (Windows NT 10.0; Win64; x64; rv:128.0) Gecko/20100101 Firefox/128.0\");\nuser_pref(\"intl.accept_languages\", \"en-US, en\");\n"
    );
    assert_eq!(strip_prefs(&on), "user_pref(\"app.update.auto\", false);");
}

type Disk = HashMap<String, String>;

fn files_of(disk: &Disk) -> ProfileFiles {
    ProfileFiles {
        user_js: disk.get("/p/user.js").cloned(),
        user_backup: disk.get("/p/user.js.opsec_bak").cloned(),
        prefs_js: disk.get("/p/prefs.js").cloned(),
        prefs_backup: disk.get("/p/prefs.js.opsec_bak").cloned(),
    }
}

fn apply(disk: &mut Disk, plan: &[Action]) {
    for a in plan {
        match a {
            Action::WriteFile(p, c) => {
                disk.insert(p.clone(), c.clone());
            }
            Action::RemoveFile(p) => {
                disk.remove(p);
            }
            other => panic!("unexpected {:?}", other),
        }
    }
}

fn round_trip(disk0: Disk) {
    let cfg = Config::default();
    let mut disk = disk0.clone();
    let on = profile_plan(true, "/p", &files_of(&disk), &cfg, "128.0");
    apply(&mut disk, &on);
    assert!(disk.contains_key("/p/user.js"));
    assert!(disk["/p/user.js"].contains("network.proxy.socks_port"));
    let off = profile_plan(false, "/p", &files_of(&disk), &cfg, "128.0");
    apply(&mut disk, &off);
    assert_eq!(disk, disk0);
}

#[test]
fn restoring_gives_the_profile_back() {
    let mut d = Disk::new();
    round_trip(d.clone());
    d.insert("/p/prefs.js".into(), String::new());
    round_trip(d.clone());
    d.insert("/p/prefs.js".into(), "user_pref(\"network.proxy.type\", 0);\nuser_pref(\"a.b\", 1);\n".into());
    round_trip(d.clone());
    d.insert("/p/user.js".into(), "user_pref(\"geo.enabled\", true);\n".into());
    round_trip(d.clone());
    d.insert("/p/user.js".into(), String::new());
    round_trip(d);
}

#[test]
fn backups_are_not_overwritten() {
    let mut d = Disk::new();
    d.insert("/p/user.js".into(), "hardened".into());
    d.insert("/p/user.js.opsec_bak".into(), "first".into());
    let on = profile_plan(true, "/p", &files_of(&d), &Config::default(), "128.0");
    assert!(!on.iter().any(|a| matches!(a, Action::WriteFile(p, _) if p == "/p/user.js.opsec_bak")));
    let off = profile_plan(false, "/p", &files_of(&d), &Config::default(), "128.0");
    apply(&mut d, &off);
    assert_eq!(d.get("/p/user.js").map(String::as_str), Some("first"));
    assert!(!d.contains_key("/p/user.js.opsec_bak"));
}

#[test]
fn user_js_with_other_lines_is_stripped_when_no_backup() {
    let mut d = Disk::new();
    d.insert("/p/user.js".into(), "user_pref(\"a.b\", 1);\nuser_pref(\"geo.enabled\", false);".into());
    let off = profile_plan(false, "/p", &files_of(&d), &Config::default(), "128.0");
    apply(&mut d, &off);
    assert_eq!(d.get("/p/user.js").map(String::as_str), Some("user_pref(\"a.b\", 1);"));
}

#[test]
fn running_firefox_is_quit_and_reopened() {
    let q = firefox_quit_plan(true);
    assert_eq!(q.len(), 2);
    assert!(matches!(&q[0], Action::Run(c) if c.program == "osascript" && c.args == vec!["-e".to_string(), "tell application \"Firefox\" to quit".to_string()]));
    assert!(matches!(&q[1], Action::SleepMillis(2000)));
    assert!(firefox_quit_plan(false).is_empty());
    let r = firefox_reopen_plan(true);
    assert!(matches!(&r[0], Action::Spawn(c) if c.program == "open" && c.args == vec!["-a".to_string(), "Firefox".to_string()]));
    assert!(firefox_reopen_plan(false).is_empty());
}

#[test]
fn hardened_user_js_has_the_promised_lines() {
    let t = firefox_prefs(true, true, false, "128.0");
    for line in [
        "user_pref(\"network.proxy.type\", 1);",
        "user_pref(\"network.proxy.socks\", \"127.0.0.1\");",
        "user_pref(\"media.peerconnection.enabled\", false);",
        "user_pref(\"network.http.http3.enabled\", false);",
        "user_pref(\"geo.enabled\", false);",
        "user_pref(\"privacy.resistFingerprinting\", false);",
        "user_pref(\"intl.accept_languages\", \"en-US, en\");",
    ] {
        assert!(t.contains(line), "{}", line);
    }
    assert!(t.contains("general.useragent.override"));
    assert!(!firefox_prefs(true, true, true, "128.0").contains("general.useragent.override"));
}
