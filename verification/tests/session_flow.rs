use torshield::config::{toggle_cfg, Config, ConfigChange, OpsecState};
use torshield::menu::{menu_model, Dependencies};
use torshield::session::{
    change_effect, connected_notice, disable_plan_for, disconnected_notice, enable_plan_for, failed_notice,
    identity_notice, mark_connected, mark_disconnected, menu_action, quit_plan, real_ip_after_disconnect,
    record_public_ip, rollback_plan, rotation_wait, startup_plan, teardown_plan_for, tor_wait_step, ChangeEffect, MenuAction,
    RotationWait, Step, TorWait,
};

fn everything_on() -> Config {
    let mut c = Config::default();
    c.pf_firewall = true;
    c.env_inject = true;
    c
}

fn nothing_optional() -> Config {
    let mut c = Config::default();
    c.clear_logs = false;
    c.mac_spoof = false;
    c.dns_leak = false;
    c.pf_firewall = false;
    c.env_inject = false;
    c.firefox = false;
    c
}

#[test]
fn enable_plan_with_defaults() {
    assert_eq!(
        enable_plan_for(&Config::default()),
        vec![
            Step::ClearLogs,
            Step::Ipv6Disable,
            Step::MacSpoofEnable,
            Step::StartTor,
            Step::WaitForTor,
            Step::ProxyEnable,
            Step::DnsLeakEnable,
            Step::WriteLock,
            Step::FirefoxHarden,
            Step::FetchTorIp,
        ]
    );
}

#[test]
fn enable_plan_minimal() {
    assert_eq!(
        enable_plan_for(&nothing_optional()),
        vec![Step::Ipv6Disable, Step::StartTor, Step::WaitForTor, Step::ProxyEnable, Step::WriteLock, Step::FetchTorIp]
    );
}

#[test]
fn teardown_plan_with_everything_on() {
    assert_eq!(
        teardown_plan_for(&everything_on()),
        vec![
            Step::PfDisable,
            Step::DnsLeakDisable,
            Step::EnvInjectDisable,
            Step::ProxyDisable,
            Step::Ipv6Restore,
            Step::FirefoxRestore,
            Step::StopTor,
            Step::MacSpoofRestore,
            Step::RemoveLock,
        ]
    );
    let d = disable_plan_for(&everything_on());
    assert_eq!(&d[..9], &teardown_plan_for(&everything_on())[..]);
    assert_eq!(&d[9..], &[Step::NotifyDisconnected, Step::FetchRealIp]);
}

#[test]
fn every_enabled_step_is_undone_on_disconnect() {
    let undo = |s: Step| match s {
        Step::Ipv6Disable => Some(Step::Ipv6Restore),
        Step::MacSpoofEnable => Some(Step::MacSpoofRestore),
        Step::StartTor => Some(Step::StopTor),
        Step::ProxyEnable => Some(Step::ProxyDisable),
        Step::DnsLeakEnable => Some(Step::DnsLeakDisable),
        Step::PfEnable => Some(Step::PfDisable),
        Step::EnvInjectEnable => Some(Step::EnvInjectDisable),
        Step::WriteLock => Some(Step::RemoveLock),
        Step::FirefoxHarden => Some(Step::FirefoxRestore),
        _ => None,
    };
    for c in [Config::default(), everything_on(), nothing_optional()] {
        let off = disable_plan_for(&c);
        for s in enable_plan_for(&c) {
            if let Some(u) = undo(s) {
                assert!(off.contains(&u), "{:?} not undone", s);
            }
        }
    }
}

#[test]
fn quit_and_startup_plans() {
    assert_eq!(quit_plan(true, &Config::default()), teardown_plan_for(&Config::default()));
    assert!(quit_plan(false, &Config::default()).is_empty());
    assert_eq!(startup_plan(true, &everything_on()), teardown_plan_for(&everything_on()));
    assert!(startup_plan(false, &everything_on()).is_empty());
}

#[test]
fn waiting_for_tor() {
    assert_eq!(tor_wait_step(true, 0), TorWait::Ready);
    assert_eq!(tor_wait_step(true, 40), TorWait::Ready);
    assert_eq!(tor_wait_step(false, 0), TorWait::Sleep);
    assert_eq!(tor_wait_step(false, 29), TorWait::Sleep);
    assert_eq!(tor_wait_step(false, 30), TorWait::GiveUp);
}

#[test]
fn rotation_schedule() {
    assert_eq!(rotation_wait(0, true), RotationWait::Idle);
    assert_eq!(rotation_wait(5, false), RotationWait::Idle);
    assert_eq!(rotation_wait(5, true), RotationWait::RotateAfter(300));
    assert_eq!(rotation_wait(30, true), RotationWait::RotateAfter(1800));
    assert_eq!(rotation_wait(u32::MAX, true), RotationWait::RotateAfter(u32::MAX as u64 * 60));
}

#[test]
fn menu_ids_map_to_actions() {
    assert_eq!(menu_action("toggle"), MenuAction::ToggleConnection);
    assert_eq!(menu_action("rotate"), MenuAction::NewIdentity);
    assert_eq!(menu_action("node_fr"), MenuAction::Change(ConfigChange::ExcludeFr));
    assert_eq!(menu_action("rot_off"), MenuAction::Change(ConfigChange::RotateMins(0)));
    assert_eq!(menu_action("rot_15"), MenuAction::Change(ConfigChange::RotateMins(15)));
    assert_eq!(menu_action("prot_env"), MenuAction::Change(ConfigChange::EnvInject));
    assert_eq!(menu_action("login"), MenuAction::ToggleLogin);
    assert_eq!(menu_action("quit"), MenuAction::Quit);
    assert_eq!(menu_action("quit "), MenuAction::Ignore);
    assert_eq!(menu_action(""), MenuAction::Ignore);
}

#[test]
fn change_effects_while_connected_and_not() {
    let mut c = Config::default();
    let after = toggle_cfg(&mut c, ConfigChange::PfFirewall);
    assert_eq!(change_effect(ConfigChange::PfFirewall, true, &after), ChangeEffect::PfEnable);
    assert_eq!(change_effect(ConfigChange::PfFirewall, false, &after), ChangeEffect::Nothing);
    let after = toggle_cfg(&mut c, ConfigChange::PfFirewall);
    assert_eq!(change_effect(ConfigChange::PfFirewall, true, &after), ChangeEffect::PfDisable);
    let after = toggle_cfg(&mut c, ConfigChange::Firefox);
    assert_eq!(change_effect(ConfigChange::Firefox, true, &after), ChangeEffect::FirefoxApply(false));
    assert_eq!(change_effect(ConfigChange::ResistFp, true, &after), ChangeEffect::Nothing);
    assert_eq!(change_effect(ConfigChange::ResistFp, true, &Config::default()), ChangeEffect::FirefoxApply(true));
    assert_eq!(change_effect(ConfigChange::RotateMins(5), false, &c), ChangeEffect::RotationPeriod(5));
    assert_eq!(change_effect(ConfigChange::EnvInject, true, &everything_on()), ChangeEffect::EnvInjectEnable);
    assert_eq!(change_effect(ConfigChange::EnvInject, true, &Config::default()), ChangeEffect::EnvInjectDisable);
    assert_eq!(change_effect(ConfigChange::MacSpoof, true, &c), ChangeEffect::Nothing);
}

#[test]
fn state_after_connect_and_disconnect() {
    let mut s = OpsecState::default();
    s.real_ip = Some("1.2.3.4".to_string());
    mark_connected(&mut s, Some("5.6.7.8".to_string()));
    assert!(s.active);
    assert_eq!(s.tor_ip.as_deref(), Some("5.6.7.8"));
    assert_eq!(s.real_ip.as_deref(), Some("1.2.3.4"));
    record_public_ip(&mut s, "9.9.9.9".to_string());
    assert_eq!(s.real_ip.as_deref(), Some("1.2.3.4"));
    mark_disconnected(&mut s, Some("2.2.2.2".to_string()));
    assert!(!s.active);
    assert!(s.tor_ip.is_none());
    assert_eq!(s.real_ip.as_deref(), Some("2.2.2.2"));
    record_public_ip(&mut s, "9.9.9.9".to_string());
    assert_eq!(s.real_ip.as_deref(), Some("9.9.9.9"));
}

#[test]
fn real_ip_prefers_the_echo_service() {
    assert_eq!(real_ip_after_disconnect(Some("a".into()), Some("b".into())), Some("a".to_string()));
    assert_eq!(real_ip_after_disconnect(None, Some("b".into())), Some("b".to_string()));
    assert_eq!(real_ip_after_disconnect(None, None), None);
}

#[test]
fn notices() {
    let n = connected_notice(&Some("5.6.7.8".to_string()));
    assert_eq!((n.title.as_str(), n.body.as_str()), ("Connected", "Exit node: 5.6.7.8"));
    let n = connected_notice(&None);
    assert_eq!(n.body, "Connected via Tor");
    let n = failed_notice();
    assert_eq!((n.title.as_str(), n.body.as_str()), ("Connection Failed", "Tor did not start - check that Tor is installed"));
    let n = disconnected_notice();
    assert_eq!((n.title.as_str(), n.body.as_str()), ("Disconnected", "All protections off"));
    let n = identity_notice(&None, true);
    assert_eq!((n.title.as_str(), n.body.as_str()), ("Identity Rotated", "New circuit active"));
    let n = identity_notice(&None, false);
    assert_eq!((n.title.as_str(), n.body.as_str()), ("New Identity", "Circuit rotated"));
    let n = identity_notice(&Some("1.1.1.1".to_string()), false);
    assert_eq!(n.body, "Exit node: 1.1.1.1");
}

#[test]
fn menu_when_disconnected() {
    let s = OpsecState::default();
    let deps = Dependencies { helper: true, tor: false, dnsmasq: true, clang: false };
    let m = menu_model(&s, &Config::default(), &deps, "1.2.0");
    assert_eq!(m.version, "TorShield  v1.2.0");
    assert_eq!(m.status, "Disconnected");
    assert_eq!(m.real_ip, "Real IP: \u{2014}");
    assert_eq!(m.toggle, "Connect");
    assert!(!m.rotate_enabled);
    assert_eq!(m.rotation, "Identity Rotation: Off");
    assert_eq!(m.rotation_checks, vec![true, false, false, false, false]);
    assert_eq!(
        m.deps,
        vec![
            "[OK]  ts_helper".to_string(),
            "[!]   brew install tor".to_string(),
            "[OK]  dnsmasq".to_string(),
            "[!]   xcode-select --install".to_string(),
        ]
    );
}

#[test]
fn menu_when_connected() {
    let mut s = OpsecState::default();
    s.active = true;
    s.tor_ip = Some("5.6.7.8".to_string());
    s.real_ip = Some("1.2.3.4".to_string());
    let mut c = Config::default();
    c.rotate_mins = 15;
    let deps = Dependencies { helper: true, tor: true, dnsmasq: true, clang: true };
    let m = menu_model(&s, &c, &deps, "0.1.0");
    assert_eq!(m.status, "Connected  |  Exit: 5.6.7.8");
    assert_eq!(m.real_ip, "Real IP: 1.2.3.4  (concealed)");
    assert_eq!(m.toggle, "Disconnect");
    assert!(m.rotate_enabled);
    assert_eq!(m.rotation, "Identity Rotation: 15 min");
    assert_eq!(m.rotation_checks, vec![false, false, false, true, false]);
    s.tor_ip = None;
    let m = menu_model(&s, &c, &deps, "0.1.0");
    assert_eq!(m.status, "Connected  |  Exit: \u{2014}");
}

#[test]
fn a_connect_that_gives_up_is_undone() {
    let done = vec![Step::ClearLogs, Step::Ipv6Disable, Step::MacSpoofEnable, Step::StartTor];
    assert_eq!(rollback_plan(&done), vec![Step::StopTor, Step::MacSpoofRestore, Step::Ipv6Restore]);
    assert!(rollback_plan(&Vec::new()).is_empty());
    let all = enable_plan_for(&everything_on());
    let back = rollback_plan(&all);
    assert_eq!(back.last(), Some(&Step::Ipv6Restore));
    assert_eq!(back[0], Step::FirefoxRestore);
    for s in teardown_plan_for(&everything_on()) {
        assert!(back.contains(&s));
    }
}

#[test]
fn spotify_bypass_from_the_menu() {
    assert_eq!(menu_action("bypass_spotify"), MenuAction::Change(ConfigChange::SpotifyBypass));
    let mut c = Config::default();
    assert!(!c.spotify_bypass);
    let after = toggle_cfg(&mut c, ConfigChange::SpotifyBypass);
    assert!(after.spotify_bypass);
    assert_eq!(change_effect(ConfigChange::SpotifyBypass, true, &after), ChangeEffect::ProxyEnable);
    assert_eq!(change_effect(ConfigChange::SpotifyBypass, false, &after), ChangeEffect::Nothing);
}

#[test]
fn menu_check_marks_follow_settings() {
    let mut c = Config::default();
    c.exclude_gb = false;
    c.exclude_fr = true;
    c.pf_firewall = true;
    c.spotify_bypass = true;
    let deps = Dependencies { helper: true, tor: true, dnsmasq: true, clang: true };
    let m = menu_model(&OpsecState::default(), &c, &deps, "0.1.0");
    assert_eq!(m.node_checks, vec![true, false, true, true, true, false, true]);
    assert_eq!(m.protection_checks, vec![true, true, true, true, true, true, true, true, false]);
    assert!(m.spotify_check);
}
