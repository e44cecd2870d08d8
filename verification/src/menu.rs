use vstd::prelude::*;
pub use crate::config::toggle_cfg;
use crate::config::{Config, OpsecState};
use crate::text::owned;

verus! {

/// Which dependencies were found.
#[derive(Clone, Copy, Debug)]
pub struct Dependencies {
    pub helper: bool,
    pub tor: bool,
    pub dnsmasq: bool,
    pub clang: bool,
}

/// The texts and states of the menu that depend on what TorShield knows and on the
/// settings.
#[derive(Debug)]
pub struct MenuModel {
    pub version: String,
    pub status: String,
    pub real_ip: String,
    pub deps: Vec<String>,
    pub toggle: String,
    pub rotate_enabled: bool,
    pub rotation: String,
    /// Check marks of the rotation periods off, 2, 5, 15 and 30 minutes.
    pub rotation_checks: Vec<bool>,
    /// Check marks of the excluded exit countries US, GB, AU, CA, NZ, DE, FR.
    pub node_checks: Vec<bool>,
    /// Check marks of Firefox hardening, fingerprint resistance, MAC randomisation, DNS
    /// leak protection, kill switch, log purge, User-Agent, English locale and proxy
    /// environment variables.
    pub protection_checks: Vec<bool>,
    /// Check mark of the Spotify bypass.
    pub spotify_check: bool,
}

/// An address to show, or a dash when unknown.
pub open spec fn shown(ip: Option<Seq<char>>) -> Seq<char> {
    match ip {
        Some(s) => s,
        None => "—"@,
    }
}

pub open spec fn status_text(active: bool, tor_ip: Option<Seq<char>>) -> Seq<char> {
    if active {
        "Connected  |  Exit: "@ + shown(tor_ip)
    } else {
        "Disconnected"@
    }
}

/// The real address is marked concealed while connected.
pub open spec fn real_ip_text(active: bool, real_ip: Option<Seq<char>>) -> Seq<char> {
    if active {
        "Real IP: "@ + shown(real_ip) + "  (concealed)"@
    } else {
        "Real IP: "@ + shown(real_ip)
    }
}

pub open spec fn dep_text(ok: bool, ok_label: Seq<char>, fix: Seq<char>) -> Seq<char> {
    if ok {
        "[OK]  "@ + ok_label
    } else {
        "[!]   "@ + fix
    }
}

pub open spec fn rotation_text(mins: u32) -> Seq<char> {
    if mins == 0 {
        "Identity Rotation: Off"@
    } else if mins == 2 {
        "Identity Rotation: 2 min"@
    } else if mins == 5 {
        "Identity Rotation: 5 min"@
    } else if mins == 15 {
        "Identity Rotation: 15 min"@
    } else if mins == 30 {
        "Identity Rotation: 30 min"@
    } else {
        "Identity Rotation"@
    }
}

fn shown_ip(ip: &Option<String>) -> (r: String)
    ensures
        r@ == shown(crate::session::opt_string_view(*ip)),
{
    match ip {
        Some(s) => owned(s.as_str()),
        None => owned("—"),
    }
}

fn dep_line(ok: bool, ok_label: &str, fix: &str) -> (r: String)
    ensures
        r@ == dep_text(ok, ok_label@, fix@),
{
    if ok {
        let mut r = owned("[OK]  ");
        r.append(ok_label);
        r
    } else {
        let mut r = owned("[!]   ");
        r.append(fix);
        r
    }
}

fn rotation_line(mins: u32) -> (r: String)
    ensures
        r@ == rotation_text(mins),
{
    if mins == 0 {
        owned("Identity Rotation: Off")
    } else if mins == 2 {
        owned("Identity Rotation: 2 min")
    } else if mins == 5 {
        owned("Identity Rotation: 5 min")
    } else if mins == 15 {
        owned("Identity Rotation: 15 min")
    } else if mins == 30 {
        owned("Identity Rotation: 30 min")
    } else {
        owned("Identity Rotation")
    }
}

/// The state-dependent part of the menu.
pub fn menu_model(state: &OpsecState, cfg: &Config, deps: &Dependencies, app_version: &str) -> (m: MenuModel)
    ensures
        m.version@ == "TorShield  v"@ + app_version@,
        m.status@ == status_text(state.active, crate::session::opt_string_view(state.tor_ip)),
        m.real_ip@ == real_ip_text(state.active, crate::session::opt_string_view(state.real_ip)),
        crate::helper::string_views(m.deps@) == seq![
            dep_text(deps.helper, "ts_helper"@, "brew install? (run TorShield)"@),
            dep_text(deps.tor, "Tor"@, "brew install tor"@),
            dep_text(deps.dnsmasq, "dnsmasq"@, "brew install dnsmasq"@),
            dep_text(deps.clang, "clang"@, "xcode-select --install"@),
        ],
        m.toggle@ == (if state.active { "Disconnect"@ } else { "Connect"@ }),
        m.rotate_enabled == state.active,
        m.rotation@ == rotation_text(cfg.rotate_mins),
        m.rotation_checks@ == seq![
            cfg.rotate_mins == 0,
            cfg.rotate_mins == 2,
            cfg.rotate_mins == 5,
            cfg.rotate_mins == 15,
            cfg.rotate_mins == 30,
        ],
        m.node_checks@ == seq![
            cfg.exclude_us,
            cfg.exclude_gb,
            cfg.exclude_au,
            cfg.exclude_ca,
            cfg.exclude_nz,
            cfg.exclude_de,
            cfg.exclude_fr,
        ],
        m.protection_checks@ == seq![
            cfg.firefox,
            cfg.resist_fp,
            cfg.mac_spoof,
            cfg.dns_leak,
            cfg.pf_firewall,
            cfg.clear_logs,
            cfg.ua_spoof,
            cfg.lang_spoof,
            cfg.env_inject,
        ],
        m.spotify_check == cfg.spotify_bypass,
        m.node_checks@ == node_marks(*cfg),
        m.protection_checks@ == protection_marks(*cfg),
        m.rotation_checks@ == rotation_marks(*cfg),
{
    let mut version = owned("TorShield  v");
    version.append(app_version);
    let tor_ip = shown_ip(&state.tor_ip);
    let known_real = shown_ip(&state.real_ip);
    let status = if state.active {
        let mut s = owned("Connected  |  Exit: ");
        s.append(tor_ip.as_str());
        s
    } else {
        owned("Disconnected")
    };
    let mut real_ip = owned("Real IP: ");
    real_ip.append(known_real.as_str());
    if state.active {
        real_ip.append("  (concealed)");
    }
    let mut dep_lines: Vec<String> = Vec::new();
    dep_lines.push(dep_line(deps.helper, "ts_helper", "brew install? (run TorShield)"));
    dep_lines.push(dep_line(deps.tor, "Tor", "brew install tor"));
    dep_lines.push(dep_line(deps.dnsmasq, "dnsmasq", "brew install dnsmasq"));
    dep_lines.push(dep_line(deps.clang, "clang", "xcode-select --install"));
    let toggle = if state.active { owned("Disconnect") } else { owned("Connect") };
    let m = cfg.rotate_mins;
    let checks = vec![m == 0, m == 2, m == 5, m == 15, m == 30];
    let model = MenuModel {
        version,
        status,
        real_ip,
        deps: dep_lines,
        toggle,
        rotate_enabled: state.active,
        rotation: rotation_line(m),
        rotation_checks: checks,
        node_checks: vec![
            cfg.exclude_us,
            cfg.exclude_gb,
            cfg.exclude_au,
            cfg.exclude_ca,
            cfg.exclude_nz,
            cfg.exclude_de,
            cfg.exclude_fr,
        ],
        protection_checks: vec![
            cfg.firefox,
            cfg.resist_fp,
            cfg.mac_spoof,
            cfg.dns_leak,
            cfg.pf_firewall,
            cfg.clear_logs,
            cfg.ua_spoof,
            cfg.lang_spoof,
            cfg.env_inject,
        ],
        spotify_check: cfg.spotify_bypass,
    };
    assert(crate::helper::string_views(model.deps@) =~= seq![
        dep_text(deps.helper, "ts_helper"@, "brew install? (run TorShield)"@),
        dep_text(deps.tor, "Tor"@, "brew install tor"@),
        dep_text(deps.dnsmasq, "dnsmasq"@, "brew install dnsmasq"@),
        dep_text(deps.clang, "clang"@, "xcode-select --install"@),
    ]);
    model
}

/// The rotation label names the chosen period: for each period offered in the menu it
/// reads "Identity Rotation: " followed by the number of minutes in decimal and " min";
/// it reads "Identity Rotation: Off" exactly when rotation is off.
pub proof fn lemma_rotation_label_names_period(mins: u32)
    ensures
        (mins == 2 || mins == 5 || mins == 15 || mins == 30) ==> rotation_text(mins)
            == "Identity Rotation: "@ + crate::tor::decimal_text(mins) + " min"@,
        (rotation_text(mins) == "Identity Rotation: Off"@) <==> mins == 0,
        !(mins == 0 || mins == 2 || mins == 5 || mins == 15 || mins == 30) ==> rotation_text(mins)
            == "Identity Rotation"@,
{
    reveal_strlit("Identity Rotation: ");
    reveal_strlit(" min");
    reveal_strlit("Identity Rotation: Off");
    reveal_strlit("Identity Rotation: 2 min");
    reveal_strlit("Identity Rotation: 5 min");
    reveal_strlit("Identity Rotation: 15 min");
    reveal_strlit("Identity Rotation: 30 min");
    reveal_strlit("Identity Rotation");
    reveal_with_fuel(crate::tor::decimal_text, 2);
    let p = "Identity Rotation: "@;
    let q = " min"@;
    if mins == 2 {
        assert(crate::tor::decimal_text(2) =~= seq!['2']);
        assert(p + crate::tor::decimal_text(mins) + q =~= "Identity Rotation: 2 min"@);
    } else if mins == 5 {
        assert(crate::tor::decimal_text(5) =~= seq!['5']);
        assert(p + crate::tor::decimal_text(mins) + q =~= "Identity Rotation: 5 min"@);
    } else if mins == 15 {
        assert(crate::tor::decimal_text(15) =~= seq!['1', '5']);
        assert(p + crate::tor::decimal_text(mins) + q =~= "Identity Rotation: 15 min"@);
    } else if mins == 30 {
        assert(crate::tor::decimal_text(30) =~= seq!['3', '0']);
        assert(p + crate::tor::decimal_text(mins) + q =~= "Identity Rotation: 30 min"@);
    }
    assert("Identity Rotation"@.len() != "Identity Rotation: Off"@.len());
    assert("Identity Rotation: 2 min"@.len() != "Identity Rotation: Off"@.len());
    assert("Identity Rotation: 5 min"@.len() != "Identity Rotation: Off"@.len());
    assert("Identity Rotation: 15 min"@.len() != "Identity Rotation: Off"@.len());
    assert("Identity Rotation: 30 min"@.len() != "Identity Rotation: Off"@.len());
}

} // verus!

verus! {

/// The check marks of the exit countries, in menu order.
pub open spec fn node_marks(c: Config) -> Seq<bool> {
    seq![c.exclude_us, c.exclude_gb, c.exclude_au, c.exclude_ca, c.exclude_nz, c.exclude_de, c.exclude_fr]
}

/// The check marks of the protections, in menu order.
pub open spec fn protection_marks(c: Config) -> Seq<bool> {
    seq![c.firefox, c.resist_fp, c.mac_spoof, c.dns_leak, c.pf_firewall, c.clear_logs, c.ua_spoof, c.lang_spoof, c.env_inject]
}

/// The check marks of the rotation periods, in menu order.
pub open spec fn rotation_marks(c: Config) -> Seq<bool> {
    seq![c.rotate_mins == 0, c.rotate_mins == 2, c.rotate_mins == 5, c.rotate_mins == 15, c.rotate_mins == 30]
}

proof fn lemma_node_clicks(c: Config)
    ensures
        node_marks(crate::config::changed(c, crate::session::menu_action_of("node_us"@)->Change_0)) == node_marks(c).update(0, !c.exclude_us),
        node_marks(crate::config::changed(c, crate::session::menu_action_of("node_gb"@)->Change_0)) == node_marks(c).update(1, !c.exclude_gb),
        node_marks(crate::config::changed(c, crate::session::menu_action_of("node_au"@)->Change_0)) == node_marks(c).update(2, !c.exclude_au),
        node_marks(crate::config::changed(c, crate::session::menu_action_of("node_ca"@)->Change_0)) == node_marks(c).update(3, !c.exclude_ca),
        node_marks(crate::config::changed(c, crate::session::menu_action_of("node_nz"@)->Change_0)) == node_marks(c).update(4, !c.exclude_nz),
        node_marks(crate::config::changed(c, crate::session::menu_action_of("node_de"@)->Change_0)) == node_marks(c).update(5, !c.exclude_de),
        node_marks(crate::config::changed(c, crate::session::menu_action_of("node_fr"@)->Change_0)) == node_marks(c).update(6, !c.exclude_fr),
{
    crate::session::lemma_menu_ids();
    assert(node_marks(crate::config::changed(c, crate::session::menu_action_of("node_us"@)->Change_0)) =~= node_marks(c).update(0, !c.exclude_us));
    assert(node_marks(crate::config::changed(c, crate::session::menu_action_of("node_gb"@)->Change_0)) =~= node_marks(c).update(1, !c.exclude_gb));
    assert(node_marks(crate::config::changed(c, crate::session::menu_action_of("node_au"@)->Change_0)) =~= node_marks(c).update(2, !c.exclude_au));
    assert(node_marks(crate::config::changed(c, crate::session::menu_action_of("node_ca"@)->Change_0)) =~= node_marks(c).update(3, !c.exclude_ca));
    assert(node_marks(crate::config::changed(c, crate::session::menu_action_of("node_nz"@)->Change_0)) =~= node_marks(c).update(4, !c.exclude_nz));
    assert(node_marks(crate::config::changed(c, crate::session::menu_action_of("node_de"@)->Change_0)) =~= node_marks(c).update(5, !c.exclude_de));
    assert(node_marks(crate::config::changed(c, crate::session::menu_action_of("node_fr"@)->Change_0)) =~= node_marks(c).update(6, !c.exclude_fr));
}

proof fn lemma_protection_clicks(c: Config)
    ensures
        protection_marks(crate::config::changed(c, crate::session::menu_action_of("prot_ff"@)->Change_0)) == protection_marks(c).update(0, !c.firefox),
        protection_marks(crate::config::changed(c, crate::session::menu_action_of("prot_rfp"@)->Change_0)) == protection_marks(c).update(1, !c.resist_fp),
        protection_marks(crate::config::changed(c, crate::session::menu_action_of("prot_mac"@)->Change_0)) == protection_marks(c).update(2, !c.mac_spoof),
        protection_marks(crate::config::changed(c, crate::session::menu_action_of("prot_dns"@)->Change_0)) == protection_marks(c).update(3, !c.dns_leak),
        protection_marks(crate::config::changed(c, crate::session::menu_action_of("prot_pf"@)->Change_0)) == protection_marks(c).update(4, !c.pf_firewall),
{
    crate::session::lemma_menu_ids();
    assert(protection_marks(crate::config::changed(c, crate::session::menu_action_of("prot_ff"@)->Change_0)) =~= protection_marks(c).update(0, !c.firefox));
    assert(protection_marks(crate::config::changed(c, crate::session::menu_action_of("prot_rfp"@)->Change_0)) =~= protection_marks(c).update(1, !c.resist_fp));
    assert(protection_marks(crate::config::changed(c, crate::session::menu_action_of("prot_mac"@)->Change_0)) =~= protection_marks(c).update(2, !c.mac_spoof));
    assert(protection_marks(crate::config::changed(c, crate::session::menu_action_of("prot_dns"@)->Change_0)) =~= protection_marks(c).update(3, !c.dns_leak));
    assert(protection_marks(crate::config::changed(c, crate::session::menu_action_of("prot_pf"@)->Change_0)) =~= protection_marks(c).update(4, !c.pf_firewall));
}

proof fn lemma_protection_clicks_more(c: Config)
    ensures
        protection_marks(crate::config::changed(c, crate::session::menu_action_of("prot_logs"@)->Change_0)) == protection_marks(c).update(5, !c.clear_logs),
        protection_marks(crate::config::changed(c, crate::session::menu_action_of("prot_ua"@)->Change_0)) == protection_marks(c).update(6, !c.ua_spoof),
        protection_marks(crate::config::changed(c, crate::session::menu_action_of("prot_lang"@)->Change_0)) == protection_marks(c).update(7, !c.lang_spoof),
        protection_marks(crate::config::changed(c, crate::session::menu_action_of("prot_env"@)->Change_0)) == protection_marks(c).update(8, !c.env_inject),
{
    crate::session::lemma_menu_ids();
    assert(protection_marks(crate::config::changed(c, crate::session::menu_action_of("prot_logs"@)->Change_0)) =~= protection_marks(c).update(5, !c.clear_logs));
    assert(protection_marks(crate::config::changed(c, crate::session::menu_action_of("prot_ua"@)->Change_0)) =~= protection_marks(c).update(6, !c.ua_spoof));
    assert(protection_marks(crate::config::changed(c, crate::session::menu_action_of("prot_lang"@)->Change_0)) =~= protection_marks(c).update(7, !c.lang_spoof));
    assert(protection_marks(crate::config::changed(c, crate::session::menu_action_of("prot_env"@)->Change_0)) =~= protection_marks(c).update(8, !c.env_inject));
}

proof fn lemma_rotation_clicks(c: Config)
    ensures
        rotation_marks(crate::config::changed(c, crate::session::menu_action_of("rot_off"@)->Change_0)) == seq![true, false, false, false, false],
        rotation_marks(crate::config::changed(c, crate::session::menu_action_of("rot_2"@)->Change_0)) == seq![false, true, false, false, false],
        rotation_marks(crate::config::changed(c, crate::session::menu_action_of("rot_5"@)->Change_0)) == seq![false, false, true, false, false],
        rotation_marks(crate::config::changed(c, crate::session::menu_action_of("rot_15"@)->Change_0)) == seq![false, false, false, true, false],
        rotation_marks(crate::config::changed(c, crate::session::menu_action_of("rot_30"@)->Change_0)) == seq![false, false, false, false, true],
{
    crate::session::lemma_menu_ids();
    assert(rotation_marks(crate::config::changed(c, crate::session::menu_action_of("rot_off"@)->Change_0)) =~= seq![true, false, false, false, false]);
    assert(rotation_marks(crate::config::changed(c, crate::session::menu_action_of("rot_2"@)->Change_0)) =~= seq![false, true, false, false, false]);
    assert(rotation_marks(crate::config::changed(c, crate::session::menu_action_of("rot_5"@)->Change_0)) =~= seq![false, false, true, false, false]);
    assert(rotation_marks(crate::config::changed(c, crate::session::menu_action_of("rot_15"@)->Change_0)) =~= seq![false, false, false, true, false]);
    assert(rotation_marks(crate::config::changed(c, crate::session::menu_action_of("rot_30"@)->Change_0)) =~= seq![false, false, false, false, true]);
}

/// Each item of the menu changes its own check mark: clicking the k-th exit country or
/// the k-th protection flips the k-th mark of its group and no other mark of that
/// group, and clicking a rotation period leaves that period alone checked.
pub proof fn lemma_menu_click_flips_its_mark(c: Config)
    ensures
        node_marks(crate::config::changed(c, crate::session::menu_action_of("node_us"@)->Change_0)) == node_marks(c).update(0, !c.exclude_us),
        node_marks(crate::config::changed(c, crate::session::menu_action_of("node_gb"@)->Change_0)) == node_marks(c).update(1, !c.exclude_gb),
        node_marks(crate::config::changed(c, crate::session::menu_action_of("node_au"@)->Change_0)) == node_marks(c).update(2, !c.exclude_au),
        node_marks(crate::config::changed(c, crate::session::menu_action_of("node_ca"@)->Change_0)) == node_marks(c).update(3, !c.exclude_ca),
        node_marks(crate::config::changed(c, crate::session::menu_action_of("node_nz"@)->Change_0)) == node_marks(c).update(4, !c.exclude_nz),
        node_marks(crate::config::changed(c, crate::session::menu_action_of("node_de"@)->Change_0)) == node_marks(c).update(5, !c.exclude_de),
        node_marks(crate::config::changed(c, crate::session::menu_action_of("node_fr"@)->Change_0)) == node_marks(c).update(6, !c.exclude_fr),
        protection_marks(crate::config::changed(c, crate::session::menu_action_of("prot_ff"@)->Change_0)) == protection_marks(c).update(0, !c.firefox),
        protection_marks(crate::config::changed(c, crate::session::menu_action_of("prot_rfp"@)->Change_0)) == protection_marks(c).update(1, !c.resist_fp),
        protection_marks(crate::config::changed(c, crate::session::menu_action_of("prot_mac"@)->Change_0)) == protection_marks(c).update(2, !c.mac_spoof),
        protection_marks(crate::config::changed(c, crate::session::menu_action_of("prot_dns"@)->Change_0)) == protection_marks(c).update(3, !c.dns_leak),
        protection_marks(crate::config::changed(c, crate::session::menu_action_of("prot_pf"@)->Change_0)) == protection_marks(c).update(4, !c.pf_firewall),
        protection_marks(crate::config::changed(c, crate::session::menu_action_of("prot_logs"@)->Change_0)) == protection_marks(c).update(5, !c.clear_logs),
        protection_marks(crate::config::changed(c, crate::session::menu_action_of("prot_ua"@)->Change_0)) == protection_marks(c).update(6, !c.ua_spoof),
        protection_marks(crate::config::changed(c, crate::session::menu_action_of("prot_lang"@)->Change_0)) == protection_marks(c).update(7, !c.lang_spoof),
        protection_marks(crate::config::changed(c, crate::session::menu_action_of("prot_env"@)->Change_0)) == protection_marks(c).update(8, !c.env_inject),
        rotation_marks(crate::config::changed(c, crate::session::menu_action_of("rot_off"@)->Change_0)) == seq![true, false, false, false, false],
        rotation_marks(crate::config::changed(c, crate::session::menu_action_of("rot_2"@)->Change_0)) == seq![false, true, false, false, false],
        rotation_marks(crate::config::changed(c, crate::session::menu_action_of("rot_5"@)->Change_0)) == seq![false, false, true, false, false],
        rotation_marks(crate::config::changed(c, crate::session::menu_action_of("rot_15"@)->Change_0)) == seq![false, false, false, true, false],
        rotation_marks(crate::config::changed(c, crate::session::menu_action_of("rot_30"@)->Change_0)) == seq![false, false, false, false, true],
{
    lemma_node_clicks(c);
    lemma_protection_clicks(c);
    lemma_protection_clicks_more(c);
    lemma_rotation_clicks(c);
}

} // verus!
