use vstd::prelude::*;
use crate::config::{Config, ConfigChange, OpsecState, changed};
use crate::text::{owned, chars_of, eq_chars};

verus! {

/// One step of connecting or disconnecting; the application performs it.
#[derive(Clone, Copy, Debug, PartialEq, Eq, Structural)]
pub enum Step {
    ClearLogs,
    Ipv6Disable,
    MacSpoofEnable,
    StartTor,
    WaitForTor,
    ProxyEnable,
    DnsLeakEnable,
    PfEnable,
    EnvInjectEnable,
    WriteLock,
    FirefoxHarden,
    FetchTorIp,
    PfDisable,
    DnsLeakDisable,
    EnvInjectDisable,
    ProxyDisable,
    Ipv6Restore,
    FirefoxRestore,
    StopTor,
    MacSpoofRestore,
    RemoveLock,
    NotifyDisconnected,
    FetchRealIp,
}

pub open spec fn step_if(b: bool, s: Step) -> Seq<Step> {
    if b {
        seq![s]
    } else {
        seq![]
    }
}

/// Connecting: purge logs if asked, IPv6 off before the MAC changes (so no link-local
/// address leaks while the interface comes back up), start Tor and wait for it, then the
/// system proxy and the optional protections, the lock file, Firefox, and the exit address.
pub open spec fn enable_plan(c: Config) -> Seq<Step> {
    step_if(c.clear_logs, Step::ClearLogs) + seq![Step::Ipv6Disable] + step_if(c.mac_spoof, Step::MacSpoofEnable)
        + seq![Step::StartTor, Step::WaitForTor, Step::ProxyEnable] + step_if(c.dns_leak, Step::DnsLeakEnable)
        + step_if(c.pf_firewall, Step::PfEnable) + step_if(c.env_inject, Step::EnvInjectEnable) + seq![Step::WriteLock]
        + step_if(c.firefox, Step::FirefoxHarden) + seq![Step::FetchTorIp]
}

/// Tearing down (on quit, or at start after a crash left the lock file): kill switch,
/// DNS, environment, proxy, IPv6, Firefox, Tor, MAC, lock file.
pub open spec fn teardown_plan(c: Config) -> Seq<Step> {
    step_if(c.pf_firewall, Step::PfDisable) + step_if(c.dns_leak, Step::DnsLeakDisable) + step_if(
        c.env_inject,
        Step::EnvInjectDisable,
    ) + seq![Step::ProxyDisable, Step::Ipv6Restore] + step_if(c.firefox, Step::FirefoxRestore) + seq![Step::StopTor]
        + step_if(c.mac_spoof, Step::MacSpoofRestore) + seq![Step::RemoveLock]
}

/// Disconnecting: the teardown, then the notice and the real address.
pub open spec fn disable_plan(c: Config) -> Seq<Step> {
    teardown_plan(c) + seq![Step::NotifyDisconnected, Step::FetchRealIp]
}

/// The step that undoes an enabling step, if it needs undoing.
pub open spec fn undo(s: Step) -> Option<Step> {
    match s {
        Step::Ipv6Disable => Some(Step::Ipv6Restore),
        Step::MacSpoofEnable => Some(Step::MacSpoofRestore),
        Step::StartTor => Some(Step::StopTor),
        Step::ProxyEnable => Some(Step::ProxyDisable),
        Step::DnsLeakEnable => Some(Step::DnsLeakDisable),
        Step::PfEnable => Some(Step::PfDisable),
        Step::EnvInjectEnable => Some(Step::EnvInjectDisable),
        Step::WriteLock => Some(Step::RemoveLock),
        Step::FirefoxHarden => Some(Step::FirefoxRestore),
        _ => None,
    }
}

fn push_when(v: &mut Vec<Step>, b: bool, s: Step)
    ensures
        final(v)@ == old(v)@ + step_if(b, s),
{
    if b {
        v.push(s);
        assert(final(v)@ =~= old(v)@ + seq![s]);
    } else {
        assert(final(v)@ =~= old(v)@ + Seq::<Step>::empty());
    }
}

fn push_step(v: &mut Vec<Step>, s: Step)
    ensures
        final(v)@ == old(v)@ + seq![s],
{
    v.push(s);
    assert(final(v)@ =~= old(v)@ + seq![s]);
}

/// The steps of connecting with the settings `cfg`.
pub fn enable_plan_for(cfg: &Config) -> (r: Vec<Step>)
    ensures
        r@ == enable_plan(*cfg),
{
    let mut v: Vec<Step> = Vec::new();
    push_when(&mut v, cfg.clear_logs, Step::ClearLogs);
    assert(v@ =~= step_if(cfg.clear_logs, Step::ClearLogs));
    push_step(&mut v, Step::Ipv6Disable);
    push_when(&mut v, cfg.mac_spoof, Step::MacSpoofEnable);
    push_step(&mut v, Step::StartTor);
    push_step(&mut v, Step::WaitForTor);
    push_step(&mut v, Step::ProxyEnable);
    push_when(&mut v, cfg.dns_leak, Step::DnsLeakEnable);
    push_when(&mut v, cfg.pf_firewall, Step::PfEnable);
    push_when(&mut v, cfg.env_inject, Step::EnvInjectEnable);
    push_step(&mut v, Step::WriteLock);
    push_when(&mut v, cfg.firefox, Step::FirefoxHarden);
    push_step(&mut v, Step::FetchTorIp);
    v
}

/// The steps of tearing everything down for the settings `cfg`.
pub fn teardown_plan_for(cfg: &Config) -> (r: Vec<Step>)
    ensures
        r@ == teardown_plan(*cfg),
{
    let mut v: Vec<Step> = Vec::new();
    push_when(&mut v, cfg.pf_firewall, Step::PfDisable);
    assert(v@ =~= step_if(cfg.pf_firewall, Step::PfDisable));
    push_when(&mut v, cfg.dns_leak, Step::DnsLeakDisable);
    push_when(&mut v, cfg.env_inject, Step::EnvInjectDisable);
    push_step(&mut v, Step::ProxyDisable);
    push_step(&mut v, Step::Ipv6Restore);
    push_when(&mut v, cfg.firefox, Step::FirefoxRestore);
    push_step(&mut v, Step::StopTor);
    push_when(&mut v, cfg.mac_spoof, Step::MacSpoofRestore);
    push_step(&mut v, Step::RemoveLock);
    v
}

/// The steps of disconnecting with the settings `cfg`.
pub fn disable_plan_for(cfg: &Config) -> (r: Vec<Step>)
    ensures
        r@ == disable_plan(*cfg),
{
    let mut v = teardown_plan_for(cfg);
    push_step(&mut v, Step::NotifyDisconnected);
    push_step(&mut v, Step::FetchRealIp);
    assert(v@ =~= disable_plan(*cfg));
    v
}

proof fn lemma_concat_contains(a: Seq<Step>, b: Seq<Step>, x: Step)
    ensures
        (a + b).contains(x) <==> (a.contains(x) || b.contains(x)),
{
    if (a + b).contains(x) {
        let k = choose|k: int| 0 <= k < (a + b).len() && (a + b)[k] == x;
        if k < a.len() {
            assert(a[k] == x);
        } else {
            assert(b[k - a.len()] == x);
        }
    }
    if a.contains(x) {
        let k = choose|k: int| 0 <= k < a.len() && a[k] == x;
        assert((a + b)[k] == x);
    }
    if b.contains(x) {
        let k = choose|k: int| 0 <= k < b.len() && b[k] == x;
        assert((a + b)[a.len() + k] == x);
    }
}

proof fn lemma_when_contains(f: bool, s: Step, x: Step)
    ensures
        step_if(f, s).contains(x) <==> (f && x == s),
{
    if f && x == s {
        assert(step_if(f, s)[0] == x);
    }
}

proof fn lemma_one_contains(s: Step, x: Step)
    ensures
        seq![s].contains(x) <==> x == s,
{
    if x == s {
        assert(seq![s][0] == x);
    }
}

proof fn lemma_two_contains(s: Step, t: Step, x: Step)
    ensures
        seq![s, t].contains(x) <==> (x == s || x == t),
{
    if x == s {
        assert(seq![s, t][0] == x);
    }
    if x == t {
        assert(seq![s, t][1] == x);
    }
}

proof fn lemma_three_contains(s: Step, t: Step, u: Step, x: Step)
    ensures
        seq![s, t, u].contains(x) <==> (x == s || x == t || x == u),
{
    if x == s {
        assert(seq![s, t, u][0] == x);
    }
    if x == t {
        assert(seq![s, t, u][1] == x);
    }
    if x == u {
        assert(seq![s, t, u][2] == x);
    }
}

/// Which steps connecting performs.
proof fn lemma_enable_contains(c: Config, x: Step)
    ensures
        enable_plan(c).contains(x) <==> ((c.clear_logs && x == Step::ClearLogs) || x == Step::Ipv6Disable || (c.mac_spoof
            && x == Step::MacSpoofEnable) || x == Step::StartTor || x == Step::WaitForTor || x == Step::ProxyEnable
            || (c.dns_leak && x == Step::DnsLeakEnable) || (c.pf_firewall && x == Step::PfEnable) || (c.env_inject && x
            == Step::EnvInjectEnable) || x == Step::WriteLock || (c.firefox && x == Step::FirefoxHarden) || x
            == Step::FetchTorIp),
{
    let a1 = step_if(c.clear_logs, Step::ClearLogs);
    let a2 = a1 + seq![Step::Ipv6Disable];
    let a3 = a2 + step_if(c.mac_spoof, Step::MacSpoofEnable);
    let a4 = a3 + seq![Step::StartTor, Step::WaitForTor, Step::ProxyEnable];
    let a5 = a4 + step_if(c.dns_leak, Step::DnsLeakEnable);
    let a6 = a5 + step_if(c.pf_firewall, Step::PfEnable);
    let a7 = a6 + step_if(c.env_inject, Step::EnvInjectEnable);
    let a8 = a7 + seq![Step::WriteLock];
    let a9 = a8 + step_if(c.firefox, Step::FirefoxHarden);
    lemma_when_contains(c.clear_logs, Step::ClearLogs, x);
    lemma_concat_contains(a1, seq![Step::Ipv6Disable], x);
    lemma_one_contains(Step::Ipv6Disable, x);
    lemma_concat_contains(a2, step_if(c.mac_spoof, Step::MacSpoofEnable), x);
    lemma_when_contains(c.mac_spoof, Step::MacSpoofEnable, x);
    lemma_concat_contains(a3, seq![Step::StartTor, Step::WaitForTor, Step::ProxyEnable], x);
    lemma_three_contains(Step::StartTor, Step::WaitForTor, Step::ProxyEnable, x);
    lemma_concat_contains(a4, step_if(c.dns_leak, Step::DnsLeakEnable), x);
    lemma_when_contains(c.dns_leak, Step::DnsLeakEnable, x);
    lemma_concat_contains(a5, step_if(c.pf_firewall, Step::PfEnable), x);
    lemma_when_contains(c.pf_firewall, Step::PfEnable, x);
    lemma_concat_contains(a6, step_if(c.env_inject, Step::EnvInjectEnable), x);
    lemma_when_contains(c.env_inject, Step::EnvInjectEnable, x);
    lemma_concat_contains(a7, seq![Step::WriteLock], x);
    lemma_one_contains(Step::WriteLock, x);
    lemma_concat_contains(a8, step_if(c.firefox, Step::FirefoxHarden), x);
    lemma_when_contains(c.firefox, Step::FirefoxHarden, x);
    lemma_concat_contains(a9, seq![Step::FetchTorIp], x);
    lemma_one_contains(Step::FetchTorIp, x);
}

/// Which steps tearing down performs.
proof fn lemma_teardown_contains(c: Config, x: Step)
    ensures
        teardown_plan(c).contains(x) <==> ((c.pf_firewall && x == Step::PfDisable) || (c.dns_leak && x
            == Step::DnsLeakDisable) || (c.env_inject && x == Step::EnvInjectDisable) || x == Step::ProxyDisable || x
            == Step::Ipv6Restore || (c.firefox && x == Step::FirefoxRestore) || x == Step::StopTor || (c.mac_spoof && x
            == Step::MacSpoofRestore) || x == Step::RemoveLock),
{
    let a1 = step_if(c.pf_firewall, Step::PfDisable);
    let a2 = a1 + step_if(c.dns_leak, Step::DnsLeakDisable);
    let a3 = a2 + step_if(c.env_inject, Step::EnvInjectDisable);
    let a4 = a3 + seq![Step::ProxyDisable, Step::Ipv6Restore];
    let a5 = a4 + step_if(c.firefox, Step::FirefoxRestore);
    let a6 = a5 + seq![Step::StopTor];
    let a7 = a6 + step_if(c.mac_spoof, Step::MacSpoofRestore);
    lemma_when_contains(c.pf_firewall, Step::PfDisable, x);
    lemma_concat_contains(a1, step_if(c.dns_leak, Step::DnsLeakDisable), x);
    lemma_when_contains(c.dns_leak, Step::DnsLeakDisable, x);
    lemma_concat_contains(a2, step_if(c.env_inject, Step::EnvInjectDisable), x);
    lemma_when_contains(c.env_inject, Step::EnvInjectDisable, x);
    lemma_concat_contains(a3, seq![Step::ProxyDisable, Step::Ipv6Restore], x);
    lemma_two_contains(Step::ProxyDisable, Step::Ipv6Restore, x);
    lemma_concat_contains(a4, step_if(c.firefox, Step::FirefoxRestore), x);
    lemma_when_contains(c.firefox, Step::FirefoxRestore, x);
    lemma_concat_contains(a5, seq![Step::StopTor], x);
    lemma_one_contains(Step::StopTor, x);
    lemma_concat_contains(a6, step_if(c.mac_spoof, Step::MacSpoofRestore), x);
    lemma_when_contains(c.mac_spoof, Step::MacSpoofRestore, x);
    lemma_concat_contains(a7, seq![Step::RemoveLock], x);
    lemma_one_contains(Step::RemoveLock, x);
}

/// Quitting or disconnecting restores the machine: every step of connecting that
/// changes the system has its undoing step in the teardown for the same settings, and
/// disconnecting performs the whole teardown.
pub proof fn lemma_teardown_undoes_enable(c: Config, x: Step)
    requires
        enable_plan(c).contains(x),
        undo(x) is Some,
    ensures
        teardown_plan(c).contains(undo(x)->0),
        disable_plan(c).contains(undo(x)->0),
{
    lemma_enable_contains(c, x);
    lemma_teardown_contains(c, undo(x)->0);
    lemma_concat_contains(teardown_plan(c), seq![Step::NotifyDisconnected, Step::FetchRealIp], undo(x)->0);
}

} // verus!

verus! {

/// While connecting: go on once Tor answers, else wait another second, for up to 30
/// waits; after that Tor has failed to start.
#[derive(Clone, Copy, Debug, PartialEq, Eq, Structural)]
pub enum TorWait {
    Ready,
    Sleep,
    GiveUp,
}

pub fn tor_wait_step(ready: bool, waited: u8) -> (r: TorWait)
    ensures
        r == (if ready {
            TorWait::Ready
        } else if waited < 30 {
            TorWait::Sleep
        } else {
            TorWait::GiveUp
        }),
{
    if ready {
        TorWait::Ready
    } else if waited < 30 {
        TorWait::Sleep
    } else {
        TorWait::GiveUp
    }
}

/// What the rotation loop does next.
#[derive(Clone, Copy, Debug, PartialEq, Eq, Structural)]
pub enum RotationWait {
    /// Rotation is off or TorShield is disconnected: wait for a change of period, or
    /// 30 seconds, and look again.
    Idle,
    /// Sleep this many seconds (or until the period changes), then rotate if still connected.
    RotateAfter(u64),
}

pub fn rotation_wait(rotate_mins: u32, active: bool) -> (r: RotationWait)
    ensures
        r == (if rotate_mins == 0 || !active {
            RotationWait::Idle
        } else {
            RotationWait::RotateAfter((rotate_mins * 60) as u64)
        }),
{
    if rotate_mins == 0 || !active {
        RotationWait::Idle
    } else {
        RotationWait::RotateAfter(rotate_mins as u64 * 60)
    }
}

/// What a menu item asks for.
#[derive(Clone, Copy, Debug, PartialEq, Eq, Structural)]
pub enum MenuAction {
    /// Connect when disconnected, disconnect when connected.
    ToggleConnection,
    NewIdentity,
    Change(ConfigChange),
    ToggleLogin,
    Quit,
    Ignore,
}

/// The action of the menu item with identifier `id`.
pub open spec fn menu_action_of(id: Seq<char>) -> MenuAction {
    if id == "toggle"@ {
        MenuAction::ToggleConnection
    } else if id == "rotate"@ {
        MenuAction::NewIdentity
    } else if id == "node_us"@ {
        MenuAction::Change(ConfigChange::ExcludeUs)
    } else if id == "node_gb"@ {
        MenuAction::Change(ConfigChange::ExcludeGb)
    } else if id == "node_au"@ {
        MenuAction::Change(ConfigChange::ExcludeAu)
    } else if id == "node_ca"@ {
        MenuAction::Change(ConfigChange::ExcludeCa)
    } else if id == "node_nz"@ {
        MenuAction::Change(ConfigChange::ExcludeNz)
    } else if id == "node_de"@ {
        MenuAction::Change(ConfigChange::ExcludeDe)
    } else if id == "node_fr"@ {
        MenuAction::Change(ConfigChange::ExcludeFr)
    } else if id == "rot_off"@ {
        MenuAction::Change(ConfigChange::RotateMins(0))
    } else if id == "rot_2"@ {
        MenuAction::Change(ConfigChange::RotateMins(2))
    } else if id == "rot_5"@ {
        MenuAction::Change(ConfigChange::RotateMins(5))
    } else if id == "rot_15"@ {
        MenuAction::Change(ConfigChange::RotateMins(15))
    } else if id == "rot_30"@ {
        MenuAction::Change(ConfigChange::RotateMins(30))
    } else if id == "prot_ff"@ {
        MenuAction::Change(ConfigChange::Firefox)
    } else if id == "prot_rfp"@ {
        MenuAction::Change(ConfigChange::ResistFp)
    } else if id == "prot_mac"@ {
        MenuAction::Change(ConfigChange::MacSpoof)
    } else if id == "prot_dns"@ {
        MenuAction::Change(ConfigChange::DnsLeak)
    } else if id == "prot_pf"@ {
        MenuAction::Change(ConfigChange::PfFirewall)
    } else if id == "prot_logs"@ {
        MenuAction::Change(ConfigChange::ClearLogs)
    } else if id == "prot_ua"@ {
        MenuAction::Change(ConfigChange::UaSpoof)
    } else if id == "prot_lang"@ {
        MenuAction::Change(ConfigChange::LangSpoof)
    } else if id == "prot_env"@ {
        MenuAction::Change(ConfigChange::EnvInject)
    } else if id == "bypass_spotify"@ {
        MenuAction::Change(ConfigChange::SpotifyBypass)
    } else if id == "login"@ {
        MenuAction::ToggleLogin
    } else if id == "quit"@ {
        MenuAction::Quit
    } else {
        MenuAction::Ignore
    }
}

fn is_id(id: &[char], name: &str) -> (b: bool)
    ensures
        b == (id@ == name@),
{
    eq_chars(id, &chars_of(name))
}

/// The action for a menu event.
pub fn menu_action(id: &str) -> (r: MenuAction)
    ensures
        r == menu_action_of(id@),
{
    let v = chars_of(id);
    if is_id(&v, "toggle") {
        MenuAction::ToggleConnection
    } else if is_id(&v, "rotate") {
        MenuAction::NewIdentity
    } else if is_id(&v, "node_us") {
        MenuAction::Change(ConfigChange::ExcludeUs)
    } else if is_id(&v, "node_gb") {
        MenuAction::Change(ConfigChange::ExcludeGb)
    } else if is_id(&v, "node_au") {
        MenuAction::Change(ConfigChange::ExcludeAu)
    } else if is_id(&v, "node_ca") {
        MenuAction::Change(ConfigChange::ExcludeCa)
    } else if is_id(&v, "node_nz") {
        MenuAction::Change(ConfigChange::ExcludeNz)
    } else if is_id(&v, "node_de") {
        MenuAction::Change(ConfigChange::ExcludeDe)
    } else if is_id(&v, "node_fr") {
        MenuAction::Change(ConfigChange::ExcludeFr)
    } else if is_id(&v, "rot_off") {
        MenuAction::Change(ConfigChange::RotateMins(0))
    } else if is_id(&v, "rot_2") {
        MenuAction::Change(ConfigChange::RotateMins(2))
    } else if is_id(&v, "rot_5") {
        MenuAction::Change(ConfigChange::RotateMins(5))
    } else if is_id(&v, "rot_15") {
        MenuAction::Change(ConfigChange::RotateMins(15))
    } else if is_id(&v, "rot_30") {
        MenuAction::Change(ConfigChange::RotateMins(30))
    } else if is_id(&v, "prot_ff") {
        MenuAction::Change(ConfigChange::Firefox)
    } else if is_id(&v, "prot_rfp") {
        MenuAction::Change(ConfigChange::ResistFp)
    } else if is_id(&v, "prot_mac") {
        MenuAction::Change(ConfigChange::MacSpoof)
    } else if is_id(&v, "prot_dns") {
        MenuAction::Change(ConfigChange::DnsLeak)
    } else if is_id(&v, "prot_pf") {
        MenuAction::Change(ConfigChange::PfFirewall)
    } else if is_id(&v, "prot_logs") {
        MenuAction::Change(ConfigChange::ClearLogs)
    } else if is_id(&v, "prot_ua") {
        MenuAction::Change(ConfigChange::UaSpoof)
    } else if is_id(&v, "prot_lang") {
        MenuAction::Change(ConfigChange::LangSpoof)
    } else if is_id(&v, "prot_env") {
        MenuAction::Change(ConfigChange::EnvInject)
    } else if is_id(&v, "bypass_spotify") {
        MenuAction::Change(ConfigChange::SpotifyBypass)
    } else if is_id(&v, "login") {
        MenuAction::ToggleLogin
    } else if is_id(&v, "quit") {
        MenuAction::Quit
    } else {
        MenuAction::Ignore
    }
}

/// What a settings change does at once, besides being saved and shown.
#[derive(Clone, Copy, Debug, PartialEq, Eq, Structural)]
pub enum ChangeEffect {
    Nothing,
    /// Harden (`true`) or restore (`false`) the Firefox profiles.
    FirefoxApply(bool),
    PfEnable,
    PfDisable,
    EnvInjectEnable,
    EnvInjectDisable,
    /// Set the system proxy again (its bypass list changed).
    ProxyEnable,
    /// Tell the rotation loop the new period.
    RotationPeriod(u32),
}

/// The immediate effect of a change, given whether TorShield is connected and the
/// settings after the change: while connected, Firefox, fingerprinting (when Firefox
/// hardening is on), the kill switch, the environment variables and the proxy's
/// bypass list follow at once;
/// a new rotation period is always passed on; other changes wait for the next connect.
pub open spec fn change_effect_of(ch: ConfigChange, active: bool, after: Config) -> ChangeEffect {
    match ch {
        ConfigChange::RotateMins(m) => ChangeEffect::RotationPeriod(m),
        ConfigChange::Firefox => if active {
            ChangeEffect::FirefoxApply(after.firefox)
        } else {
            ChangeEffect::Nothing
        },
        ConfigChange::ResistFp => if active && after.firefox {
            ChangeEffect::FirefoxApply(true)
        } else {
            ChangeEffect::Nothing
        },
        ConfigChange::PfFirewall => if !active {
            ChangeEffect::Nothing
        } else if after.pf_firewall {
            ChangeEffect::PfEnable
        } else {
            ChangeEffect::PfDisable
        },
        ConfigChange::EnvInject => if !active {
            ChangeEffect::Nothing
        } else if after.env_inject {
            ChangeEffect::EnvInjectEnable
        } else {
            ChangeEffect::EnvInjectDisable
        },
        ConfigChange::SpotifyBypass => if active {
            ChangeEffect::ProxyEnable
        } else {
            ChangeEffect::Nothing
        },
        _ => ChangeEffect::Nothing,
    }
}

pub fn change_effect(ch: ConfigChange, active: bool, after: &Config) -> (r: ChangeEffect)
    ensures
        r == change_effect_of(ch, active, *after),
{
    match ch {
        ConfigChange::RotateMins(m) => ChangeEffect::RotationPeriod(m),
        ConfigChange::Firefox => if active {
            ChangeEffect::FirefoxApply(after.firefox)
        } else {
            ChangeEffect::Nothing
        },
        ConfigChange::ResistFp => if active && after.firefox {
            ChangeEffect::FirefoxApply(true)
        } else {
            ChangeEffect::Nothing
        },
        ConfigChange::PfFirewall => if !active {
            ChangeEffect::Nothing
        } else if after.pf_firewall {
            ChangeEffect::PfEnable
        } else {
            ChangeEffect::PfDisable
        },
        ConfigChange::EnvInject => if !active {
            ChangeEffect::Nothing
        } else if after.env_inject {
            ChangeEffect::EnvInjectEnable
        } else {
            ChangeEffect::EnvInjectDisable
        },
        ConfigChange::SpotifyBypass => if active {
            ChangeEffect::ProxyEnable
        } else {
            ChangeEffect::Nothing
        },
        _ => ChangeEffect::Nothing,
    }
}

/// Quitting tears everything down when connected, and does nothing else first otherwise.
pub fn quit_plan(active: bool, cfg: &Config) -> (r: Vec<Step>)
    ensures
        active ==> r@ == teardown_plan(*cfg),
        !active ==> r@ == Seq::<Step>::empty(),
{
    if active {
        teardown_plan_for(cfg)
    } else {
        Vec::new()
    }
}

/// Starting up: a lock file left by a session that did not end cleanly means the
/// machine is still changed, so everything is torn down first.
pub fn startup_plan(lock_exists: bool, cfg: &Config) -> (r: Vec<Step>)
    ensures
        lock_exists ==> r@ == teardown_plan(*cfg),
        !lock_exists ==> r@ == Seq::<Step>::empty(),
{
    quit_plan(lock_exists, cfg)
}

} // verus!

verus! {

pub open spec fn opt_string_view(o: Option<String>) -> Option<Seq<char>> {
    match o {
        Some(s) => Some(s@),
        None => None,
    }
}

/// After connecting: connected, with the exit address found (if any).
pub fn mark_connected(state: &mut OpsecState, tor_ip: Option<String>)
    ensures
        final(state).active,
        final(state).tor_ip == tor_ip,
        final(state).real_ip == old(state).real_ip,
        final(state).config == old(state).config,
{
    state.active = true;
    state.tor_ip = tor_ip;
}

/// After disconnecting: not connected, no exit address, and the real address found.
pub fn mark_disconnected(state: &mut OpsecState, real_ip: Option<String>)
    ensures
        !final(state).active,
        final(state).tor_ip is None,
        final(state).real_ip == real_ip,
        final(state).config == old(state).config,
{
    state.active = false;
    state.tor_ip = None;
    state.real_ip = real_ip;
}

/// The real address after disconnecting: the one the echo service reported, else the
/// interface's own.
pub fn real_ip_after_disconnect(fetched: Option<String>, local: Option<String>) -> (r: Option<String>)
    ensures
        r == (if fetched is Some {
            fetched
        } else {
            local
        }),
{
    match fetched {
        Some(ip) => Some(ip),
        None => local,
    }
}

/// A public address found in the background is shown only while disconnected (when
/// connected, the real address must not replace what the menu shows).
pub fn record_public_ip(state: &mut OpsecState, ip: String)
    ensures
        old(state).active ==> *final(state) == *old(state),
        !old(state).active ==> final(state).real_ip == Some(ip) && final(state).active == old(state).active
            && final(state).tor_ip == old(state).tor_ip && final(state).config == old(state).config,
{
    if !state.active {
        state.real_ip = Some(ip);
    }
}

/// A notification's title and text.
#[derive(Debug)]
pub struct Notice {
    pub title: String,
    pub body: String,
}

pub open spec fn exit_text(ip: Seq<char>) -> Seq<char> {
    "Exit node: "@ + ip
}

fn exit_line(ip: &str) -> (r: String)
    ensures
        r@ == exit_text(ip@),
{
    let mut r = owned("Exit node: ");
    r.append(ip);
    r
}

/// The notice after connecting.
pub fn connected_notice(tor_ip: &Option<String>) -> (n: Notice)
    ensures
        n.title@ == "Connected"@,
        n.body@ == match tor_ip {
            Some(ip) => exit_text(ip@),
            None => "Connected via Tor"@,
        },
{
    let body = match tor_ip {
        Some(ip) => exit_line(ip.as_str()),
        None => owned("Connected via Tor"),
    };
    Notice { title: owned("Connected"), body }
}

/// The notice when Tor did not come up.
pub fn failed_notice() -> (n: Notice)
    ensures
        n.title@ == "Connection Failed"@,
        n.body@ == "Tor did not start - check that Tor is installed"@,
{
    Notice { title: owned("Connection Failed"), body: owned("Tor did not start - check that Tor is installed") }
}

/// The notice after disconnecting.
pub fn disconnected_notice() -> (n: Notice)
    ensures
        n.title@ == "Disconnected"@,
        n.body@ == "All protections off"@,
{
    Notice { title: owned("Disconnected"), body: owned("All protections off") }
}

/// The notice after a new identity, asked for (`automatic` false) or on schedule.
pub fn identity_notice(tor_ip: &Option<String>, automatic: bool) -> (n: Notice)
    ensures
        n.title@ == (if automatic { "Identity Rotated"@ } else { "New Identity"@ }),
        n.body@ == match tor_ip {
            Some(ip) => exit_text(ip@),
            None => if automatic {
                "New circuit active"@
            } else {
                "Circuit rotated"@
            },
        },
{
    let title = if automatic { owned("Identity Rotated") } else { owned("New Identity") };
    let body = match tor_ip {
        Some(ip) => exit_line(ip.as_str()),
        None => if automatic {
            owned("New circuit active")
        } else {
            owned("Circuit rotated")
        },
    };
    Notice { title, body }
}

} // verus!

verus! {

/// The steps that may come before Tor answers: purging logs, IPv6, the MAC address,
/// starting Tor.
pub open spec fn is_preparation(s: Step) -> bool {
    s is ClearLogs || s is Ipv6Disable || s is MacSpoofEnable || s is StartTor
}

pub open spec fn all_preparation(s: Seq<Step>) -> bool {
    forall|i: int| 0 <= i < s.len() ==> is_preparation(#[trigger] s[i])
}

pub open spec fn no_preparation(s: Seq<Step>) -> bool {
    forall|i: int| 0 <= i < s.len() ==> !is_preparation(#[trigger] s[i])
}

proof fn lemma_all_preparation_concat(a: Seq<Step>, b: Seq<Step>)
    requires
        all_preparation(a),
        all_preparation(b),
    ensures
        all_preparation(a + b),
{
    assert forall|i: int| 0 <= i < (a + b).len() implies is_preparation(#[trigger] (a + b)[i]) by {
        if i < a.len() {
            assert((a + b)[i] == a[i]);
        } else {
            assert((a + b)[i] == b[i - a.len()]);
        }
    }
}

proof fn lemma_no_preparation_concat(a: Seq<Step>, b: Seq<Step>)
    requires
        no_preparation(a),
        no_preparation(b),
    ensures
        no_preparation(a + b),
{
    assert forall|i: int| 0 <= i < (a + b).len() implies !is_preparation(#[trigger] (a + b)[i]) by {
        if i < a.len() {
            assert((a + b)[i] == a[i]);
        } else {
            assert((a + b)[i] == b[i - a.len()]);
        }
    }
}

proof fn lemma_assoc(a: Seq<Step>, b: Seq<Step>, c: Seq<Step>)
    ensures
        a + b + c == a + (b + c),
{
    assert(a + b + c =~= a + (b + c));
}

/// The steps of connecting up to the start of Tor.
pub open spec fn preparation_steps(c: Config) -> Seq<Step> {
    step_if(c.clear_logs, Step::ClearLogs) + seq![Step::Ipv6Disable] + step_if(c.mac_spoof, Step::MacSpoofEnable)
        + seq![Step::StartTor]
}

/// The steps of connecting once Tor answers.
pub open spec fn protection_steps(c: Config) -> Seq<Step> {
    seq![Step::ProxyEnable] + step_if(c.dns_leak, Step::DnsLeakEnable) + step_if(c.pf_firewall, Step::PfEnable)
        + step_if(c.env_inject, Step::EnvInjectEnable) + seq![Step::WriteLock] + step_if(c.firefox, Step::FirefoxHarden)
        + seq![Step::FetchTorIp]
}

/// Connecting prepares the machine (IPv6 off right before the MAC address changes),
/// starts Tor and waits for it; nothing that routes traffic to Tor or records the
/// session (proxy, DNS, kill switch, environment, lock file, Firefox) comes before that
/// wait, and no preparation comes after it.
pub proof fn lemma_enable_order(c: Config)
    ensures
        enable_plan(c) == preparation_steps(c) + seq![Step::WaitForTor] + protection_steps(c),
        all_preparation(preparation_steps(c)),
        no_preparation(protection_steps(c)),
        c.mac_spoof ==> preparation_steps(c)[step_if(c.clear_logs, Step::ClearLogs).len() as int] == Step::Ipv6Disable
            && preparation_steps(c)[step_if(c.clear_logs, Step::ClearLogs).len() + 1int] == Step::MacSpoofEnable,
{
    let clear = step_if(c.clear_logs, Step::ClearLogs);
    let mac = step_if(c.mac_spoof, Step::MacSpoofEnable);
    let x = clear + seq![Step::Ipv6Disable] + mac;
    let y = preparation_steps(c) + seq![Step::WaitForTor];
    assert(x + seq![Step::StartTor, Step::WaitForTor, Step::ProxyEnable] =~= y + seq![Step::ProxyEnable]);
    let d = step_if(c.dns_leak, Step::DnsLeakEnable);
    let f = step_if(c.pf_firewall, Step::PfEnable);
    let e = step_if(c.env_inject, Step::EnvInjectEnable);
    let ff = step_if(c.firefox, Step::FirefoxHarden);
    let r1 = seq![Step::ProxyEnable] + d;
    let r2 = r1 + f;
    let r3 = r2 + e;
    let r4 = r3 + seq![Step::WriteLock];
    let r5 = r4 + ff;
    lemma_assoc(y, seq![Step::ProxyEnable], d);
    lemma_assoc(y, r1, f);
    lemma_assoc(y, r2, e);
    lemma_assoc(y, r3, seq![Step::WriteLock]);
    lemma_assoc(y, r4, ff);
    lemma_assoc(y, r5, seq![Step::FetchTorIp]);
    assert(enable_plan(c) == preparation_steps(c) + seq![Step::WaitForTor] + protection_steps(c));
    assert(all_preparation(clear));
    assert(all_preparation(seq![Step::Ipv6Disable]));
    assert(all_preparation(mac));
    assert(all_preparation(seq![Step::StartTor]));
    lemma_all_preparation_concat(clear, seq![Step::Ipv6Disable]);
    lemma_all_preparation_concat(clear + seq![Step::Ipv6Disable], mac);
    lemma_all_preparation_concat(clear + seq![Step::Ipv6Disable] + mac, seq![Step::StartTor]);
    assert(no_preparation(seq![Step::ProxyEnable]));
    assert(no_preparation(d));
    assert(no_preparation(f));
    assert(no_preparation(e));
    assert(no_preparation(seq![Step::WriteLock]));
    assert(no_preparation(ff));
    assert(no_preparation(seq![Step::FetchTorIp]));
    lemma_no_preparation_concat(seq![Step::ProxyEnable], d);
    lemma_no_preparation_concat(seq![Step::ProxyEnable] + d, f);
    lemma_no_preparation_concat(seq![Step::ProxyEnable] + d + f, e);
    lemma_no_preparation_concat(seq![Step::ProxyEnable] + d + f + e, seq![Step::WriteLock]);
    lemma_no_preparation_concat(seq![Step::ProxyEnable] + d + f + e + seq![Step::WriteLock], ff);
    lemma_no_preparation_concat(seq![Step::ProxyEnable] + d + f + e + seq![Step::WriteLock] + ff, seq![Step::FetchTorIp]);
    if c.mac_spoof {
        let k = clear.len() as int;
        assert(preparation_steps(c)[k] == Step::Ipv6Disable);
        assert(preparation_steps(c)[k + 1] == Step::MacSpoofEnable);
    }
}

/// Disconnecting lifts the kill switch before anything else it undoes, and removes the
/// lock file only after every other change has been undone.
pub proof fn lemma_teardown_order(c: Config)
    ensures
        teardown_plan(c).last() == Step::RemoveLock,
        c.pf_firewall ==> teardown_plan(c)[0] == Step::PfDisable,
        disable_plan(c)[teardown_plan(c).len() - 1] == Step::RemoveLock,
{
    let t = teardown_plan(c);
    assert(t.len() >= 4);
    if c.pf_firewall {
        assert(step_if(c.pf_firewall, Step::PfDisable)[0] == Step::PfDisable);
    }
    assert(disable_plan(c)[t.len() - 1] == t[t.len() - 1]);
}

} // verus!

verus! {

/// The undoing step of `s`, if it needs one, as a sequence.
pub open spec fn undo_seq(s: Step) -> Seq<Step> {
    match undo(s) {
        Some(u) => seq![u],
        None => seq![],
    }
}

/// Undoing the steps already taken, the last one first.
pub open spec fn rollback(done: Seq<Step>) -> Seq<Step>
    decreases done.len(),
{
    if done.len() == 0 {
        Seq::empty()
    } else {
        rollback(done.drop_first()) + undo_seq(done[0])
    }
}

/// The steps that undo `done` (the steps of a connection attempt performed so far),
/// in reverse order: used when connecting gives up, so that nothing stays changed.
pub fn rollback_plan(done: &Vec<Step>) -> (r: Vec<Step>)
    ensures
        r@ == rollback(done@),
{
    let mut r: Vec<Step> = Vec::new();
    let mut i = done.len();
    assert(done@.skip(i as int) =~= Seq::<Step>::empty());
    while i > 0
        invariant
            i <= done@.len(),
            r@ == rollback(done@.skip(i as int)),
        decreases i,
    {
        i -= 1;
        let s = done[i];
        assert(done@.skip(i as int).drop_first() =~= done@.skip(i + 1));
        assert(done@.skip(i as int)[0] == s);
        let ghost before = r@;
        match s {
            Step::Ipv6Disable => r.push(Step::Ipv6Restore),
            Step::MacSpoofEnable => r.push(Step::MacSpoofRestore),
            Step::StartTor => r.push(Step::StopTor),
            Step::ProxyEnable => r.push(Step::ProxyDisable),
            Step::DnsLeakEnable => r.push(Step::DnsLeakDisable),
            Step::PfEnable => r.push(Step::PfDisable),
            Step::EnvInjectEnable => r.push(Step::EnvInjectDisable),
            Step::WriteLock => r.push(Step::RemoveLock),
            Step::FirefoxHarden => r.push(Step::FirefoxRestore),
            _ => {},
        }
        assert(r@ =~= before + undo_seq(s));
    }
    assert(done@.skip(0) =~= done@);
    r
}

/// Giving up undoes every step taken that needs undoing.
pub proof fn lemma_rollback_undoes(done: Seq<Step>, x: Step)
    requires
        done.contains(x),
        undo(x) is Some,
    ensures
        rollback(done).contains(undo(x)->0),
    decreases done.len(),
{
    let rest = rollback(done.drop_first());
    if done[0] == x {
        assert((rest + undo_seq(x))[rest.len() as int] == undo(x)->0);
    } else {
        let k = choose|k: int| 0 <= k < done.len() && done[k] == x;
        assert(done.drop_first()[k - 1] == x);
        lemma_rollback_undoes(done.drop_first(), x);
        let j = choose|j: int| 0 <= j < rest.len() && rest[j] == undo(x)->0;
        assert((rest + undo_seq(done[0]))[j] == rest[j]);
    }
}

} // verus!

verus! {

/// A connection that gives up while waiting for Tor has performed exactly the
/// preparation steps; rolling them back stops Tor, gives the MAC address back (when it
/// was changed) and turns IPv6 back on, in that order.
pub proof fn lemma_failed_connect_undone(c: Config)
    ensures
        rollback(preparation_steps(c)) == (seq![Step::StopTor] + step_if(c.mac_spoof, Step::MacSpoofRestore) + seq![
            Step::Ipv6Restore,
        ]),
{
    let clear = step_if(c.clear_logs, Step::ClearLogs);
    let mac = step_if(c.mac_spoof, Step::MacSpoofEnable);
    let p = preparation_steps(c);
    let tail = seq![Step::Ipv6Disable] + mac + seq![Step::StartTor];
    assert(p =~= clear + tail);
    let t2 = mac + seq![Step::StartTor];
    let t3 = seq![Step::StartTor];
    assert(rollback(Seq::<Step>::empty()) == Seq::<Step>::empty());
    assert(t3.drop_first() =~= Seq::<Step>::empty());
    assert(rollback(t3) =~= seq![Step::StopTor]);
    if c.mac_spoof {
        assert(t2.drop_first() =~= t3);
        assert(rollback(t2) =~= seq![Step::StopTor, Step::MacSpoofRestore]);
    } else {
        assert(t2 =~= t3);
    }
    assert(tail.drop_first() =~= t2);
    assert(rollback(tail) =~= rollback(t2) + seq![Step::Ipv6Restore]);
    if c.clear_logs {
        assert(p.drop_first() =~= tail);
        assert(rollback(p) =~= rollback(tail) + undo_seq(Step::ClearLogs));
    } else {
        assert(p =~= tail);
    }
    assert(rollback(p) =~= seq![Step::StopTor] + step_if(c.mac_spoof, Step::MacSpoofRestore) + seq![Step::Ipv6Restore]);
}

} // verus!

verus! {

/// What each menu id stands for, item by item.
pub(crate) proof fn lemma_menu_ids()
    ensures
        menu_action_of("toggle"@) == MenuAction::ToggleConnection,
        menu_action_of("rotate"@) == MenuAction::NewIdentity,
        menu_action_of("node_us"@) == MenuAction::Change(ConfigChange::ExcludeUs),
        menu_action_of("node_gb"@) == MenuAction::Change(ConfigChange::ExcludeGb),
        menu_action_of("node_au"@) == MenuAction::Change(ConfigChange::ExcludeAu),
        menu_action_of("node_ca"@) == MenuAction::Change(ConfigChange::ExcludeCa),
        menu_action_of("node_nz"@) == MenuAction::Change(ConfigChange::ExcludeNz),
        menu_action_of("node_de"@) == MenuAction::Change(ConfigChange::ExcludeDe),
        menu_action_of("node_fr"@) == MenuAction::Change(ConfigChange::ExcludeFr),
        menu_action_of("rot_off"@) == MenuAction::Change(ConfigChange::RotateMins(0)),
        menu_action_of("rot_2"@) == MenuAction::Change(ConfigChange::RotateMins(2)),
        menu_action_of("rot_5"@) == MenuAction::Change(ConfigChange::RotateMins(5)),
        menu_action_of("rot_15"@) == MenuAction::Change(ConfigChange::RotateMins(15)),
        menu_action_of("rot_30"@) == MenuAction::Change(ConfigChange::RotateMins(30)),
        menu_action_of("prot_ff"@) == MenuAction::Change(ConfigChange::Firefox),
        menu_action_of("prot_rfp"@) == MenuAction::Change(ConfigChange::ResistFp),
        menu_action_of("prot_mac"@) == MenuAction::Change(ConfigChange::MacSpoof),
        menu_action_of("prot_dns"@) == MenuAction::Change(ConfigChange::DnsLeak),
        menu_action_of("prot_pf"@) == MenuAction::Change(ConfigChange::PfFirewall),
        menu_action_of("prot_logs"@) == MenuAction::Change(ConfigChange::ClearLogs),
        menu_action_of("prot_ua"@) == MenuAction::Change(ConfigChange::UaSpoof),
        menu_action_of("prot_lang"@) == MenuAction::Change(ConfigChange::LangSpoof),
        menu_action_of("prot_env"@) == MenuAction::Change(ConfigChange::EnvInject),
        menu_action_of("bypass_spotify"@) == MenuAction::Change(ConfigChange::SpotifyBypass),
        menu_action_of("login"@) == MenuAction::ToggleLogin,
        menu_action_of("quit"@) == MenuAction::Quit,
{
    reveal_strlit("toggle");
    reveal_strlit("rotate");
    reveal_strlit("node_us");
    reveal_strlit("node_gb");
    reveal_strlit("node_au");
    reveal_strlit("node_ca");
    reveal_strlit("node_nz");
    reveal_strlit("node_de");
    reveal_strlit("node_fr");
    reveal_strlit("rot_off");
    reveal_strlit("rot_2");
    reveal_strlit("rot_5");
    reveal_strlit("rot_15");
    reveal_strlit("rot_30");
    reveal_strlit("prot_ff");
    reveal_strlit("prot_rfp");
    reveal_strlit("prot_mac");
    reveal_strlit("prot_dns");
    reveal_strlit("prot_pf");
    reveal_strlit("prot_logs");
    reveal_strlit("prot_ua");
    reveal_strlit("prot_lang");
    reveal_strlit("prot_env");
    reveal_strlit("bypass_spotify");
    reveal_strlit("login");
    reveal_strlit("quit");
    assert("toggle"@.len() == 6);
    assert("rotate"@.len() == 6);
    assert("node_us"@.len() == 7);
    assert("node_gb"@.len() == 7);
    assert("node_au"@.len() == 7);
    assert("node_ca"@.len() == 7);
    assert("node_nz"@.len() == 7);
    assert("node_de"@.len() == 7);
    assert("node_fr"@.len() == 7);
    assert("rot_off"@.len() == 7);
    assert("rot_2"@.len() == 5);
    assert("rot_5"@.len() == 5);
    assert("rot_15"@.len() == 6);
    assert("rot_30"@.len() == 6);
    assert("prot_ff"@.len() == 7);
    assert("prot_rfp"@.len() == 8);
    assert("prot_mac"@.len() == 8);
    assert("prot_dns"@.len() == 8);
    assert("prot_pf"@.len() == 7);
    assert("prot_logs"@.len() == 9);
    assert("prot_ua"@.len() == 7);
    assert("prot_lang"@.len() == 9);
    assert("prot_env"@.len() == 8);
    assert("bypass_spotify"@.len() == 14);
    assert("login"@.len() == 5);
    assert("quit"@.len() == 4);
    assert("rotate"@[0] != "toggle"@[0]);
    assert("node_gb"@[5] != "node_us"@[5]);
    assert("node_au"@[5] != "node_us"@[5]);
    assert("node_au"@[5] != "node_gb"@[5]);
    assert("node_ca"@[5] != "node_us"@[5]);
    assert("node_ca"@[5] != "node_gb"@[5]);
    assert("node_ca"@[5] != "node_au"@[5]);
    assert("node_nz"@[5] != "node_us"@[5]);
    assert("node_nz"@[5] != "node_gb"@[5]);
    assert("node_nz"@[5] != "node_au"@[5]);
    assert("node_nz"@[5] != "node_ca"@[5]);
    assert("node_de"@[5] != "node_us"@[5]);
    assert("node_de"@[5] != "node_gb"@[5]);
    assert("node_de"@[5] != "node_au"@[5]);
    assert("node_de"@[5] != "node_ca"@[5]);
    assert("node_de"@[5] != "node_nz"@[5]);
    assert("node_fr"@[5] != "node_us"@[5]);
    assert("node_fr"@[5] != "node_gb"@[5]);
    assert("node_fr"@[5] != "node_au"@[5]);
    assert("node_fr"@[5] != "node_ca"@[5]);
    assert("node_fr"@[5] != "node_nz"@[5]);
    assert("node_fr"@[5] != "node_de"@[5]);
    assert("rot_off"@[0] != "node_us"@[0]);
    assert("rot_off"@[0] != "node_gb"@[0]);
    assert("rot_off"@[0] != "node_au"@[0]);
    assert("rot_off"@[0] != "node_ca"@[0]);
    assert("rot_off"@[0] != "node_nz"@[0]);
    assert("rot_off"@[0] != "node_de"@[0]);
    assert("rot_off"@[0] != "node_fr"@[0]);
    assert("rot_5"@[4] != "rot_2"@[4]);
    assert("rot_15"@[0] != "toggle"@[0]);
    assert("rot_15"@[3] != "rotate"@[3]);
    assert("rot_30"@[0] != "toggle"@[0]);
    assert("rot_30"@[3] != "rotate"@[3]);
    assert("rot_30"@[4] != "rot_15"@[4]);
    assert("prot_ff"@[0] != "node_us"@[0]);
    assert("prot_ff"@[0] != "node_gb"@[0]);
    assert("prot_ff"@[0] != "node_au"@[0]);
    assert("prot_ff"@[0] != "node_ca"@[0]);
    assert("prot_ff"@[0] != "node_nz"@[0]);
    assert("prot_ff"@[0] != "node_de"@[0]);
    assert("prot_ff"@[0] != "node_fr"@[0]);
    assert("prot_ff"@[0] != "rot_off"@[0]);
    assert("prot_mac"@[5] != "prot_rfp"@[5]);
    assert("prot_dns"@[5] != "prot_rfp"@[5]);
    assert("prot_dns"@[5] != "prot_mac"@[5]);
    assert("prot_pf"@[0] != "node_us"@[0]);
    assert("prot_pf"@[0] != "node_gb"@[0]);
    assert("prot_pf"@[0] != "node_au"@[0]);
    assert("prot_pf"@[0] != "node_ca"@[0]);
    assert("prot_pf"@[0] != "node_nz"@[0]);
    assert("prot_pf"@[0] != "node_de"@[0]);
    assert("prot_pf"@[0] != "node_fr"@[0]);
    assert("prot_pf"@[0] != "rot_off"@[0]);
    assert("prot_pf"@[5] != "prot_ff"@[5]);
    assert("prot_ua"@[0] != "node_us"@[0]);
    assert("prot_ua"@[0] != "node_gb"@[0]);
    assert("prot_ua"@[0] != "node_au"@[0]);
    assert("prot_ua"@[0] != "node_ca"@[0]);
    assert("prot_ua"@[0] != "node_nz"@[0]);
    assert("prot_ua"@[0] != "node_de"@[0]);
    assert("prot_ua"@[0] != "node_fr"@[0]);
    assert("prot_ua"@[0] != "rot_off"@[0]);
    assert("prot_ua"@[5] != "prot_ff"@[5]);
    assert("prot_ua"@[5] != "prot_pf"@[5]);
    assert("prot_lang"@[6] != "prot_logs"@[6]);
    assert("prot_env"@[5] != "prot_rfp"@[5]);
    assert("prot_env"@[5] != "prot_mac"@[5]);
    assert("prot_env"@[5] != "prot_dns"@[5]);
    assert("login"@[0] != "rot_2"@[0]);
    assert("login"@[0] != "rot_5"@[0]);
}

/// Each exit-country item toggles its own country and nothing else; each protection item
/// toggles its own protection; each rotation item sets its own period.
pub proof fn lemma_menu_items_change_their_setting(c: Config)
    ensures
        menu_action_of("node_us"@) is Change && changed(c, menu_action_of("node_us"@)->Change_0) == (Config { exclude_us: !c.exclude_us, ..c }),
        menu_action_of("node_gb"@) is Change && changed(c, menu_action_of("node_gb"@)->Change_0) == (Config { exclude_gb: !c.exclude_gb, ..c }),
        menu_action_of("node_au"@) is Change && changed(c, menu_action_of("node_au"@)->Change_0) == (Config { exclude_au: !c.exclude_au, ..c }),
        menu_action_of("node_ca"@) is Change && changed(c, menu_action_of("node_ca"@)->Change_0) == (Config { exclude_ca: !c.exclude_ca, ..c }),
        menu_action_of("node_nz"@) is Change && changed(c, menu_action_of("node_nz"@)->Change_0) == (Config { exclude_nz: !c.exclude_nz, ..c }),
        menu_action_of("node_de"@) is Change && changed(c, menu_action_of("node_de"@)->Change_0) == (Config { exclude_de: !c.exclude_de, ..c }),
        menu_action_of("node_fr"@) is Change && changed(c, menu_action_of("node_fr"@)->Change_0) == (Config { exclude_fr: !c.exclude_fr, ..c }),
        menu_action_of("rot_off"@) is Change && changed(c, menu_action_of("rot_off"@)->Change_0) == (Config { rotate_mins: 0, ..c }),
        menu_action_of("rot_2"@) is Change && changed(c, menu_action_of("rot_2"@)->Change_0) == (Config { rotate_mins: 2, ..c }),
        menu_action_of("rot_5"@) is Change && changed(c, menu_action_of("rot_5"@)->Change_0) == (Config { rotate_mins: 5, ..c }),
        menu_action_of("rot_15"@) is Change && changed(c, menu_action_of("rot_15"@)->Change_0) == (Config { rotate_mins: 15, ..c }),
        menu_action_of("rot_30"@) is Change && changed(c, menu_action_of("rot_30"@)->Change_0) == (Config { rotate_mins: 30, ..c }),
        menu_action_of("prot_ff"@) is Change && changed(c, menu_action_of("prot_ff"@)->Change_0) == (Config { firefox: !c.firefox, ..c }),
        menu_action_of("prot_rfp"@) is Change && changed(c, menu_action_of("prot_rfp"@)->Change_0) == (Config { resist_fp: !c.resist_fp, ..c }),
        menu_action_of("prot_mac"@) is Change && changed(c, menu_action_of("prot_mac"@)->Change_0) == (Config { mac_spoof: !c.mac_spoof, ..c }),
        menu_action_of("prot_dns"@) is Change && changed(c, menu_action_of("prot_dns"@)->Change_0) == (Config { dns_leak: !c.dns_leak, ..c }),
        menu_action_of("prot_pf"@) is Change && changed(c, menu_action_of("prot_pf"@)->Change_0) == (Config { pf_firewall: !c.pf_firewall, ..c }),
        menu_action_of("prot_logs"@) is Change && changed(c, menu_action_of("prot_logs"@)->Change_0) == (Config { clear_logs: !c.clear_logs, ..c }),
        menu_action_of("prot_ua"@) is Change && changed(c, menu_action_of("prot_ua"@)->Change_0) == (Config { ua_spoof: !c.ua_spoof, ..c }),
        menu_action_of("prot_lang"@) is Change && changed(c, menu_action_of("prot_lang"@)->Change_0) == (Config { lang_spoof: !c.lang_spoof, ..c }),
        menu_action_of("prot_env"@) is Change && changed(c, menu_action_of("prot_env"@)->Change_0) == (Config { env_inject: !c.env_inject, ..c }),
        menu_action_of("bypass_spotify"@) is Change && changed(c, menu_action_of("bypass_spotify"@)->Change_0) == (Config {
            spotify_bypass: !c.spotify_bypass,
            ..c
        }),
        menu_action_of("toggle"@) == MenuAction::ToggleConnection,
        menu_action_of("rotate"@) == MenuAction::NewIdentity,
        menu_action_of("login"@) == MenuAction::ToggleLogin,
        menu_action_of("quit"@) == MenuAction::Quit,
{
    lemma_menu_ids();
}

/// Different menu items never ask for the same thing: an action other than `Ignore`
/// comes from one item only.
pub proof fn lemma_menu_items_distinct(a: Seq<char>, b: Seq<char>)
    requires
        menu_action_of(a) == menu_action_of(b),
        !(menu_action_of(a) is Ignore),
    ensures
        a == b,
{
}

} // verus!

verus! {

/// What clicking a settings item does at once: while connected, the kill switch,
/// the environment variables and Firefox hardening are switched to their new state,
/// fingerprinting is applied again when Firefox hardening is on, and the proxy is set
/// again for the Spotify bypass; a rotation period is always passed on; everything
/// else, and anything while disconnected, waits for the next connect.
pub proof fn lemma_menu_changes_take_effect(c: Config, active: bool)
    ensures
        ({
            let ch = menu_action_of("prot_pf"@)->Change_0;
            change_effect_of(ch, active, changed(c, ch)) == if !active {
                ChangeEffect::Nothing
            } else if c.pf_firewall {
                ChangeEffect::PfDisable
            } else {
                ChangeEffect::PfEnable
            }
        }),
        ({
            let ch = menu_action_of("prot_env"@)->Change_0;
            change_effect_of(ch, active, changed(c, ch)) == if !active {
                ChangeEffect::Nothing
            } else if c.env_inject {
                ChangeEffect::EnvInjectDisable
            } else {
                ChangeEffect::EnvInjectEnable
            }
        }),
        ({
            let ch = menu_action_of("prot_ff"@)->Change_0;
            change_effect_of(ch, active, changed(c, ch)) == if active {
                ChangeEffect::FirefoxApply(!c.firefox)
            } else {
                ChangeEffect::Nothing
            }
        }),
        ({
            let ch = menu_action_of("prot_rfp"@)->Change_0;
            change_effect_of(ch, active, changed(c, ch)) == if active && c.firefox {
                ChangeEffect::FirefoxApply(true)
            } else {
                ChangeEffect::Nothing
            }
        }),
        ({
            let ch = menu_action_of("bypass_spotify"@)->Change_0;
            change_effect_of(ch, active, changed(c, ch)) == if active {
                ChangeEffect::ProxyEnable
            } else {
                ChangeEffect::Nothing
            }
        }),
        change_effect_of(menu_action_of("rot_off"@)->Change_0, active, c) == ChangeEffect::RotationPeriod(0),
        change_effect_of(menu_action_of("rot_2"@)->Change_0, active, c) == ChangeEffect::RotationPeriod(2),
        change_effect_of(menu_action_of("rot_5"@)->Change_0, active, c) == ChangeEffect::RotationPeriod(5),
        change_effect_of(menu_action_of("rot_15"@)->Change_0, active, c) == ChangeEffect::RotationPeriod(15),
        change_effect_of(menu_action_of("rot_30"@)->Change_0, active, c) == ChangeEffect::RotationPeriod(30),
        change_effect_of(menu_action_of("node_us"@)->Change_0, active, c) == ChangeEffect::Nothing,
        change_effect_of(menu_action_of("node_gb"@)->Change_0, active, c) == ChangeEffect::Nothing,
        change_effect_of(menu_action_of("node_au"@)->Change_0, active, c) == ChangeEffect::Nothing,
        change_effect_of(menu_action_of("node_ca"@)->Change_0, active, c) == ChangeEffect::Nothing,
        change_effect_of(menu_action_of("node_nz"@)->Change_0, active, c) == ChangeEffect::Nothing,
        change_effect_of(menu_action_of("node_de"@)->Change_0, active, c) == ChangeEffect::Nothing,
        change_effect_of(menu_action_of("node_fr"@)->Change_0, active, c) == ChangeEffect::Nothing,
        change_effect_of(menu_action_of("prot_mac"@)->Change_0, active, c) == ChangeEffect::Nothing,
        change_effect_of(menu_action_of("prot_dns"@)->Change_0, active, c) == ChangeEffect::Nothing,
        change_effect_of(menu_action_of("prot_logs"@)->Change_0, active, c) == ChangeEffect::Nothing,
        change_effect_of(menu_action_of("prot_ua"@)->Change_0, active, c) == ChangeEffect::Nothing,
        change_effect_of(menu_action_of("prot_lang"@)->Change_0, active, c) == ChangeEffect::Nothing,
{
    lemma_menu_ids();
}

} // verus!

verus! {

/// Connecting turns on exactly the protections the settings ask for (log clearing, MAC
/// spoofing, the DNS fix, the kill switch, the environment variables, Firefox
/// hardening), and always turns IPv6 off, starts Tor and waits for it, sets the proxy,
/// writes the lock file and looks up the exit address; tearing down undoes exactly the
/// protections that are on, and always restores the proxy and IPv6, stops Tor and
/// removes the lock file.
pub proof fn lemma_protections_follow_settings(c: Config)
    ensures
        enable_plan(c).contains(Step::ClearLogs) == c.clear_logs,
        enable_plan(c).contains(Step::MacSpoofEnable) == c.mac_spoof,
        enable_plan(c).contains(Step::DnsLeakEnable) == c.dns_leak,
        enable_plan(c).contains(Step::PfEnable) == c.pf_firewall,
        enable_plan(c).contains(Step::EnvInjectEnable) == c.env_inject,
        enable_plan(c).contains(Step::FirefoxHarden) == c.firefox,
        enable_plan(c).contains(Step::Ipv6Disable),
        enable_plan(c).contains(Step::StartTor),
        enable_plan(c).contains(Step::WaitForTor),
        enable_plan(c).contains(Step::ProxyEnable),
        enable_plan(c).contains(Step::WriteLock),
        enable_plan(c).contains(Step::FetchTorIp),
        teardown_plan(c).contains(Step::MacSpoofRestore) == c.mac_spoof,
        teardown_plan(c).contains(Step::DnsLeakDisable) == c.dns_leak,
        teardown_plan(c).contains(Step::PfDisable) == c.pf_firewall,
        teardown_plan(c).contains(Step::EnvInjectDisable) == c.env_inject,
        teardown_plan(c).contains(Step::FirefoxRestore) == c.firefox,
        teardown_plan(c).contains(Step::ProxyDisable),
        teardown_plan(c).contains(Step::Ipv6Restore),
        teardown_plan(c).contains(Step::StopTor),
        teardown_plan(c).contains(Step::RemoveLock),
{
    lemma_enable_contains(c, Step::ClearLogs);
    lemma_enable_contains(c, Step::MacSpoofEnable);
    lemma_enable_contains(c, Step::DnsLeakEnable);
    lemma_enable_contains(c, Step::PfEnable);
    lemma_enable_contains(c, Step::EnvInjectEnable);
    lemma_enable_contains(c, Step::FirefoxHarden);
    lemma_enable_contains(c, Step::Ipv6Disable);
    lemma_enable_contains(c, Step::StartTor);
    lemma_enable_contains(c, Step::WaitForTor);
    lemma_enable_contains(c, Step::ProxyEnable);
    lemma_enable_contains(c, Step::WriteLock);
    lemma_enable_contains(c, Step::FetchTorIp);
    lemma_teardown_contains(c, Step::MacSpoofRestore);
    lemma_teardown_contains(c, Step::DnsLeakDisable);
    lemma_teardown_contains(c, Step::PfDisable);
    lemma_teardown_contains(c, Step::EnvInjectDisable);
    lemma_teardown_contains(c, Step::FirefoxRestore);
    lemma_teardown_contains(c, Step::ProxyDisable);
    lemma_teardown_contains(c, Step::Ipv6Restore);
    lemma_teardown_contains(c, Step::StopTor);
    lemma_teardown_contains(c, Step::RemoveLock);
}

} // verus!
