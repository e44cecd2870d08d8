use vstd::prelude::*;
use vstd::string::StringSliceAdditionalSpecFns;
use crate::text::{chars_of, join, join_chars, string_of, views, trim, is_ws, eq_chars, trim_chars, lemma_trim_no_ws};
use crate::hex::{hex_lower, hex_digit, hex_encode};
use crate::crypto::{hmac_sha256, hmac_tag, rand_bytes};

verus! {

/// The user's settings: excluded exit countries, identity rotation and protections.
#[derive(Clone, Copy, Debug, PartialEq, Eq, Structural)]
pub struct Config {
    pub exclude_us: bool,
    pub exclude_gb: bool,
    pub exclude_au: bool,
    pub exclude_ca: bool,
    pub exclude_nz: bool,
    pub exclude_de: bool,
    pub exclude_fr: bool,
    pub rotate_mins: u32,
    pub mac_spoof: bool,
    pub dns_leak: bool,
    pub pf_firewall: bool,
    pub clear_logs: bool,
    pub firefox: bool,
    pub resist_fp: bool,
    pub ua_spoof: bool,
    pub lang_spoof: bool,
    pub env_inject: bool,
    /// Spotify's domains bypass the proxy.
    pub spotify_bypass: bool,
}

/// The settings a fresh install starts with.
pub open spec fn default_config() -> Config {
    Config {
        exclude_us: true,
        exclude_gb: true,
        exclude_au: true,
        exclude_ca: true,
        exclude_nz: true,
        exclude_de: false,
        exclude_fr: false,
        rotate_mins: 0,
        mac_spoof: true,
        dns_leak: true,
        pf_firewall: false,
        clear_logs: true,
        firefox: true,
        resist_fp: true,
        ua_spoof: true,
        lang_spoof: true,
        env_inject: false,
        spotify_bypass: false,
    }
}

impl Default for Config {
    fn default() -> (c: Self)
        ensures
            c == default_config(),
    {
        Config {
            exclude_us: true,
            exclude_gb: true,
            exclude_au: true,
            exclude_ca: true,
            exclude_nz: true,
            exclude_de: false,
            exclude_fr: false,
            rotate_mins: 0,
            mac_spoof: true,
            dns_leak: true,
            pf_firewall: false,
            clear_logs: true,
            firefox: true,
            resist_fp: true,
            ua_spoof: true,
            lang_spoof: true,
            env_inject: false,
            spotify_bypass: false,
        }
    }
}

/// What the menu shows and what the last operations found.
#[derive(Clone, Debug)]
pub struct OpsecState {
    pub active: bool,
    pub tor_ip: Option<String>,
    pub real_ip: Option<String>,
    pub config: Option<Config>,
}

impl Default for OpsecState {
    fn default() -> (s: Self)
        ensures
            !s.active,
            s.tor_ip is None,
            s.real_ip is None,
            s.config is None,
    {
        OpsecState { active: false, tor_ip: None, real_ip: None, config: None }
    }
}

/// One code per excluded country, `{cc}`, in the order US, GB, AU, CA, NZ, DE, FR.
pub open spec fn excluded_codes(c: Config) -> Seq<Seq<char>> {
    (if c.exclude_us { seq!["{us}"@] } else { seq![] })
    + (if c.exclude_gb { seq!["{gb}"@] } else { seq![] })
    + (if c.exclude_au { seq!["{au}"@] } else { seq![] })
    + (if c.exclude_ca { seq!["{ca}"@] } else { seq![] })
    + (if c.exclude_nz { seq!["{nz}"@] } else { seq![] })
    + (if c.exclude_de { seq!["{de}"@] } else { seq![] })
    + (if c.exclude_fr { seq!["{fr}"@] } else { seq![] })
}

/// The `ExcludeExitNodes` value: the excluded codes separated by commas.
pub open spec fn excluded_nodes_text(c: Config) -> Seq<char> {
    join(excluded_codes(c), ","@)
}

fn push_code(v: &mut Vec<Vec<char>>, on: bool, code: &str)
    ensures
        views(final(v)@) == views(old(v)@) + (if on { seq![code@] } else { seq![] }),
{
    if on {
        let ghost before = views(v@);
        v.push(chars_of(code));
        assert(views(v@) =~= before + seq![code@]);
    } else {
        assert(views(v@) =~= views(v@) + Seq::<Seq<char>>::empty());
    }
}

impl Config {
    /// The excluded exit countries as Tor's `ExcludeExitNodes` wants them, e.g. `{us},{gb}`.
    pub fn excluded_nodes(&self) -> (r: String)
        ensures
            r@ == excluded_nodes_text(*self),
    {
        let mut v: Vec<Vec<char>> = Vec::new();
        push_code(&mut v, self.exclude_us, "{us}");
        push_code(&mut v, self.exclude_gb, "{gb}");
        push_code(&mut v, self.exclude_au, "{au}");
        push_code(&mut v, self.exclude_ca, "{ca}");
        push_code(&mut v, self.exclude_nz, "{nz}");
        push_code(&mut v, self.exclude_de, "{de}");
        push_code(&mut v, self.exclude_fr, "{fr}");
        assert(views(v@) =~= excluded_codes(*self));
        let sep = chars_of(",");
        let joined = join_chars(&v, &sep);
        string_of(&joined)
    }
}


/// The integrity tag stored beside the settings file: the lowercase hex
/// HMAC-SHA256 of the file's bytes.
pub open spec fn config_signature(key: Seq<u8>, json: Seq<u8>) -> Seq<char> {
    hex_lower(hmac_sha256(key, json))
}

/// A stored tag vouches for the settings file when, trimmed, it is the file's signature.
pub open spec fn signature_valid(key: Seq<u8>, json: Seq<u8>, stored: Seq<char>) -> bool {
    trim(stored) == config_signature(key, json)
}

/// The tag written beside the settings file `json`.
pub fn config_hmac(key: &[u8], json: &str) -> (r: String)
    ensures
        r@ == config_signature(key@, json.spec_bytes()),
{
    let tag = hmac_tag(key, json.as_bytes());
    let hex = hex_encode(&tag);
    string_of(&hex)
}

/// Whether a stored tag, trimmed, is the lowercase hex of `tag`.
pub fn stored_tag_matches(tag: &[u8], stored: &str) -> (r: bool)
    ensures
        r == (trim(stored@) == hex_lower(tag@)),
{
    let expected = hex_encode(tag);
    let got = trim_chars(&chars_of(stored));
    eq_chars(&got, &expected)
}

/// Whether the tag read from disk vouches for the settings file read from disk.
pub fn config_hmac_matches(key: &[u8], json: &str, stored: &str) -> (r: bool)
    ensures
        r == signature_valid(key@, json.spec_bytes(), stored@),
{
    let tag = hmac_tag(key, json.as_bytes());
    stored_tag_matches(&tag, stored)
}

proof fn lemma_hex_lower_no_ws(b: Seq<u8>)
    ensures
        forall|k: int| 0 <= k < hex_lower(b).len() ==> !is_ws(#[trigger] hex_lower(b)[k]),
    decreases b.len(),
{
    if b.len() > 0 {
        lemma_hex_lower_no_ws(b.drop_last());
        let p = hex_lower(b.drop_last());
        let q = seq![hex_digit(b.last() / 16), hex_digit(b.last() % 16)];
        assert forall|k: int| 0 <= k < hex_lower(b).len() implies !is_ws(#[trigger] hex_lower(b)[k]) by {
            if k >= p.len() {
                let d = if k == p.len() { b.last() / 16 } else { b.last() % 16 };
                assert(hex_lower(b)[k] == hex_digit(d));
            } else {
                assert(hex_lower(b)[k] == p[k]);
            }
        }
    }
}

/// Saved settings pass the integrity check on the next start: the tag that
/// `config_hmac` writes for a file is accepted for that file under the same key.
pub proof fn lemma_saved_config_verifies(key: Seq<u8>, json: Seq<u8>)
    ensures
        signature_valid(key, json, config_signature(key, json)),
{
    lemma_hex_lower_no_ws(hmac_sha256(key, json));
    lemma_trim_no_ws(config_signature(key, json));
}

/// The key that signs the settings file.
pub struct HmacKey {
    pub bytes: Vec<u8>,
    /// Newly generated, so it must be stored in the keychain.
    pub fresh: bool,
}

/// The settings key: the one read from the keychain when it has 32 bytes, else 32
/// new random bytes; `None` when the system's random source fails.
pub fn config_hmac_key(stored: Option<Vec<u8>>) -> (r: Option<HmacKey>)
    ensures
        (stored matches Some(k) && k@.len() == 32) ==> (r matches Some(h) && h.bytes@ == stored->0@
            && !h.fresh),
        !(stored matches Some(k) && k@.len() == 32) ==> (r matches Some(h) ==> h.fresh
            && h.bytes@.len() == 32),
{
    if let Some(k) = stored {
        if k.len() == 32 {
            return Some(HmacKey { bytes: k, fresh: false });
        }
    }
    match rand_bytes(32) {
        Some(b) => Some(HmacKey { bytes: b, fresh: true }),
        None => None,
    }
}

/// A change that the menu makes to the settings.
#[derive(Clone, Copy, Debug, PartialEq, Eq, Structural)]
pub enum ConfigChange {
    ExcludeUs,
    ExcludeGb,
    ExcludeAu,
    ExcludeCa,
    ExcludeNz,
    ExcludeDe,
    ExcludeFr,
    RotateMins(u32),
    Firefox,
    ResistFp,
    MacSpoof,
    DnsLeak,
    PfFirewall,
    ClearLogs,
    UaSpoof,
    LangSpoof,
    EnvInject,
    SpotifyBypass,
}

/// The settings after `ch`: a flag change flips its flag, a rotation change sets
/// the period, and every other field stays as it was.
pub open spec fn changed(c: Config, ch: ConfigChange) -> Config {
    Config {
        exclude_us: c.exclude_us != (ch is ExcludeUs),
        exclude_gb: c.exclude_gb != (ch is ExcludeGb),
        exclude_au: c.exclude_au != (ch is ExcludeAu),
        exclude_ca: c.exclude_ca != (ch is ExcludeCa),
        exclude_nz: c.exclude_nz != (ch is ExcludeNz),
        exclude_de: c.exclude_de != (ch is ExcludeDe),
        exclude_fr: c.exclude_fr != (ch is ExcludeFr),
        rotate_mins: match ch {
            ConfigChange::RotateMins(m) => m,
            _ => c.rotate_mins,
        },
        mac_spoof: c.mac_spoof != (ch is MacSpoof),
        dns_leak: c.dns_leak != (ch is DnsLeak),
        pf_firewall: c.pf_firewall != (ch is PfFirewall),
        clear_logs: c.clear_logs != (ch is ClearLogs),
        firefox: c.firefox != (ch is Firefox),
        resist_fp: c.resist_fp != (ch is ResistFp),
        ua_spoof: c.ua_spoof != (ch is UaSpoof),
        lang_spoof: c.lang_spoof != (ch is LangSpoof),
        env_inject: c.env_inject != (ch is EnvInject),
        spotify_bypass: c.spotify_bypass != (ch is SpotifyBypass),
    }
}

/// Applies a menu change to the settings and returns the new settings (which the
/// caller then saves).
pub fn toggle_cfg(cfg: &mut Config, ch: ConfigChange) -> (r: Config)
    ensures
        *final(cfg) == changed(*old(cfg), ch),
        r == *final(cfg),
{
    let c = *cfg;
    let rotate_mins = match ch {
        ConfigChange::RotateMins(m) => m,
        _ => c.rotate_mins,
    };
    *cfg = Config {
        exclude_us: c.exclude_us != matches!(ch, ConfigChange::ExcludeUs),
        exclude_gb: c.exclude_gb != matches!(ch, ConfigChange::ExcludeGb),
        exclude_au: c.exclude_au != matches!(ch, ConfigChange::ExcludeAu),
        exclude_ca: c.exclude_ca != matches!(ch, ConfigChange::ExcludeCa),
        exclude_nz: c.exclude_nz != matches!(ch, ConfigChange::ExcludeNz),
        exclude_de: c.exclude_de != matches!(ch, ConfigChange::ExcludeDe),
        exclude_fr: c.exclude_fr != matches!(ch, ConfigChange::ExcludeFr),
        rotate_mins,
        mac_spoof: c.mac_spoof != matches!(ch, ConfigChange::MacSpoof),
        dns_leak: c.dns_leak != matches!(ch, ConfigChange::DnsLeak),
        pf_firewall: c.pf_firewall != matches!(ch, ConfigChange::PfFirewall),
        clear_logs: c.clear_logs != matches!(ch, ConfigChange::ClearLogs),
        firefox: c.firefox != matches!(ch, ConfigChange::Firefox),
        resist_fp: c.resist_fp != matches!(ch, ConfigChange::ResistFp),
        ua_spoof: c.ua_spoof != matches!(ch, ConfigChange::UaSpoof),
        lang_spoof: c.lang_spoof != matches!(ch, ConfigChange::LangSpoof),
        env_inject: c.env_inject != matches!(ch, ConfigChange::EnvInject),
        spotify_bypass: c.spotify_bypass != matches!(ch, ConfigChange::SpotifyBypass),
    };
    *cfg
}

/// Choosing the same menu toggle twice gives back the settings one started with;
/// choosing a rotation period twice is the same as choosing it once.
pub proof fn lemma_toggle_twice(c: Config, ch: ConfigChange)
    ensures
        (ch matches ConfigChange::RotateMins(_)) ==> changed(changed(c, ch), ch) == changed(c, ch),
        !(ch matches ConfigChange::RotateMins(_)) ==> changed(changed(c, ch), ch) == c,
{
}

/// Changing a setting leaves every other setting as it was: only the exit-country
/// exclusions change what `excluded_nodes` yields.
pub proof fn lemma_change_keeps_exclusions(c: Config, ch: ConfigChange)
    requires
        !(ch matches ConfigChange::ExcludeUs),
        !(ch matches ConfigChange::ExcludeGb),
        !(ch matches ConfigChange::ExcludeAu),
        !(ch matches ConfigChange::ExcludeCa),
        !(ch matches ConfigChange::ExcludeNz),
        !(ch matches ConfigChange::ExcludeDe),
        !(ch matches ConfigChange::ExcludeFr),
    ensures
        excluded_nodes_text(changed(c, ch)) == excluded_nodes_text(c),
{
}

} // verus!

verus! {

proof fn lemma_join_nonempty(parts: Seq<Seq<char>>, sep: Seq<char>)
    requires
        parts.len() > 0,
        parts.last().len() > 0,
    ensures
        join(parts, sep).len() > 0,
{
}

spec fn opt_code(on: bool, x: Seq<char>) -> Seq<Seq<char>> {
    if on { seq![x] } else { seq![] }
}

proof fn lemma_codes_step(s: Seq<Seq<char>>, on: bool, x: Seq<char>, allowed: Set<Seq<char>>)
    requires
        s.no_duplicates(),
        forall|i: int| 0 <= i < s.len() ==> allowed.contains(#[trigger] s[i]),
        forall|i: int| 0 <= i < s.len() ==> (#[trigger] s[i]).len() == 4,
        !allowed.contains(x),
        x.len() == 4,
    ensures
        (s + opt_code(on, x)).no_duplicates(),
        forall|i: int| 0 <= i < (s + opt_code(on, x)).len() ==> allowed.insert(x).contains(#[trigger] (s + opt_code(on, x))[i]),
        forall|i: int| 0 <= i < (s + opt_code(on, x)).len() ==> (#[trigger] (s + opt_code(on, x))[i]).len() == 4,
        (s + opt_code(on, x)).len() == s.len() + (if on { 1int } else { 0int }),
{
    let t = s + opt_code(on, x);
    assert forall|i: int| 0 <= i < t.len() implies allowed.insert(x).contains(#[trigger] t[i]) && t[i].len() == 4 by {
        if i < s.len() {
            assert(t[i] == s[i]);
        }
    }
    assert forall|i: int, j: int| 0 <= i < t.len() && 0 <= j < t.len() && i != j implies t[i] != t[j] by {
        if i < s.len() && j < s.len() {
            assert(t[i] == s[i] && t[j] == s[j]);
        } else if i < s.len() {
            assert(t[i] == s[i]);
            assert(allowed.contains(s[i]));
        } else if j < s.len() {
            assert(t[j] == s[j]);
            assert(allowed.contains(s[j]));
        }
    }
}

/// The `ExcludeExitNodes` value is empty exactly when no country is excluded, and no
/// country code occurs in it twice.
pub proof fn lemma_excluded_nodes_shape(c: Config)
    ensures
        (excluded_nodes_text(c).len() == 0) <==> !(c.exclude_us || c.exclude_gb || c.exclude_au || c.exclude_ca
            || c.exclude_nz || c.exclude_de || c.exclude_fr),
        excluded_codes(c).no_duplicates(),
{
    reveal_strlit("{us}");
    reveal_strlit("{gb}");
    reveal_strlit("{au}");
    reveal_strlit("{ca}");
    reveal_strlit("{nz}");
    reveal_strlit("{de}");
    reveal_strlit("{fr}");
    let e = Set::<Seq<char>>::empty();
    let s0 = Seq::<Seq<char>>::empty();
    lemma_codes_step(s0, c.exclude_us, "{us}"@, e);
    let s1 = s0 + opt_code(c.exclude_us, "{us}"@);
    let a1 = e.insert("{us}"@);
    assert("{gb}"@[1] != "{us}"@[1]);
    lemma_codes_step(s1, c.exclude_gb, "{gb}"@, a1);
    let s2 = s1 + opt_code(c.exclude_gb, "{gb}"@);
    let a2 = a1.insert("{gb}"@);
    assert("{au}"@[1] != "{us}"@[1] && "{au}"@[1] != "{gb}"@[1]);
    lemma_codes_step(s2, c.exclude_au, "{au}"@, a2);
    let s3 = s2 + opt_code(c.exclude_au, "{au}"@);
    let a3 = a2.insert("{au}"@);
    assert("{ca}"@[1] != "{us}"@[1] && "{ca}"@[1] != "{gb}"@[1] && "{ca}"@[2] != "{au}"@[2]);
    lemma_codes_step(s3, c.exclude_ca, "{ca}"@, a3);
    let s4 = s3 + opt_code(c.exclude_ca, "{ca}"@);
    let a4 = a3.insert("{ca}"@);
    assert("{nz}"@[1] != "{us}"@[1] && "{nz}"@[1] != "{gb}"@[1] && "{nz}"@[1] != "{au}"@[1] && "{nz}"@[1] != "{ca}"@[1]);
    lemma_codes_step(s4, c.exclude_nz, "{nz}"@, a4);
    let s5 = s4 + opt_code(c.exclude_nz, "{nz}"@);
    let a5 = a4.insert("{nz}"@);
    assert("{de}"@[1] != "{us}"@[1] && "{de}"@[1] != "{gb}"@[1] && "{de}"@[1] != "{au}"@[1] && "{de}"@[1] != "{ca}"@[1]
        && "{de}"@[1] != "{nz}"@[1]);
    lemma_codes_step(s5, c.exclude_de, "{de}"@, a5);
    let s6 = s5 + opt_code(c.exclude_de, "{de}"@);
    let a6 = a5.insert("{de}"@);
    assert("{fr}"@[1] != "{us}"@[1] && "{fr}"@[1] != "{gb}"@[1] && "{fr}"@[1] != "{au}"@[1] && "{fr}"@[1] != "{ca}"@[1]
        && "{fr}"@[1] != "{nz}"@[1] && "{fr}"@[1] != "{de}"@[1]);
    lemma_codes_step(s6, c.exclude_fr, "{fr}"@, a6);
    let s7 = s6 + opt_code(c.exclude_fr, "{fr}"@);
    assert(s1 =~= opt_code(c.exclude_us, "{us}"@));
    assert(excluded_codes(c) == s7);
    if s7.len() > 0 {
        assert(s7.last().len() == 4);
        lemma_join_nonempty(s7, ","@);
    } else {
        assert(s7 =~= Seq::<Seq<char>>::empty());
    }
}

} // verus!

verus! {

/// What loading the settings file comes to.
#[derive(Clone, Copy, Debug, PartialEq, Eq, Structural)]
pub enum LoadOutcome {
    /// No settings file: the defaults.
    UseDefault,
    /// A settings file its tag does not vouch for: the defaults, saved over it at once.
    ResetAndSave,
    /// A vouched-for file: its settings (the defaults when it does not parse).
    Parse,
}

pub open spec fn load_outcome_of(json_present: bool, tag_valid: bool) -> LoadOutcome {
    if !json_present {
        LoadOutcome::UseDefault
    } else if !tag_valid {
        LoadOutcome::ResetAndSave
    } else {
        LoadOutcome::Parse
    }
}

/// The outcome of loading, from whether the settings file could be read and whether
/// its stored tag vouches for it.
pub fn load_outcome(json_present: bool, tag_valid: bool) -> (r: LoadOutcome)
    ensures
        r == load_outcome_of(json_present, tag_valid),
{
    if !json_present {
        LoadOutcome::UseDefault
    } else if !tag_valid {
        LoadOutcome::ResetAndSave
    } else {
        LoadOutcome::Parse
    }
}

/// A settings file read back with the tag saved beside it, under the same key, is
/// parsed; one whose contents or tag were changed so that the tag no longer vouches for
/// it is replaced by the defaults.
pub proof fn lemma_saved_settings_load(key: Seq<u8>, json: Seq<u8>, stored: Seq<char>)
    ensures
        load_outcome_of(true, signature_valid(key, json, config_signature(key, json))) == LoadOutcome::Parse,
        !signature_valid(key, json, stored) ==> load_outcome_of(true, signature_valid(key, json, stored))
            == LoadOutcome::ResetAndSave,
{
    lemma_saved_config_verifies(key, json);
}

} // verus!

verus! {

proof fn lemma_opt_code_contains(s: Seq<Seq<char>>, on: bool, x: Seq<char>, y: Seq<char>)
    ensures
        (s + opt_code(on, x)).contains(y) <==> (s.contains(y) || (on && x == y)),
{
    let t = s + opt_code(on, x);
    if s.contains(y) {
        let k = choose|k: int| 0 <= k < s.len() && s[k] == y;
        assert(t[k] == s[k]);
    }
    if on && x == y {
        assert(t[s.len() as int] == x);
    }
    if t.contains(y) {
        let k = choose|k: int| 0 <= k < t.len() && t[k] == y;
        if k < s.len() {
            assert(t[k] == s[k]);
        }
    }
}

/// A country's code is among the excluded exit codes exactly when that country is
/// excluded in the settings.
pub proof fn lemma_excluded_countries(c: Config)
    ensures
        excluded_codes(c).contains("{us}"@) == c.exclude_us,
        excluded_codes(c).contains("{gb}"@) == c.exclude_gb,
        excluded_codes(c).contains("{au}"@) == c.exclude_au,
        excluded_codes(c).contains("{ca}"@) == c.exclude_ca,
        excluded_codes(c).contains("{nz}"@) == c.exclude_nz,
        excluded_codes(c).contains("{de}"@) == c.exclude_de,
        excluded_codes(c).contains("{fr}"@) == c.exclude_fr,
{
    reveal_strlit("{us}");
    reveal_strlit("{gb}");
    reveal_strlit("{au}");
    reveal_strlit("{ca}");
    reveal_strlit("{nz}");
    reveal_strlit("{de}");
    reveal_strlit("{fr}");
    let us = "{us}"@;
    let gb = "{gb}"@;
    let au = "{au}"@;
    let ca = "{ca}"@;
    let nz = "{nz}"@;
    let de = "{de}"@;
    let fr = "{fr}"@;
    assert(us[1] == 'u' && gb[1] == 'g' && au[1] == 'a' && ca[1] == 'c' && nz[1] == 'n' && de[1] == 'd' && fr[1] == 'f');
    let codes = seq![us, gb, au, ca, nz, de, fr];
    let flags = seq![c.exclude_us, c.exclude_gb, c.exclude_au, c.exclude_ca, c.exclude_nz, c.exclude_de, c.exclude_fr];
    let s0 = Seq::<Seq<char>>::empty();
    let s1 = s0 + opt_code(flags[0], codes[0]);
    let s2 = s1 + opt_code(flags[1], codes[1]);
    let s3 = s2 + opt_code(flags[2], codes[2]);
    let s4 = s3 + opt_code(flags[3], codes[3]);
    let s5 = s4 + opt_code(flags[4], codes[4]);
    let s6 = s5 + opt_code(flags[5], codes[5]);
    let s7 = s6 + opt_code(flags[6], codes[6]);
    assert(s1 =~= opt_code(c.exclude_us, us));
    assert(excluded_codes(c) == s7);
    assert forall|j: int| 0 <= j < 7 implies #[trigger] s7.contains(codes[j]) == flags[j] by {
        let y = codes[j];
        lemma_opt_code_contains(s0, flags[0], codes[0], y);
        lemma_opt_code_contains(s1, flags[1], codes[1], y);
        lemma_opt_code_contains(s2, flags[2], codes[2], y);
        lemma_opt_code_contains(s3, flags[3], codes[3], y);
        lemma_opt_code_contains(s4, flags[4], codes[4], y);
        lemma_opt_code_contains(s5, flags[5], codes[5], y);
        lemma_opt_code_contains(s6, flags[6], codes[6], y);
        assert forall|m: int| 0 <= m < 7 && m != j implies #[trigger] codes[m] != y by {
            assert(codes[m][1] != y[1]);
        }
    }
    assert(s7.contains(codes[0]) == flags[0]);
    assert(s7.contains(codes[1]) == flags[1]);
    assert(s7.contains(codes[2]) == flags[2]);
    assert(s7.contains(codes[3]) == flags[3]);
    assert(s7.contains(codes[4]) == flags[4]);
    assert(s7.contains(codes[5]) == flags[5]);
    assert(s7.contains(codes[6]) == flags[6]);
}

} // verus!

verus! {

spec fn plain_code(x: Seq<char>) -> bool {
    &&& x.len() == 4
    &&& x[3] == '}'
    &&& forall|j: int| 0 <= j < 4 ==> x[j] != '\n'
}

proof fn lemma_plain_step(s: Seq<Seq<char>>, on: bool, x: Seq<char>)
    requires
        forall|i: int| 0 <= i < s.len() ==> plain_code(#[trigger] s[i]),
        plain_code(x),
    ensures
        forall|i: int| 0 <= i < (s + opt_code(on, x)).len() ==> plain_code(#[trigger] (s + opt_code(on, x))[i]),
{
    let t = s + opt_code(on, x);
    assert forall|i: int| 0 <= i < t.len() implies plain_code(#[trigger] t[i]) by {
        if i < s.len() {
            assert(t[i] == s[i]);
        }
    }
}

/// The excluded codes as text hold no line break, and end in `}` when there are any.
pub(crate) proof fn lemma_excluded_nodes_one_line(c: Config)
    ensures
        forall|k: int| 0 <= k < excluded_nodes_text(c).len() ==> excluded_nodes_text(c)[k] != '\n',
        excluded_nodes_text(c).len() > 0 ==> excluded_nodes_text(c).last() == '}',
{
    reveal_strlit("{us}");
    reveal_strlit("{gb}");
    reveal_strlit("{au}");
    reveal_strlit("{ca}");
    reveal_strlit("{nz}");
    reveal_strlit("{de}");
    reveal_strlit("{fr}");
    reveal_strlit(",");
    let s0 = Seq::<Seq<char>>::empty();
    assert(plain_code("{us}"@) && plain_code("{gb}"@) && plain_code("{au}"@) && plain_code("{ca}"@));
    assert(plain_code("{nz}"@) && plain_code("{de}"@) && plain_code("{fr}"@));
    lemma_plain_step(s0, c.exclude_us, "{us}"@);
    let s1 = s0 + opt_code(c.exclude_us, "{us}"@);
    lemma_plain_step(s1, c.exclude_gb, "{gb}"@);
    let s2 = s1 + opt_code(c.exclude_gb, "{gb}"@);
    lemma_plain_step(s2, c.exclude_au, "{au}"@);
    let s3 = s2 + opt_code(c.exclude_au, "{au}"@);
    lemma_plain_step(s3, c.exclude_ca, "{ca}"@);
    let s4 = s3 + opt_code(c.exclude_ca, "{ca}"@);
    lemma_plain_step(s4, c.exclude_nz, "{nz}"@);
    let s5 = s4 + opt_code(c.exclude_nz, "{nz}"@);
    lemma_plain_step(s5, c.exclude_de, "{de}"@);
    let s6 = s5 + opt_code(c.exclude_de, "{de}"@);
    lemma_plain_step(s6, c.exclude_fr, "{fr}"@);
    let s7 = s6 + opt_code(c.exclude_fr, "{fr}"@);
    assert(s1 =~= opt_code(c.exclude_us, "{us}"@));
    assert(excluded_codes(c) == s7);
    assert(","@.len() == 1 && ","@[0] == ',');
    lemma_join_plain(s7, ","@);
}

proof fn lemma_join_plain(parts: Seq<Seq<char>>, sep: Seq<char>)
    requires
        forall|i: int| 0 <= i < parts.len() ==> plain_code(#[trigger] parts[i]),
        forall|k: int| 0 <= k < sep.len() ==> sep[k] != '\n',
    ensures
        forall|k: int| 0 <= k < join(parts, sep).len() ==> join(parts, sep)[k] != '\n',
        join(parts, sep).len() > 0 ==> join(parts, sep).last() == '}',
    decreases parts.len(),
{
    if parts.len() == 1 {
        assert(plain_code(parts[0]));
    } else if parts.len() > 1 {
        let d = parts.drop_last();
        assert forall|i: int| 0 <= i < d.len() implies plain_code(#[trigger] d[i]) by {
            assert(d[i] == parts[i]);
        }
        lemma_join_plain(d, sep);
        let a = join(d, sep);
        let l = parts.last();
        assert(plain_code(parts[parts.len() - 1]));
        let t = a + sep + l;
        assert(join(parts, sep) == t);
        assert forall|k: int| 0 <= k < t.len() implies t[k] != '\n' by {
            if k < a.len() {
                assert(t[k] == a[k]);
            } else if k < a.len() + sep.len() {
                assert(t[k] == sep[k - a.len()]);
            } else {
                assert(t[k] == l[k - a.len() - sep.len()]);
            }
        }
        assert(t.last() == l[3]);
    }
}

} // verus!
