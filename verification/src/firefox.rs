use vstd::prelude::*;
use crate::text::{
    chars_of, string_of, views, lines, lines_of, join, join_chars, trim_start, trim_start_chars,
    starts_with, starts_with_chars, occurs_at, occurs_at_chars,
};
use crate::helper::{Action, ActionView, action_views, push_action};

verus! {

/// How every preference line begins.
pub open spec fn pref_head() -> Seq<char> {
    "user_pref(\""@
}

/// Preference names (and the marker) that TorShield writes, by prefix.
pub open spec fn blocked_prefixes() -> Seq<Seq<char>> {
    seq![
        "TorShield"@,
        "network.proxy"@,
        "media.peerconnection"@,
        "geo."@,
        "permissions.default.geo"@,
        "dom.battery"@,
        "layout.css.prefers"@,
        "privacy.resistFingerprinting"@,
        "privacy.fingerprintingProtection"@,
        "dom.webaudio.enabled"@,
        "general.useragent.override"@,
        "intl.accept_languages"@,
        "javascript.use_us_english_locale"@,
        "spoofOsAsWindows"@,
        "network.http.http3"@,
        "network.http.http2.enabled"@,
        "network.dns.disablePrefetch"@,
        "network.prefetch-next"@,
        "browser.send_pings"@,
        "media.navigator.enabled"@,
        "browser.startup.page"@,
    ]
}

/// `name` begins with one of the managed prefixes.
pub open spec fn has_blocked_prefix(name: Seq<char>) -> bool {
    exists|i: int| 0 <= i < blocked_prefixes().len() && starts_with(name, #[trigger] blocked_prefixes()[i])
}

/// A line that sets a preference TorShield manages: after leading whitespace it reads
/// `user_pref("` followed by a managed name.
pub open spec fn is_managed(line: Seq<char>) -> bool {
    let t = trim_start(line);
    starts_with(t, pref_head()) && has_blocked_prefix(t.skip(pref_head().len() as int))
}

/// The lines that are not managed preferences, in order.
pub open spec fn kept_lines(ls: Seq<Seq<char>>) -> Seq<Seq<char>>
    decreases ls.len(),
{
    if ls.len() == 0 {
        Seq::empty()
    } else if is_managed(ls.last()) {
        kept_lines(ls.drop_last())
    } else {
        kept_lines(ls.drop_last()).push(ls.last())
    }
}

/// A preferences file with every managed preference line removed: its other lines
/// joined with `\n`.
pub open spec fn stripped(content: Seq<char>) -> Seq<char> {
    join(kept_lines(lines(content)), seq!['\n'])
}

fn blocked_prefix_list() -> (r: Vec<Vec<char>>)
    ensures
        views(r@) == blocked_prefixes(),
{
    let mut r: Vec<Vec<char>> = Vec::new();
    r.push(chars_of("TorShield"));
    r.push(chars_of("network.proxy"));
    r.push(chars_of("media.peerconnection"));
    r.push(chars_of("geo."));
    r.push(chars_of("permissions.default.geo"));
    r.push(chars_of("dom.battery"));
    r.push(chars_of("layout.css.prefers"));
    r.push(chars_of("privacy.resistFingerprinting"));
    r.push(chars_of("privacy.fingerprintingProtection"));
    r.push(chars_of("dom.webaudio.enabled"));
    r.push(chars_of("general.useragent.override"));
    r.push(chars_of("intl.accept_languages"));
    r.push(chars_of("javascript.use_us_english_locale"));
    r.push(chars_of("spoofOsAsWindows"));
    r.push(chars_of("network.http.http3"));
    r.push(chars_of("network.http.http2.enabled"));
    r.push(chars_of("network.dns.disablePrefetch"));
    r.push(chars_of("network.prefetch-next"));
    r.push(chars_of("browser.send_pings"));
    r.push(chars_of("media.navigator.enabled"));
    r.push(chars_of("browser.startup.page"));
    assert(views(r@) =~= blocked_prefixes());
    r
}

/// Whether `line` sets a managed preference.
fn is_managed_line(line: &[char], head: &[char], blocked: &Vec<Vec<char>>) -> (b: bool)
    requires
        head@ == pref_head(),
        views(blocked@) == blocked_prefixes(),
    ensures
        b == is_managed(line@),
{
    let t = trim_start_chars(line);
    if !starts_with_chars(&t, head) {
        return false;
    }
    let h = head.len();
    let ghost name = t@.skip(h as int);
    let n = blocked.len();
    for i in 0..n
        invariant
            n == blocked@.len(),
            views(blocked@) == blocked_prefixes(),
            h == pref_head().len(),
            h <= t@.len(),
            t@ == trim_start(line@),
            starts_with(t@, pref_head()),
            name == t@.skip(h as int),
            forall|k: int| 0 <= k < i ==> !starts_with(name, #[trigger] blocked_prefixes()[k]),
    {
        let hit = occurs_at_chars(&t, &blocked[i], h);
        let ghost b = blocked_prefixes()[i as int];
        assert(blocked@[i as int]@ == b);
        assert(hit == starts_with(name, b)) by {
            if b.len() <= name.len() {
                assert(t@.subrange(h as int, h + b.len()) =~= name.take(b.len() as int));
            }
        }
        if hit {
            assert(starts_with(name, blocked_prefixes()[i as int]));
            return true;
        }
    }
    false
}

/// The contents of a Firefox `user.js` or `prefs.js` without the lines that set
/// preferences TorShield manages. Only lines of the form `user_pref("<name>...` with a
/// managed name prefix are dropped; lines are split as `str::lines` splits them and
/// joined again with `\n`.
pub fn strip_prefs(content: &str) -> (r: String)
    ensures
        r@ == stripped(content@),
{
    let v = chars_of(content);
    let ls = lines_of(&v);
    let head = chars_of("user_pref(\"");
    let blocked = blocked_prefix_list();
    let mut kept: Vec<Vec<char>> = Vec::new();
    let n = ls.len();
    for i in 0..n
        invariant
            n == ls@.len(),
            head@ == pref_head(),
            views(blocked@) == blocked_prefixes(),
            views(kept@) == kept_lines(views(ls@).take(i as int)),
    {
        let ghost all = views(ls@);
        assert(all.take(i + 1).drop_last() =~= all.take(i as int));
        assert(all.take(i + 1).last() == ls@[i as int]@);
        if !is_managed_line(&ls[i], &head, &blocked) {
            let ghost before = views(kept@);
            kept.push(ls[i].clone());
            assert(views(kept@) =~= before.push(ls@[i as int]@));
        }
    }
    assert(views(ls@).take(n as int) =~= views(ls@));
    let sep = vec!['\n'];
    assert(sep@ =~= seq!['\n']);
    let joined = join_chars(&kept, &sep);
    string_of(&joined)
}

} // verus!

verus! {

/// `user_pref("<name>", <value>);`
pub open spec fn pref_line(name: Seq<char>, value: Seq<char>) -> Seq<char> {
    pref_head() + name + "\", "@ + value + ");"@
}

/// Preference lines, each followed by `\n`.
pub open spec fn pref_block(entries: Seq<(Seq<char>, Seq<char>)>) -> Seq<char>
    decreases entries.len(),
{
    if entries.len() == 0 {
        Seq::empty()
    } else {
        pref_block(entries.drop_last()) + pref_line(entries.last().0, entries.last().1) + seq!['\n']
    }
}

/// Name/value pairs held in vectors, as sequences.
pub open spec fn entry_views(v: Seq<(Vec<char>, Vec<char>)>) -> Seq<(Seq<char>, Seq<char>)> {
    v.map_values(|e: (Vec<char>, Vec<char>)| (e.0@, e.1@))
}

pub open spec fn bool_text(b: bool) -> Seq<char> {
    if b {
        "true"@
    } else {
        "false"@
    }
}

/// The preferences every hardened profile gets: SOCKS proxy with remote DNS, no WebRTC,
/// no geolocation, no battery API, no HTTP/3, no prefetching, no pings.
pub open spec fn base_prefs() -> Seq<(Seq<char>, Seq<char>)> {
    seq![
        ("network.proxy.type"@, "1"@),
        ("network.proxy.socks"@, "\"127.0.0.1\""@),
        ("network.proxy.socks_port"@, "9050"@),
        ("network.proxy.socks_version"@, "5"@),
        ("network.proxy.socks_remote_dns"@, "true"@),
        ("network.proxy.no_proxies_on"@, "\"localhost, 127.0.0.1\""@),
        ("media.peerconnection.enabled"@, "false"@),
        ("media.peerconnection.ice.no_host"@, "true"@),
        ("media.peerconnection.ice.default_address_only"@, "true"@),
        ("media.peerconnection.ice.proxy_only_if_behind_proxy"@, "true"@),
        ("geo.enabled"@, "false"@),
        ("geo.provider.use_corelocation"@, "false"@),
        ("permissions.default.geo"@, "2"@),
        ("dom.battery.enabled"@, "false"@),
        ("layout.css.prefers-color-scheme.content-override"@, "1"@),
        ("browser.startup.page"@, "3"@),
        ("network.http.http3.enabled"@, "false"@),
        ("network.http.http2.enabled"@, "true"@),
        ("network.dns.disablePrefetch"@, "true"@),
        ("network.dns.disablePrefetchFromHTTPS"@, "true"@),
        ("network.prefetch-next"@, "false"@),
        ("browser.send_pings"@, "false"@),
        ("media.navigator.enabled"@, "false"@),
    ]
}

/// Fingerprinting resistance on or off (Web Audio is its inverse).
pub open spec fn rfp_prefs(rfp: bool) -> Seq<(Seq<char>, Seq<char>)> {
    seq![
        ("privacy.resistFingerprinting"@, bool_text(rfp)),
        ("privacy.resistFingerprinting.spoofOsAsWindows"@, bool_text(rfp)),
        ("privacy.fingerprintingProtection"@, bool_text(rfp)),
        ("privacy.fingerprintingProtection.overrides"@, "\"+AllTargets\""@),
        ("dom.webaudio.enabled"@, bool_text(!rfp)),
    ]
}

/// The part of a version before its first `.`.
pub open spec fn major_part(ver: Seq<char>) -> Seq<char> {
    crate::text::split_on(ver, '.')[0]
}

/// The generic Windows Firefox User-Agent for version `ver`.
pub open spec fn ua_value(ver: Seq<char>) -> Seq<char> {
    "\"Mozilla/5.0 (Windows NT 10.0; Win64; x64; rv:"@ + major_part(ver) + ".0) Gecko/20100101 Firefox/"@
        + ver + "\""@
}

pub open spec fn ua_pref(ver: Seq<char>) -> (Seq<char>, Seq<char>) {
    ("general.useragent.override"@, ua_value(ver))
}

pub open spec fn lang_prefs() -> Seq<(Seq<char>, Seq<char>)> {
    seq![
        ("intl.accept_languages"@, "\"en-US, en\""@),
        ("javascript.use_us_english_locale"@, "true"@),
    ]
}

/// The preferences written into `user.js`.
pub open spec fn user_js_entries(ua: bool, lang: bool, rfp: bool, ver: Seq<char>) -> Seq<(Seq<char>, Seq<char>)> {
    base_prefs() + rfp_prefs(rfp) + (if ua && !rfp {
        seq![ua_pref(ver)]
    } else {
        seq![]
    }) + (if lang {
        lang_prefs()
    } else {
        seq![]
    })
}

/// The text appended to `user.js`: a marker comment, then the preferences.
pub open spec fn firefox_prefs_text(ua: bool, lang: bool, rfp: bool, ver: Seq<char>) -> Seq<char> {
    "\n// TorShield\n"@ + pref_block(user_js_entries(ua, lang, rfp, ver))
}

/// Appends `user_pref("<name>", <value>);\n`.
fn push_pref(out: &mut Vec<char>, name: &[char], value: &[char])
    ensures
        final(out)@ == old(out)@ + pref_line(name@, value@) + seq!['\n'],
{
    crate::text::append_chars(out, &chars_of("user_pref(\""));
    crate::text::append_chars(out, name);
    crate::text::append_chars(out, &chars_of("\", "));
    crate::text::append_chars(out, value);
    crate::text::append_chars(out, &chars_of(");"));
    out.push('\n');
    assert(final(out)@ =~= old(out)@ + pref_line(name@, value@) + seq!['\n']);
}

/// The preference block for the given entries.
fn pref_block_chars(entries: &Vec<(Vec<char>, Vec<char>)>) -> (r: Vec<char>)
    ensures
        r@ == pref_block(entry_views(entries@)),
{
    let mut out: Vec<char> = Vec::new();
    let n = entries.len();
    for i in 0..n
        invariant
            n == entries@.len(),
            out@ == pref_block(entry_views(entries@).take(i as int)),
    {
        let ghost e = entry_views(entries@);
        assert(e.take(i + 1).drop_last() =~= e.take(i as int));
        assert(e.take(i + 1).last() == e[i as int]);
        push_pref(&mut out, &entries[i].0, &entries[i].1);
    }
    assert(entry_views(entries@).take(n as int) =~= entry_views(entries@));
    out
}

fn entry(name: &str, value: &str) -> (e: (Vec<char>, Vec<char>))
    ensures
        e.0@ == name@,
        e.1@ == value@,
{
    (chars_of(name), chars_of(value))
}

fn bool_chars(b: bool) -> (r: Vec<char>)
    ensures
        r@ == bool_text(b),
{
    if b {
        chars_of("true")
    } else {
        chars_of("false")
    }
}

fn push_entry(v: &mut Vec<(Vec<char>, Vec<char>)>, e: (Vec<char>, Vec<char>))
    ensures
        entry_views(final(v)@) == entry_views(old(v)@).push((e.0@, e.1@)),
{
    v.push(e);
    assert(entry_views(final(v)@) =~= entry_views(old(v)@).push((e.0@, e.1@)));
}

fn push_base_prefs(v: &mut Vec<(Vec<char>, Vec<char>)>)
    ensures
        entry_views(final(v)@) == entry_views(old(v)@) + base_prefs(),
{
    let ghost start = entry_views(v@);
    push_entry(v, entry("network.proxy.type", "1"));
    push_entry(v, entry("network.proxy.socks", "\"127.0.0.1\""));
    push_entry(v, entry("network.proxy.socks_port", "9050"));
    push_entry(v, entry("network.proxy.socks_version", "5"));
    push_entry(v, entry("network.proxy.socks_remote_dns", "true"));
    push_entry(v, entry("network.proxy.no_proxies_on", "\"localhost, 127.0.0.1\""));
    push_entry(v, entry("media.peerconnection.enabled", "false"));
    push_entry(v, entry("media.peerconnection.ice.no_host", "true"));
    push_entry(v, entry("media.peerconnection.ice.default_address_only", "true"));
    push_entry(v, entry("media.peerconnection.ice.proxy_only_if_behind_proxy", "true"));
    push_entry(v, entry("geo.enabled", "false"));
    push_entry(v, entry("geo.provider.use_corelocation", "false"));
    push_entry(v, entry("permissions.default.geo", "2"));
    push_entry(v, entry("dom.battery.enabled", "false"));
    push_entry(v, entry("layout.css.prefers-color-scheme.content-override", "1"));
    push_entry(v, entry("browser.startup.page", "3"));
    push_entry(v, entry("network.http.http3.enabled", "false"));
    push_entry(v, entry("network.http.http2.enabled", "true"));
    push_entry(v, entry("network.dns.disablePrefetch", "true"));
    push_entry(v, entry("network.dns.disablePrefetchFromHTTPS", "true"));
    push_entry(v, entry("network.prefetch-next", "false"));
    push_entry(v, entry("browser.send_pings", "false"));
    push_entry(v, entry("media.navigator.enabled", "false"));
    assert(entry_views(v@) =~= start + base_prefs());
}

fn push_rfp_prefs(v: &mut Vec<(Vec<char>, Vec<char>)>, rfp: bool)
    ensures
        entry_views(final(v)@) == entry_views(old(v)@) + rfp_prefs(rfp),
{
    let ghost start = entry_views(v@);
    push_entry(v, (chars_of("privacy.resistFingerprinting"), bool_chars(rfp)));
    push_entry(v, (chars_of("privacy.resistFingerprinting.spoofOsAsWindows"), bool_chars(rfp)));
    push_entry(v, (chars_of("privacy.fingerprintingProtection"), bool_chars(rfp)));
    push_entry(v, entry("privacy.fingerprintingProtection.overrides", "\"+AllTargets\""));
    push_entry(v, (chars_of("dom.webaudio.enabled"), bool_chars(!rfp)));
    assert(entry_views(v@) =~= start + rfp_prefs(rfp));
}

/// The part of `ver` before its first `.`.
fn major_chars(ver: &[char]) -> (r: Vec<char>)
    ensures
        r@ == major_part(ver@),
{
    let pieces = crate::text::split_chars(ver, '.');
    proof {
        crate::text::lemma_split_on_nonempty(ver@, '.');
    }
    assert(pieces@[0]@ == views(pieces@)[0]);
    pieces[0].clone()
}

fn ua_entry(ver: &[char]) -> (e: (Vec<char>, Vec<char>))
    ensures
        e.0@ == ua_pref(ver@).0,
        e.1@ == ua_pref(ver@).1,
{
    let mut value = chars_of("\"Mozilla/5.0 (Windows NT 10.0; Win64; x64; rv:");
    crate::text::append_chars(&mut value, &major_chars(ver));
    crate::text::append_chars(&mut value, &chars_of(".0) Gecko/20100101 Firefox/"));
    crate::text::append_chars(&mut value, ver);
    crate::text::append_chars(&mut value, &chars_of("\""));
    (chars_of("general.useragent.override"), value)
}

/// What TorShield appends to a profile's `user.js`: the marker comment, the proxy
/// and leak settings, fingerprinting resistance on or off, a generic Windows
/// User-Agent for `version` when `ua` is set and fingerprinting resistance is off,
/// and an English locale when `lang` is set.
pub fn firefox_prefs(ua: bool, lang: bool, resist_fp: bool, version: &str) -> (r: String)
    ensures
        r@ == firefox_prefs_text(ua, lang, resist_fp, version@),
{
    let mut entries: Vec<(Vec<char>, Vec<char>)> = Vec::new();
    push_base_prefs(&mut entries);
    push_rfp_prefs(&mut entries, resist_fp);
    let ghost before_ua = entry_views(entries@);
    if ua && !resist_fp {
        push_entry(&mut entries, ua_entry(&chars_of(version)));
    }
    let ghost before_lang = entry_views(entries@);
    if lang {
        push_entry(&mut entries, entry("intl.accept_languages", "\"en-US, en\""));
        push_entry(&mut entries, entry("javascript.use_us_english_locale", "true"));
        assert(entry_views(entries@) =~= before_lang + lang_prefs());
    } else {
        assert(entry_views(entries@) =~= before_lang + Seq::<(Seq<char>, Seq<char>)>::empty());
    }
    assert(entry_views(entries@) =~= user_js_entries(ua, lang, resist_fp, version@));
    let mut out = chars_of("\n// TorShield\n");
    crate::text::append_chars(&mut out, &pref_block_chars(&entries));
    string_of(&out)
}

} // verus!

verus! {

pub open spec fn no_newline(s: Seq<char>) -> bool {
    forall|k: int| 0 <= k < s.len() ==> s[k] != '\n'
}

/// A preference TorShield may write: a managed name, and no line break in name or value.
pub open spec fn managed_entry(e: (Seq<char>, Seq<char>)) -> bool {
    has_blocked_prefix(e.0) && no_newline(e.0) && no_newline(e.1)
}

} // verus!

verus! {

/// Every character of every piece of a split is a character of the text.
pub proof fn lemma_split_on_no_char(s: Seq<char>, sep: char, c: char)
    requires
        forall|k: int| 0 <= k < s.len() ==> s[k] != c,
    ensures
        forall|i: int, j: int|
            0 <= i < crate::text::split_on(s, sep).len() && 0 <= j < crate::text::split_on(s, sep)[i].len()
                ==> crate::text::split_on(s, sep)[i][j] != c,
    decreases s.len(),
{
    crate::text::lemma_split_on_nonempty(s, sep);
    if s.len() > 0 {
        lemma_split_on_no_char(s.drop_last(), sep, c);
        crate::text::lemma_split_on_nonempty(s.drop_last(), sep);
        let p = crate::text::split_on(s.drop_last(), sep);
        assert forall|i: int, j: int|
            0 <= i < crate::text::split_on(s, sep).len() && 0 <= j < crate::text::split_on(s, sep)[i].len()
            implies crate::text::split_on(s, sep)[i][j] != c by {
            if s.last() != sep && i == p.len() - 1 {
                if j < p.last().len() {
                    assert(crate::text::split_on(s, sep)[i][j] == p[i][j]);
                } else {
                    assert(crate::text::split_on(s, sep)[i][j] == s.last());
                }
            } else {
                if i < p.len() {
                    assert(crate::text::split_on(s, sep)[i] == p[i]);
                }
            }
        }
    }
}

proof fn lemma_bool_text(b: bool)
    ensures
        no_newline(bool_text(b)),
{
    reveal_strlit("true");
    reveal_strlit("false");
}

proof fn lemma_no_newline_concat(a: Seq<char>, b: Seq<char>)
    requires
        no_newline(a),
        no_newline(b),
    ensures
        no_newline(a + b),
{
    assert forall|k: int| 0 <= k < (a + b).len() implies (a + b)[k] != '\n' by {
        if k < a.len() {
            assert((a + b)[k] == a[k]);
        } else {
            assert((a + b)[k] == b[k - a.len()]);
        }
    }
}

/// Every preference of the base set is a managed one.
pub proof fn lemma_base_prefs_managed()
    ensures
        forall|i: int| 0 <= i < base_prefs().len() ==> managed_entry(#[trigger] base_prefs()[i]),
{
    assert(managed_entry(base_prefs()[0])) by {
        reveal_strlit("network.proxy.type");
        reveal_strlit("network.proxy");
        assert(("network.proxy.type"@).take(13) =~= "network.proxy"@);
        assert(blocked_prefixes()[1] == "network.proxy"@);
        assert(has_blocked_prefix("network.proxy.type"@));
        reveal_strlit("1");
    }
    assert(managed_entry(base_prefs()[1])) by {
        reveal_strlit("network.proxy.socks");
        reveal_strlit("network.proxy");
        assert(("network.proxy.socks"@).take(13) =~= "network.proxy"@);
        assert(blocked_prefixes()[1] == "network.proxy"@);
        assert(has_blocked_prefix("network.proxy.socks"@));
        reveal_strlit("\"127.0.0.1\"");
    }
    assert(managed_entry(base_prefs()[2])) by {
        reveal_strlit("network.proxy.socks_port");
        reveal_strlit("network.proxy");
        assert(("network.proxy.socks_port"@).take(13) =~= "network.proxy"@);
        assert(blocked_prefixes()[1] == "network.proxy"@);
        assert(has_blocked_prefix("network.proxy.socks_port"@));
        reveal_strlit("9050");
    }
    assert(managed_entry(base_prefs()[3])) by {
        reveal_strlit("network.proxy.socks_version");
        reveal_strlit("network.proxy");
        assert(("network.proxy.socks_version"@).take(13) =~= "network.proxy"@);
        assert(blocked_prefixes()[1] == "network.proxy"@);
        assert(has_blocked_prefix("network.proxy.socks_version"@));
        reveal_strlit("5");
    }
    assert(managed_entry(base_prefs()[4])) by {
        reveal_strlit("network.proxy.socks_remote_dns");
        reveal_strlit("network.proxy");
        assert(("network.proxy.socks_remote_dns"@).take(13) =~= "network.proxy"@);
        assert(blocked_prefixes()[1] == "network.proxy"@);
        assert(has_blocked_prefix("network.proxy.socks_remote_dns"@));
        reveal_strlit("true");
    }
    assert(managed_entry(base_prefs()[5])) by {
        reveal_strlit("network.proxy.no_proxies_on");
        reveal_strlit("network.proxy");
        assert(("network.proxy.no_proxies_on"@).take(13) =~= "network.proxy"@);
        assert(blocked_prefixes()[1] == "network.proxy"@);
        assert(has_blocked_prefix("network.proxy.no_proxies_on"@));
        reveal_strlit("\"localhost, 127.0.0.1\"");
    }
    assert(managed_entry(base_prefs()[6])) by {
        reveal_strlit("media.peerconnection.enabled");
        reveal_strlit("media.peerconnection");
        assert(("media.peerconnection.enabled"@).take(20) =~= "media.peerconnection"@);
        assert(blocked_prefixes()[2] == "media.peerconnection"@);
        assert(has_blocked_prefix("media.peerconnection.enabled"@));
        reveal_strlit("false");
    }
    assert(managed_entry(base_prefs()[7])) by {
        reveal_strlit("media.peerconnection.ice.no_host");
        reveal_strlit("media.peerconnection");
        assert(("media.peerconnection.ice.no_host"@).take(20) =~= "media.peerconnection"@);
        assert(blocked_prefixes()[2] == "media.peerconnection"@);
        assert(has_blocked_prefix("media.peerconnection.ice.no_host"@));
        reveal_strlit("true");
    }
    assert(managed_entry(base_prefs()[8])) by {
        reveal_strlit("media.peerconnection.ice.default_address_only");
        reveal_strlit("media.peerconnection");
        assert(("media.peerconnection.ice.default_address_only"@).take(20) =~= "media.peerconnection"@);
        assert(blocked_prefixes()[2] == "media.peerconnection"@);
        assert(has_blocked_prefix("media.peerconnection.ice.default_address_only"@));
        reveal_strlit("true");
    }
    assert(managed_entry(base_prefs()[9])) by {
        reveal_strlit("media.peerconnection.ice.proxy_only_if_behind_proxy");
        reveal_strlit("media.peerconnection");
        assert(("media.peerconnection.ice.proxy_only_if_behind_proxy"@).take(20) =~= "media.peerconnection"@);
        assert(blocked_prefixes()[2] == "media.peerconnection"@);
        assert(has_blocked_prefix("media.peerconnection.ice.proxy_only_if_behind_proxy"@));
        reveal_strlit("true");
    }
    assert(managed_entry(base_prefs()[10])) by {
        reveal_strlit("geo.enabled");
        reveal_strlit("geo.");
        assert(("geo.enabled"@).take(4) =~= "geo."@);
        assert(blocked_prefixes()[3] == "geo."@);
        assert(has_blocked_prefix("geo.enabled"@));
        reveal_strlit("false");
    }
    assert(managed_entry(base_prefs()[11])) by {
        reveal_strlit("geo.provider.use_corelocation");
        reveal_strlit("geo.");
        assert(("geo.provider.use_corelocation"@).take(4) =~= "geo."@);
        assert(blocked_prefixes()[3] == "geo."@);
        assert(has_blocked_prefix("geo.provider.use_corelocation"@));
        reveal_strlit("false");
    }
    assert(managed_entry(base_prefs()[12])) by {
        reveal_strlit("permissions.default.geo");
        reveal_strlit("permissions.default.geo");
        assert(("permissions.default.geo"@).take(23) =~= "permissions.default.geo"@);
        assert(blocked_prefixes()[4] == "permissions.default.geo"@);
        assert(has_blocked_prefix("permissions.default.geo"@));
        reveal_strlit("2");
    }
    assert(managed_entry(base_prefs()[13])) by {
        reveal_strlit("dom.battery.enabled");
        reveal_strlit("dom.battery");
        assert(("dom.battery.enabled"@).take(11) =~= "dom.battery"@);
        assert(blocked_prefixes()[5] == "dom.battery"@);
        assert(has_blocked_prefix("dom.battery.enabled"@));
        reveal_strlit("false");
    }
    assert(managed_entry(base_prefs()[14])) by {
        reveal_strlit("layout.css.prefers-color-scheme.content-override");
        reveal_strlit("layout.css.prefers");
        assert(("layout.css.prefers-color-scheme.content-override"@).take(18) =~= "layout.css.prefers"@);
        assert(blocked_prefixes()[6] == "layout.css.prefers"@);
        assert(has_blocked_prefix("layout.css.prefers-color-scheme.content-override"@));
        reveal_strlit("1");
    }
    assert(managed_entry(base_prefs()[15])) by {
        reveal_strlit("browser.startup.page");
        reveal_strlit("browser.startup.page");
        assert(("browser.startup.page"@).take(20) =~= "browser.startup.page"@);
        assert(blocked_prefixes()[20] == "browser.startup.page"@);
        assert(has_blocked_prefix("browser.startup.page"@));
        reveal_strlit("3");
    }
    assert(managed_entry(base_prefs()[16])) by {
        reveal_strlit("network.http.http3.enabled");
        reveal_strlit("network.http.http3");
        assert(("network.http.http3.enabled"@).take(18) =~= "network.http.http3"@);
        assert(blocked_prefixes()[14] == "network.http.http3"@);
        assert(has_blocked_prefix("network.http.http3.enabled"@));
        reveal_strlit("false");
    }
    assert(managed_entry(base_prefs()[17])) by {
        reveal_strlit("network.http.http2.enabled");
        reveal_strlit("network.http.http2.enabled");
        assert(("network.http.http2.enabled"@).take(26) =~= "network.http.http2.enabled"@);
        assert(blocked_prefixes()[15] == "network.http.http2.enabled"@);
        assert(has_blocked_prefix("network.http.http2.enabled"@));
        reveal_strlit("true");
    }
    assert(managed_entry(base_prefs()[18])) by {
        reveal_strlit("network.dns.disablePrefetch");
        reveal_strlit("network.dns.disablePrefetch");
        assert(("network.dns.disablePrefetch"@).take(27) =~= "network.dns.disablePrefetch"@);
        assert(blocked_prefixes()[16] == "network.dns.disablePrefetch"@);
        assert(has_blocked_prefix("network.dns.disablePrefetch"@));
        reveal_strlit("true");
    }
    assert(managed_entry(base_prefs()[19])) by {
        reveal_strlit("network.dns.disablePrefetchFromHTTPS");
        reveal_strlit("network.dns.disablePrefetch");
        assert(("network.dns.disablePrefetchFromHTTPS"@).take(27) =~= "network.dns.disablePrefetch"@);
        assert(blocked_prefixes()[16] == "network.dns.disablePrefetch"@);
        assert(has_blocked_prefix("network.dns.disablePrefetchFromHTTPS"@));
        reveal_strlit("true");
    }
    assert(managed_entry(base_prefs()[20])) by {
        reveal_strlit("network.prefetch-next");
        reveal_strlit("network.prefetch-next");
        assert(("network.prefetch-next"@).take(21) =~= "network.prefetch-next"@);
        assert(blocked_prefixes()[17] == "network.prefetch-next"@);
        assert(has_blocked_prefix("network.prefetch-next"@));
        reveal_strlit("false");
    }
    assert(managed_entry(base_prefs()[21])) by {
        reveal_strlit("browser.send_pings");
        reveal_strlit("browser.send_pings");
        assert(("browser.send_pings"@).take(18) =~= "browser.send_pings"@);
        assert(blocked_prefixes()[18] == "browser.send_pings"@);
        assert(has_blocked_prefix("browser.send_pings"@));
        reveal_strlit("false");
    }
    assert(managed_entry(base_prefs()[22])) by {
        reveal_strlit("media.navigator.enabled");
        reveal_strlit("media.navigator.enabled");
        assert(("media.navigator.enabled"@).take(23) =~= "media.navigator.enabled"@);
        assert(blocked_prefixes()[19] == "media.navigator.enabled"@);
        assert(has_blocked_prefix("media.navigator.enabled"@));
        reveal_strlit("false");
    }
}

/// Every fingerprinting preference is a managed one.
pub proof fn lemma_rfp_prefs_managed(rfp: bool)
    ensures
        forall|i: int| 0 <= i < rfp_prefs(rfp).len() ==> managed_entry(#[trigger] rfp_prefs(rfp)[i]),
{
    lemma_bool_text(rfp);
    lemma_bool_text(!rfp);
    assert(managed_entry(rfp_prefs(rfp)[0])) by {
        reveal_strlit("privacy.resistFingerprinting");
        reveal_strlit("privacy.resistFingerprinting");
        assert(("privacy.resistFingerprinting"@).take(28) =~= "privacy.resistFingerprinting"@);
        assert(blocked_prefixes()[7] == "privacy.resistFingerprinting"@);
        assert(has_blocked_prefix("privacy.resistFingerprinting"@));
    }
    assert(managed_entry(rfp_prefs(rfp)[1])) by {
        reveal_strlit("privacy.resistFingerprinting.spoofOsAsWindows");
        reveal_strlit("privacy.resistFingerprinting");
        assert(("privacy.resistFingerprinting.spoofOsAsWindows"@).take(28) =~= "privacy.resistFingerprinting"@);
        assert(blocked_prefixes()[7] == "privacy.resistFingerprinting"@);
        assert(has_blocked_prefix("privacy.resistFingerprinting.spoofOsAsWindows"@));
    }
    assert(managed_entry(rfp_prefs(rfp)[2])) by {
        reveal_strlit("privacy.fingerprintingProtection");
        reveal_strlit("privacy.fingerprintingProtection");
        assert(("privacy.fingerprintingProtection"@).take(32) =~= "privacy.fingerprintingProtection"@);
        assert(blocked_prefixes()[8] == "privacy.fingerprintingProtection"@);
        assert(has_blocked_prefix("privacy.fingerprintingProtection"@));
    }
    assert(managed_entry(rfp_prefs(rfp)[3])) by {
        reveal_strlit("privacy.fingerprintingProtection.overrides");
        reveal_strlit("privacy.fingerprintingProtection");
        assert(("privacy.fingerprintingProtection.overrides"@).take(32) =~= "privacy.fingerprintingProtection"@);
        assert(blocked_prefixes()[8] == "privacy.fingerprintingProtection"@);
        assert(has_blocked_prefix("privacy.fingerprintingProtection.overrides"@));
        reveal_strlit("\"+AllTargets\"");
    }
    assert(managed_entry(rfp_prefs(rfp)[4])) by {
        reveal_strlit("dom.webaudio.enabled");
        reveal_strlit("dom.webaudio.enabled");
        assert(("dom.webaudio.enabled"@).take(20) =~= "dom.webaudio.enabled"@);
        assert(blocked_prefixes()[9] == "dom.webaudio.enabled"@);
        assert(has_blocked_prefix("dom.webaudio.enabled"@));
    }
}

/// The locale preferences are managed ones.
pub proof fn lemma_lang_prefs_managed()
    ensures
        forall|i: int| 0 <= i < lang_prefs().len() ==> managed_entry(#[trigger] lang_prefs()[i]),
{
    assert(managed_entry(lang_prefs()[0])) by {
        reveal_strlit("intl.accept_languages");
        reveal_strlit("intl.accept_languages");
        assert(("intl.accept_languages"@).take(21) =~= "intl.accept_languages"@);
        assert(blocked_prefixes()[11] == "intl.accept_languages"@);
        assert(has_blocked_prefix("intl.accept_languages"@));
        reveal_strlit("\"en-US, en\"");
    }
    assert(managed_entry(lang_prefs()[1])) by {
        reveal_strlit("javascript.use_us_english_locale");
        reveal_strlit("javascript.use_us_english_locale");
        assert(("javascript.use_us_english_locale"@).take(32) =~= "javascript.use_us_english_locale"@);
        assert(blocked_prefixes()[12] == "javascript.use_us_english_locale"@);
        assert(has_blocked_prefix("javascript.use_us_english_locale"@));
        reveal_strlit("true");
    }
}

/// The User-Agent preference is managed, for a version without line breaks.
pub proof fn lemma_ua_pref_managed(ver: Seq<char>)
    requires
        no_newline(ver),
    ensures
        managed_entry(ua_pref(ver)),
{
        reveal_strlit("general.useragent.override");
        reveal_strlit("general.useragent.override");
        assert(("general.useragent.override"@).take(26) =~= "general.useragent.override"@);
        assert(blocked_prefixes()[10] == "general.useragent.override"@);
        assert(has_blocked_prefix("general.useragent.override"@));
    reveal_strlit("\"Mozilla/5.0 (Windows NT 10.0; Win64; x64; rv:");
    reveal_strlit(".0) Gecko/20100101 Firefox/");
    reveal_strlit("\"");
    lemma_split_on_no_char(ver, '.', '\n');
    crate::text::lemma_split_on_nonempty(ver, '.');
    let m = major_part(ver);
    assert(no_newline(m)) by {
        assert forall|k: int| 0 <= k < m.len() implies m[k] != '\n' by {
            assert(crate::text::split_on(ver, '.')[0][k] != '\n');
        }
    }
    lemma_no_newline_concat("\"Mozilla/5.0 (Windows NT 10.0; Win64; x64; rv:"@, m);
    lemma_no_newline_concat("\"Mozilla/5.0 (Windows NT 10.0; Win64; x64; rv:"@ + m, ".0) Gecko/20100101 Firefox/"@);
    lemma_no_newline_concat("\"Mozilla/5.0 (Windows NT 10.0; Win64; x64; rv:"@ + m + ".0) Gecko/20100101 Firefox/"@, ver);
    lemma_no_newline_concat("\"Mozilla/5.0 (Windows NT 10.0; Win64; x64; rv:"@ + m + ".0) Gecko/20100101 Firefox/"@ + ver, "\""@);
}

} // verus!

verus! {

/// A preference line with a managed name is a managed line, one line long.
pub proof fn lemma_pref_line_managed(e: (Seq<char>, Seq<char>))
    requires
        managed_entry(e),
    ensures
        no_newline(pref_line(e.0, e.1)),
        crate::text::strip_cr(pref_line(e.0, e.1)) == pref_line(e.0, e.1),
        is_managed(pref_line(e.0, e.1)),
{
    reveal_strlit("user_pref(\"");
    reveal_strlit("\", ");
    reveal_strlit(");");
    let l = pref_line(e.0, e.1);
    lemma_no_newline_concat(pref_head(), e.0);
    lemma_no_newline_concat(pref_head() + e.0, "\", "@);
    lemma_no_newline_concat(pref_head() + e.0 + "\", "@, e.1);
    lemma_no_newline_concat(pref_head() + e.0 + "\", "@ + e.1, ");"@);
    assert(l.last() == ';');
    assert(l[0] == 'u');
    assert(trim_start(l) == l);
    assert(l.take(11) =~= pref_head());
    let rest = l.skip(11);
    assert(rest =~= e.0 + ("\", "@ + e.1 + ");"@));
    let i = choose|i: int| 0 <= i < blocked_prefixes().len() && starts_with(e.0, #[trigger] blocked_prefixes()[i]);
    let b = blocked_prefixes()[i];
    assert(rest.take(b.len() as int) =~= e.0.take(b.len() as int));
    assert(starts_with(rest, b));
}

/// Keeping lines distributes over concatenation.
pub proof fn lemma_kept_concat(a: Seq<Seq<char>>, b: Seq<Seq<char>>)
    ensures
        kept_lines(a + b) == kept_lines(a) + kept_lines(b),
    decreases b.len(),
{
    if b.len() == 0 {
        assert(a + b =~= a);
        assert(kept_lines(a) + kept_lines(b) =~= kept_lines(a));
    } else {
        lemma_kept_concat(a, b.drop_last());
        assert((a + b).drop_last() =~= a + b.drop_last());
        assert((a + b).last() == b.last());
        if is_managed(b.last()) {
        } else {
            assert(kept_lines(a) + kept_lines(b.drop_last()).push(b.last()) =~= (kept_lines(a)
                + kept_lines(b.drop_last())).push(b.last()));
        }
    }
}

/// A block of managed preferences consists of managed lines only, and ends with a
/// line break unless it is empty.
pub proof fn lemma_pref_block_managed(es: Seq<(Seq<char>, Seq<char>)>)
    requires
        forall|i: int| 0 <= i < es.len() ==> managed_entry(#[trigger] es[i]),
    ensures
        kept_lines(lines(pref_block(es))) == Seq::<Seq<char>>::empty(),
        es.len() > 0 ==> pref_block(es).len() > 0 && pref_block(es).last() == '\n',
        es.len() == 0 ==> pref_block(es) == Seq::<char>::empty(),
    decreases es.len(),
{
    if es.len() == 0 {
        crate::text::lemma_lines_empty();
    } else {
        let init = es.drop_last();
        assert forall|i: int| 0 <= i < init.len() implies managed_entry(#[trigger] init[i]) by {
            assert(init[i] == es[i]);
        }
        lemma_pref_block_managed(init);
        let e = es.last();
        assert(managed_entry(es[es.len() - 1]));
        lemma_pref_line_managed(e);
        let l = pref_line(e.0, e.1);
        crate::text::lemma_lines_one(l);
        let b = pref_block(init);
        if init.len() == 0 {
            assert(pref_block(es) =~= l + seq!['\n']);
        } else {
            let bx = b.drop_last();
            assert(b =~= bx + seq!['\n']);
            assert(pref_block(es) =~= bx + seq!['\n'] + (l + seq!['\n']));
            crate::text::lemma_lines_concat(bx, l + seq!['\n']);
            lemma_kept_concat(lines(b), seq![l]);
        }
        assert(kept_lines(seq![l]) =~= Seq::<Seq<char>>::empty()) by {
            assert(seq![l].drop_last() =~= Seq::<Seq<char>>::empty());
            assert(kept_lines(seq![l].drop_last()) =~= Seq::<Seq<char>>::empty());
            assert(seq![l].last() == l);
            assert(is_managed(seq![l].last()));
        }
    }
}

/// Whatever TorShield appends after a line break is removed again by stripping: the
/// result is the same as stripping the text before them with just the line break.
pub proof fn lemma_strip_removes_appended(x: Seq<char>, es: Seq<(Seq<char>, Seq<char>)>)
    requires
        forall|i: int| 0 <= i < es.len() ==> managed_entry(#[trigger] es[i]),
    ensures
        stripped(x + seq!['\n'] + pref_block(es)) == stripped(x + seq!['\n']),
{
    lemma_pref_block_managed(es);
    crate::text::lemma_lines_concat(x, pref_block(es));
    lemma_kept_concat(lines(x + seq!['\n']), lines(pref_block(es)));
    assert(kept_lines(lines(x + seq!['\n'])) + Seq::<Seq<char>>::empty() =~= kept_lines(lines(x
        + seq!['\n'])));
}

/// All preferences written into `user.js` are managed ones.
pub proof fn lemma_user_js_entries_managed(ua: bool, lang: bool, rfp: bool, ver: Seq<char>)
    requires
        no_newline(ver),
    ensures
        forall|i: int| 0 <= i < user_js_entries(ua, lang, rfp, ver).len() ==> managed_entry(
            #[trigger] user_js_entries(ua, lang, rfp, ver)[i],
        ),
{
    lemma_base_prefs_managed();
    lemma_rfp_prefs_managed(rfp);
    lemma_lang_prefs_managed();
    lemma_ua_pref_managed(ver);
    let es = user_js_entries(ua, lang, rfp, ver);
    let a = base_prefs();
    let b = rfp_prefs(rfp);
    let c: Seq<(Seq<char>, Seq<char>)> = if ua && !rfp { seq![ua_pref(ver)] } else { seq![] };
    let d: Seq<(Seq<char>, Seq<char>)> = if lang { lang_prefs() } else { seq![] };
    assert forall|i: int| 0 <= i < es.len() implies managed_entry(#[trigger] es[i]) by {
        if i < a.len() {
            assert(es[i] == a[i]);
        } else if i < a.len() + b.len() {
            assert(es[i] == b[i - a.len()]);
        } else if i < a.len() + b.len() + c.len() {
            assert(es[i] == c[i - a.len() - b.len()]);
        } else {
            assert(es[i] == d[i - a.len() - b.len() - c.len()]);
        }
    }
}

/// Stripping the block TorShield appends to `user.js` leaves only its marker comment:
/// every preference line it holds is a managed one.
pub proof fn lemma_firefox_prefs_stripped(ua: bool, lang: bool, rfp: bool, ver: Seq<char>)
    requires
        no_newline(ver),
    ensures
        stripped(firefox_prefs_text(ua, lang, rfp, ver)) == "\n// TorShield"@,
{
    reveal_strlit("\n// TorShield\n");
    reveal_strlit("\n// TorShield");
    reveal_strlit("// TorShield");
    reveal_strlit("user_pref(\"");
    let es = user_js_entries(ua, lang, rfp, ver);
    lemma_user_js_entries_managed(ua, lang, rfp, ver);
    let c = "// TorShield"@;
    let x = seq!['\n'] + c;
    assert(firefox_prefs_text(ua, lang, rfp, ver) =~= x + seq!['\n'] + pref_block(es));
    lemma_strip_removes_appended(x, es);
    assert(x + seq!['\n'] =~= Seq::<char>::empty() + seq!['\n'] + (c + seq!['\n']));
    crate::text::lemma_lines_concat(Seq::<char>::empty(), c + seq!['\n']);
    crate::text::lemma_lines_one(Seq::<char>::empty());
    assert(forall|k: int| 0 <= k < c.len() ==> c[k] != '\n');
    crate::text::lemma_lines_one(c);
    assert(Seq::<char>::empty() + seq!['\n'] =~= seq!['\n']);
    let ls = seq![Seq::<char>::empty(), c];
    assert(lines(x + seq!['\n']) =~= ls);
    assert(!is_managed(Seq::<char>::empty()));
    assert(trim_start(c) == c);
    assert(!is_managed(c)) by {
        assert(c[0] != pref_head()[0]);
        assert(c.take(11)[0] != pref_head()[0]);
    }
    let one = seq![Seq::<char>::empty()];
    assert(ls.drop_last() =~= one);
    assert(one.drop_last() =~= Seq::<Seq<char>>::empty());
    assert(kept_lines(one.drop_last()) =~= Seq::<Seq<char>>::empty());
    assert(kept_lines(one) =~= one);
    assert(kept_lines(ls) =~= ls);
    assert(crate::text::join(one, seq!['\n']) =~= Seq::<char>::empty());
    assert(crate::text::join(ls, seq!['\n']) =~= "\n// TorShield"@);
}

} // verus!

verus! {

/// The first two `.`-separated parts of a version text (`split('.').take(2)` joined by `.`).
pub open spec fn major_minor(s: Seq<char>) -> Seq<char> {
    let p = crate::text::split_on(s, '.');
    if p.len() >= 2 {
        p[0] + seq!['.'] + p[1]
    } else {
        p[0]
    }
}

/// The version number in a version command's output: its last word
/// (`Mozilla Firefox 128.3.1` gives `128.3.1`), empty when there is none.
pub open spec fn version_token(output: Seq<char>) -> Seq<char> {
    let w = crate::text::words(output);
    if w.len() == 0 {
        Seq::empty()
    } else {
        w.last()
    }
}

/// The Firefox version to claim, from the output of `firefox --version` (or of
/// reading `CFBundleShortVersionString`): the first two `.`-separated parts of the
/// version number, or `128.0` when there is none.
pub open spec fn firefox_version_text(output: Seq<char>) -> Seq<char> {
    let mm = major_minor(version_token(output));
    if mm.len() == 0 {
        "128.0"@
    } else {
        mm
    }
}

/// The version to put in the spoofed User-Agent, from the version command's output
/// (empty when no command gave any).
pub fn firefox_version(output: &str) -> (r: String)
    ensures
        r@ == firefox_version_text(output@),
{
    let ws = crate::text::words_of(&chars_of(output));
    let t: Vec<char> = if ws.len() == 0 {
        Vec::new()
    } else {
        assert(views(ws@).last() == ws@[ws.len() - 1]@);
        ws[ws.len() - 1].clone()
    };
    assert(t@ == version_token(output@));
    let pieces = crate::text::split_chars(&t, '.');
    proof {
        crate::text::lemma_split_on_nonempty(t@, '.');
    }
    let ghost p = views(pieces@);
    assert(pieces@[0]@ == p[0]);
    let mut mm = pieces[0].clone();
    if pieces.len() >= 2 {
        assert(pieces@[1]@ == p[1]);
        mm.push('.');
        crate::text::append_chars(&mut mm, &pieces[1]);
        assert(mm@ =~= p[0] + seq!['.'] + p[1]);
    }
    if mm.len() == 0 {
        crate::text::owned("128.0")
    } else {
        string_of(&mm)
    }
}

pub open spec fn color_pref(v: Seq<char>) -> (Seq<char>, Seq<char>) {
    ("layout.css.prefers-color-scheme.content-override"@, v)
}

pub open spec fn accept_language_pref() -> (Seq<char>, Seq<char>) {
    ("intl.accept_languages"@, "\"en-US, en\""@)
}

/// What enabling adds to `prefs.js`: light colour scheme override, fingerprinting
/// resistance, the User-Agent when spoofing is on, the language when forcing English.
pub open spec fn prefs_js_entries(ua: bool, lang: bool, rfp: bool, ver: Seq<char>) -> Seq<(Seq<char>, Seq<char>)> {
    seq![color_pref("1"@), ("privacy.resistFingerprinting"@, bool_text(rfp))] + (if ua {
        seq![ua_pref(ver)]
    } else {
        seq![]
    }) + (if lang {
        seq![accept_language_pref()]
    } else {
        seq![]
    })
}

/// `user.js` once hardened: its unmanaged lines, then TorShield's block.
pub open spec fn user_js_enabled_text(current: Seq<char>, c: crate::config::Config, ver: Seq<char>) -> Seq<char> {
    stripped(current) + firefox_prefs_text(c.ua_spoof, c.lang_spoof, c.resist_fp, ver)
}

/// `prefs.js` once hardened.
pub open spec fn prefs_js_enabled_text(current: Seq<char>, c: crate::config::Config, ver: Seq<char>) -> Seq<char> {
    stripped(current) + seq!['\n'] + pref_block(prefs_js_entries(c.ua_spoof, c.lang_spoof, c.resist_fp, ver))
}

fn entries_block_after(base: &[char], entries: &Vec<(Vec<char>, Vec<char>)>) -> (r: String)
    ensures
        r@ == base@ + seq!['\n'] + pref_block(entry_views(entries@)),
{
    let mut out: Vec<char> = Vec::new();
    crate::text::append_chars(&mut out, base);
    out.push('\n');
    crate::text::append_chars(&mut out, &pref_block_chars(entries));
    assert(out@ =~= base@ + seq!['\n'] + pref_block(entry_views(entries@)));
    string_of(&out)
}

/// The new `user.js` of a profile being hardened, from its current contents (empty
/// when it does not exist) and the version for the User-Agent.
pub fn user_js_enabled(current: &str, cfg: &crate::config::Config, version: &str) -> (r: String)
    ensures
        r@ == user_js_enabled_text(current@, *cfg, version@),
{
    let mut base = strip_prefs(current);
    let block = firefox_prefs(cfg.ua_spoof, cfg.lang_spoof, cfg.resist_fp, version);
    base.append(block.as_str());
    base
}

/// The new `prefs.js` of a profile being hardened.
pub fn prefs_js_enabled(current: &str, cfg: &crate::config::Config, version: &str) -> (r: String)
    ensures
        r@ == prefs_js_enabled_text(current@, *cfg, version@),
{
    let base = chars_of(strip_prefs(current).as_str());
    let mut entries: Vec<(Vec<char>, Vec<char>)> = Vec::new();
    push_entry(&mut entries, entry("layout.css.prefers-color-scheme.content-override", "1"));
    push_entry(&mut entries, (chars_of("privacy.resistFingerprinting"), bool_chars(cfg.resist_fp)));
    if cfg.ua_spoof {
        push_entry(&mut entries, ua_entry(&chars_of(version)));
    }
    if cfg.lang_spoof {
        push_entry(&mut entries, entry("intl.accept_languages", "\"en-US, en\""));
    }
    assert(entry_views(entries@) =~= prefs_js_entries(cfg.ua_spoof, cfg.lang_spoof, cfg.resist_fp, version@));
    entries_block_after(&base, &entries)
}

} // verus!

verus! {

proof fn lemma_small_prefs_managed(rfp: bool)
    ensures
        managed_entry(color_pref("1"@)),
        managed_entry(("privacy.resistFingerprinting"@, bool_text(rfp))),
        managed_entry(accept_language_pref()),
{
    lemma_rfp_prefs_managed(rfp);
    assert(managed_entry(rfp_prefs(rfp)[0]));
    lemma_rfp_prefs_managed(false);
    assert(managed_entry(rfp_prefs(false)[0]));
    lemma_base_prefs_managed();
    assert(managed_entry(base_prefs()[14]));
    reveal_strlit("1");
    reveal_strlit("2");
    reveal_strlit("false");
    lemma_lang_prefs_managed();
    assert(managed_entry(lang_prefs()[0]));
}

/// Stripping a hardened `prefs.js` removes everything that hardening added to it: it
/// gives what stripping the unhardened stripped file gives.
pub proof fn lemma_prefs_js_round_trip(current: Seq<char>, c: crate::config::Config, ver: Seq<char>)
    requires
        no_newline(ver),
    ensures
        stripped(prefs_js_enabled_text(current, c, ver)) == stripped(stripped(current) + seq!['\n']),
{
    lemma_small_prefs_managed(c.resist_fp);
    lemma_ua_pref_managed(ver);
    let es = prefs_js_entries(c.ua_spoof, c.lang_spoof, c.resist_fp, ver);
    assert forall|i: int| 0 <= i < es.len() implies managed_entry(#[trigger] es[i]) by {
        if i == 0 {
        } else if i == 1 {
        } else if c.ua_spoof && i == 2 {
        } else {
            assert(es[i] == accept_language_pref());
        }
    }
    lemma_strip_removes_appended(stripped(current), es);
}

/// Stripping a hardened `user.js` leaves its unmanaged lines and TorShield's marker only.
pub proof fn lemma_user_js_enabled_stripped(current: Seq<char>, c: crate::config::Config, ver: Seq<char>)
    requires
        no_newline(ver),
    ensures
        stripped(user_js_enabled_text(current, c, ver)) == stripped(stripped(current) + "\n// TorShield\n"@),
{
    reveal_strlit("\n// TorShield\n");
    let es = user_js_entries(c.ua_spoof, c.lang_spoof, c.resist_fp, ver);
    lemma_user_js_entries_managed(c.ua_spoof, c.lang_spoof, c.resist_fp, ver);
    let x = stripped(current) + "\n// TorShield\n"@.drop_last();
    assert(user_js_enabled_text(current, c, ver) =~= x + seq!['\n'] + pref_block(es));
    assert(stripped(current) + "\n// TorShield\n"@ =~= x + seq!['\n']);
    lemma_strip_removes_appended(x, es);
}

} // verus!

verus! {

/// A profile's preference files and their backups as found on disk (`None` when absent).
#[derive(Debug)]
pub struct ProfileFiles {
    pub user_js: Option<String>,
    pub user_backup: Option<String>,
    pub prefs_js: Option<String>,
    pub prefs_backup: Option<String>,
}

/// The same, as texts.
pub struct ProfileFilesView {
    pub user_js: Option<Seq<char>>,
    pub user_backup: Option<Seq<char>>,
    pub prefs_js: Option<Seq<char>>,
    pub prefs_backup: Option<Seq<char>>,
}

pub open spec fn opt_text(o: Option<String>) -> Option<Seq<char>> {
    match o {
        Some(s) => Some(s@),
        None => None,
    }
}

pub open spec fn files_view(f: ProfileFiles) -> ProfileFilesView {
    ProfileFilesView {
        user_js: opt_text(f.user_js),
        user_backup: opt_text(f.user_backup),
        prefs_js: opt_text(f.prefs_js),
        prefs_backup: opt_text(f.prefs_backup),
    }
}

pub open spec fn user_js_path(dir: Seq<char>) -> Seq<char> {
    dir + "/user.js"@
}

pub open spec fn user_backup_path(dir: Seq<char>) -> Seq<char> {
    dir + "/user.js.opsec_bak"@
}

pub open spec fn prefs_js_path(dir: Seq<char>) -> Seq<char> {
    dir + "/prefs.js"@
}

pub open spec fn prefs_backup_path(dir: Seq<char>) -> Seq<char> {
    dir + "/prefs.js.opsec_bak"@
}

/// What is left of a `user.js` that TorShield created, once stripped.
pub open spec fn marker_only() -> Seq<char> {
    "\n// TorShield"@
}

/// Hardening or restoring the profile in `dir`.
///
/// Hardening saves `user.js` and `prefs.js` to their backups (unless a backup is
/// there already), then writes the hardened `user.js` (created when absent) and
/// hardened `prefs.js` (only when it exists).
///
/// Restoring copies each backup back and deletes it. A `user.js` without a backup was
/// created by TorShield: it is deleted when nothing but TorShield's lines is in it,
/// else stripped of them. A `prefs.js` without a backup was not touched and is left.
pub open spec fn profile_plan_of(
    enable: bool,
    dir: Seq<char>,
    f: ProfileFilesView,
    c: crate::config::Config,
    ver: Seq<char>,
) -> Seq<ActionView> {
    if enable {
        let u = match f.user_js {
            Some(u) => u,
            None => Seq::empty(),
        };
        (if f.user_js is Some && f.user_backup is None {
            seq![ActionView::WriteFile(user_backup_path(dir), u)]
        } else {
            Seq::empty()
        }) + seq![ActionView::WriteFile(user_js_path(dir), user_js_enabled_text(u, c, ver))] + (match f.prefs_js {
            Some(p) => (if f.prefs_backup is None {
                seq![ActionView::WriteFile(prefs_backup_path(dir), p)]
            } else {
                Seq::empty()
            }) + seq![ActionView::WriteFile(prefs_js_path(dir), prefs_js_enabled_text(p, c, ver))],
            None => Seq::empty(),
        })
    } else {
        (match f.user_backup {
            Some(b) => seq![ActionView::WriteFile(user_js_path(dir), b), ActionView::RemoveFile(user_backup_path(dir))],
            None => match f.user_js {
                Some(u) => if stripped(u) == marker_only() {
                    seq![ActionView::RemoveFile(user_js_path(dir))]
                } else {
                    seq![ActionView::WriteFile(user_js_path(dir), stripped(u))]
                },
                None => Seq::empty(),
            },
        }) + (match f.prefs_backup {
            Some(b) => seq![ActionView::WriteFile(prefs_js_path(dir), b), ActionView::RemoveFile(prefs_backup_path(dir))],
            None => Seq::empty(),
        })
    }
}

fn path_in(dir: &str, name: &str) -> (r: String)
    ensures
        r@ == dir@ + name@,
{
    let mut r = crate::text::owned(dir);
    r.append(name);
    r
}

/// The steps that harden (`enable`) or restore the profile in `dir`, from its files.
pub fn profile_plan(enable: bool, dir: &str, files: &ProfileFiles, cfg: &crate::config::Config, version: &str) -> (r: Vec<Action>)
    ensures
        action_views(r@) == profile_plan_of(enable, dir@, files_view(*files), *cfg, version@),
{
    let mut plan: Vec<Action> = Vec::new();
    let ghost f = files_view(*files);
    if enable {
        let u: &str = match &files.user_js {
            Some(u) => u.as_str(),
            None => "",
        };
        proof {
            reveal_strlit("");
        }
        assert(u@ == (match f.user_js { Some(x) => x, None => Seq::<char>::empty() }));
        if files.user_js.is_some() && files.user_backup.is_none() {
            push_action(&mut plan, Action::WriteFile(path_in(dir, "/user.js.opsec_bak"), crate::text::owned(u)));
        }
        push_action(&mut plan, Action::WriteFile(path_in(dir, "/user.js"), user_js_enabled(u, cfg, version)));
        match &files.prefs_js {
            Some(p) => {
                if files.prefs_backup.is_none() {
                    push_action(&mut plan, Action::WriteFile(path_in(dir, "/prefs.js.opsec_bak"), crate::text::owned(p.as_str())));
                }
                push_action(&mut plan, Action::WriteFile(path_in(dir, "/prefs.js"), prefs_js_enabled(p.as_str(), cfg, version)));
            },
            None => {},
        }
    } else {
        match &files.user_backup {
            Some(b) => {
                push_action(&mut plan, Action::WriteFile(path_in(dir, "/user.js"), crate::text::owned(b.as_str())));
                push_action(&mut plan, Action::RemoveFile(path_in(dir, "/user.js.opsec_bak")));
            },
            None => match &files.user_js {
                Some(u) => {
                    let t = strip_prefs(u.as_str());
                    if crate::text::eq_chars(&chars_of(t.as_str()), &chars_of("\n// TorShield")) {
                        push_action(&mut plan, Action::RemoveFile(path_in(dir, "/user.js")));
                    } else {
                        push_action(&mut plan, Action::WriteFile(path_in(dir, "/user.js"), t));
                    }
                },
                None => {},
            },
        }
        match &files.prefs_backup {
            Some(b) => {
                push_action(&mut plan, Action::WriteFile(path_in(dir, "/prefs.js"), crate::text::owned(b.as_str())));
                push_action(&mut plan, Action::RemoveFile(path_in(dir, "/prefs.js.opsec_bak")));
            },
            None => {},
        }
    }
    assert(action_views(plan@) =~= profile_plan_of(enable, dir@, f, *cfg, version@));
    plan
}

} // verus!

verus! {

/// The profile's files after one action in `dir` (other actions leave them).
pub open spec fn apply_file_action(f: ProfileFilesView, dir: Seq<char>, a: ActionView) -> ProfileFilesView {
    match a {
        ActionView::WriteFile(p, c) => if p == user_js_path(dir) {
            ProfileFilesView { user_js: Some(c), ..f }
        } else if p == user_backup_path(dir) {
            ProfileFilesView { user_backup: Some(c), ..f }
        } else if p == prefs_js_path(dir) {
            ProfileFilesView { prefs_js: Some(c), ..f }
        } else if p == prefs_backup_path(dir) {
            ProfileFilesView { prefs_backup: Some(c), ..f }
        } else {
            f
        },
        ActionView::RemoveFile(p) => if p == user_js_path(dir) {
            ProfileFilesView { user_js: None, ..f }
        } else if p == user_backup_path(dir) {
            ProfileFilesView { user_backup: None, ..f }
        } else if p == prefs_js_path(dir) {
            ProfileFilesView { prefs_js: None, ..f }
        } else if p == prefs_backup_path(dir) {
            ProfileFilesView { prefs_backup: None, ..f }
        } else {
            f
        },
        _ => f,
    }
}

/// The profile's files after a plan.
pub open spec fn apply_file_plan(f: ProfileFilesView, dir: Seq<char>, plan: Seq<ActionView>) -> ProfileFilesView
    decreases plan.len(),
{
    if plan.len() == 0 {
        f
    } else {
        apply_file_plan(apply_file_action(f, dir, plan[0]), dir, plan.drop_first())
    }
}

proof fn lemma_paths_distinct(dir: Seq<char>)
    ensures
        user_js_path(dir) != user_backup_path(dir),
        user_js_path(dir) != prefs_js_path(dir),
        user_js_path(dir) != prefs_backup_path(dir),
        user_backup_path(dir) != prefs_js_path(dir),
        user_backup_path(dir) != prefs_backup_path(dir),
        prefs_js_path(dir) != prefs_backup_path(dir),
{
    reveal_strlit("/user.js");
    reveal_strlit("/user.js.opsec_bak");
    reveal_strlit("/prefs.js");
    reveal_strlit("/prefs.js.opsec_bak");
    let n = dir.len() as int;
    assert(user_js_path(dir)[n + 1] == 'u');
    assert(user_backup_path(dir)[n + 1] == 'u');
    assert(prefs_js_path(dir)[n + 1] == 'p');
    assert(prefs_backup_path(dir)[n + 1] == 'p');
    assert(user_js_path(dir).len() != user_backup_path(dir).len());
    assert(prefs_js_path(dir).len() != prefs_backup_path(dir).len());
}

proof fn lemma_apply_two(f: ProfileFilesView, dir: Seq<char>, a: Seq<ActionView>, b: Seq<ActionView>)
    ensures
        apply_file_plan(f, dir, a + b) == apply_file_plan(apply_file_plan(f, dir, a), dir, b),
    decreases a.len(),
{
    if a.len() > 0 {
        assert((a + b).drop_first() =~= a.drop_first() + b);
        assert((a + b)[0] == a[0]);
        lemma_apply_two(apply_file_action(f, dir, a[0]), dir, a.drop_first(), b);
    } else {
        assert(a + b =~= b);
    }
}

proof fn lemma_apply_one(f: ProfileFilesView, dir: Seq<char>, x: ActionView)
    ensures
        apply_file_plan(f, dir, seq![x]) == apply_file_action(f, dir, x),
{
    assert(seq![x].drop_first() =~= Seq::<ActionView>::empty());
    assert(seq![x][0] == x);
    let g = apply_file_action(f, dir, x);
    assert(apply_file_plan(g, dir, Seq::<ActionView>::empty()) == g);
}

proof fn lemma_apply_pair(f: ProfileFilesView, dir: Seq<char>, x: ActionView, y: ActionView)
    ensures
        apply_file_plan(f, dir, seq![x, y]) == apply_file_action(apply_file_action(f, dir, x), dir, y),
{
    assert(seq![x, y] =~= seq![x] + seq![y]);
    lemma_apply_two(f, dir, seq![x], seq![y]);
    lemma_apply_one(f, dir, x);
    lemma_apply_one(apply_file_action(f, dir, x), dir, y);
}

/// A `user.js` that TorShield created for a profile without one holds, once stripped,
/// only TorShield's marker.
proof fn lemma_created_user_js(c: crate::config::Config, ver: Seq<char>)
    requires
        no_newline(ver),
    ensures
        stripped(user_js_enabled_text(Seq::empty(), c, ver)) == marker_only(),
{
    crate::text::lemma_lines_empty();
    assert(kept_lines(lines(Seq::<char>::empty())) =~= Seq::<Seq<char>>::empty());
    assert(stripped(Seq::<char>::empty()) =~= Seq::<char>::empty());
    assert(user_js_enabled_text(Seq::empty(), c, ver) =~= firefox_prefs_text(c.ua_spoof, c.lang_spoof, c.resist_fp, ver));
    lemma_firefox_prefs_stripped(c.ua_spoof, c.lang_spoof, c.resist_fp, ver);
}

/// Restoring a profile after hardening it gives its files back as they were: `user.js`
/// and `prefs.js` with their earlier contents (or absent when they were), and no backup
/// left behind.
pub proof fn lemma_profile_round_trip(f0: ProfileFilesView, dir: Seq<char>, c: crate::config::Config, ver: Seq<char>)
    requires
        f0.user_backup is None,
        f0.prefs_backup is None,
        no_newline(ver),
    ensures
        ({
            let f1 = apply_file_plan(f0, dir, profile_plan_of(true, dir, f0, c, ver));
            apply_file_plan(f1, dir, profile_plan_of(false, dir, f1, c, ver)) == f0
        }),
{
    lemma_paths_distinct(dir);
    let u = match f0.user_js {
        Some(u) => u,
        None => Seq::<char>::empty(),
    };
    let ua: Seq<ActionView> = if f0.user_js is Some {
        seq![ActionView::WriteFile(user_backup_path(dir), u)]
    } else {
        Seq::empty()
    };
    let uw = seq![ActionView::WriteFile(user_js_path(dir), user_js_enabled_text(u, c, ver))];
    let pa: Seq<ActionView> = match f0.prefs_js {
        Some(p) => seq![ActionView::WriteFile(prefs_backup_path(dir), p)] + seq![
            ActionView::WriteFile(prefs_js_path(dir), prefs_js_enabled_text(p, c, ver)),
        ],
        None => Seq::empty(),
    };
    assert(profile_plan_of(true, dir, f0, c, ver) == ua + uw + pa);
    lemma_apply_two(f0, dir, ua + uw, pa);
    lemma_apply_two(f0, dir, ua, uw);
    let g0 = apply_file_plan(f0, dir, ua);
    if f0.user_js is Some {
        lemma_apply_one(f0, dir, ua[0]);
    } else {
        assert(g0 == f0);
    }
    lemma_apply_one(g0, dir, uw[0]);
    let g1 = apply_file_plan(g0, dir, uw);
    let f1 = apply_file_plan(g1, dir, pa);
    match f0.prefs_js {
        Some(p) => {
            assert(pa =~= seq![
                ActionView::WriteFile(prefs_backup_path(dir), p),
                ActionView::WriteFile(prefs_js_path(dir), prefs_js_enabled_text(p, c, ver)),
            ]);
            lemma_apply_pair(g1, dir, pa[0], pa[1]);
        },
        None => {},
    }
    assert(f1 == apply_file_plan(f0, dir, profile_plan_of(true, dir, f0, c, ver)));
    // restoring
    let ub: Seq<ActionView> = match f1.user_backup {
        Some(b) => seq![ActionView::WriteFile(user_js_path(dir), b), ActionView::RemoveFile(user_backup_path(dir))],
        None => match f1.user_js {
            Some(x) => if stripped(x) == marker_only() {
                seq![ActionView::RemoveFile(user_js_path(dir))]
            } else {
                seq![ActionView::WriteFile(user_js_path(dir), stripped(x))]
            },
            None => Seq::empty(),
        },
    };
    let pb: Seq<ActionView> = match f1.prefs_backup {
        Some(b) => seq![ActionView::WriteFile(prefs_js_path(dir), b), ActionView::RemoveFile(prefs_backup_path(dir))],
        None => Seq::empty(),
    };
    assert(profile_plan_of(false, dir, f1, c, ver) == ub + pb);
    lemma_apply_two(f1, dir, ub, pb);
    if f0.user_js is Some {
        lemma_apply_pair(f1, dir, ub[0], ub[1]);
    } else {
        lemma_created_user_js(c, ver);
        lemma_apply_one(f1, dir, ub[0]);
    }
    let h = apply_file_plan(f1, dir, ub);
    if f0.prefs_js is Some {
        lemma_apply_pair(h, dir, pb[0], pb[1]);
    } else {
        assert(pb =~= Seq::<ActionView>::empty());
    }
}

} // verus!

verus! {

/// Every preference of a block is one of its lines.
pub proof fn lemma_pref_block_has_line(es: Seq<(Seq<char>, Seq<char>)>, i: int)
    requires
        0 <= i < es.len(),
    ensures
        crate::text::contains(pref_block(es), pref_line(es[i].0, es[i].1)),
    decreases es.len(),
{
    let head = pref_block(es.drop_last());
    let line = pref_line(es.last().0, es.last().1);
    assert(pref_block(es) == head + line + seq!['\n']);
    if i == es.len() - 1 {
        assert((head + line + seq!['\n']).subrange(head.len() as int, head.len() + line.len() as int) =~= line);
        assert(occurs_at(pref_block(es), line, head.len() as int));
    } else {
        assert(es.drop_last()[i] == es[i]);
        lemma_pref_block_has_line(es.drop_last(), i);
        let l = pref_line(es[i].0, es[i].1);
        let k = choose|k: int| occurs_at(head, l, k);
        assert((head + line + seq!['\n']).subrange(k, k + l.len()) =~= head.subrange(k, k + l.len()));
        assert(occurs_at(pref_block(es), l, k));
    }
}

/// What hardening writes into `user.js`: the SOCKS proxy through Tor with remote DNS,
/// WebRTC off, HTTP/3 off and geolocation off, always; fingerprinting resistance as
/// chosen; the spoofed User-Agent when spoofing is on and resistance off; English when
/// chosen. Each of them is a `user_pref` line of the text.
pub proof fn lemma_user_js_settings(ua: bool, lang: bool, rfp: bool, ver: Seq<char>)
    ensures
        user_js_entries(ua, lang, rfp, ver).contains(("network.proxy.type"@, "1"@)),
        user_js_entries(ua, lang, rfp, ver).contains(("network.proxy.socks"@, "\"127.0.0.1\""@)),
        user_js_entries(ua, lang, rfp, ver).contains(("network.proxy.socks_port"@, "9050"@)),
        user_js_entries(ua, lang, rfp, ver).contains(("network.proxy.socks_remote_dns"@, "true"@)),
        user_js_entries(ua, lang, rfp, ver).contains(("media.peerconnection.enabled"@, "false"@)),
        user_js_entries(ua, lang, rfp, ver).contains(("network.http.http3.enabled"@, "false"@)),
        user_js_entries(ua, lang, rfp, ver).contains(("geo.enabled"@, "false"@)),
        user_js_entries(ua, lang, rfp, ver).contains(("privacy.resistFingerprinting"@, bool_text(rfp))),
        ua && !rfp ==> user_js_entries(ua, lang, rfp, ver).contains(ua_pref(ver)),
        lang ==> user_js_entries(ua, lang, rfp, ver).contains(accept_language_pref()),
        forall|i: int|
            0 <= i < user_js_entries(ua, lang, rfp, ver).len() ==> crate::text::contains(
                firefox_prefs_text(ua, lang, rfp, ver),
                pref_line(#[trigger] user_js_entries(ua, lang, rfp, ver)[i].0, user_js_entries(ua, lang, rfp, ver)[i].1),
            ),
{
    let es = user_js_entries(ua, lang, rfp, ver);
    let b = base_prefs();
    let r = rfp_prefs(rfp);
    let u: Seq<(Seq<char>, Seq<char>)> = if ua && !rfp { seq![ua_pref(ver)] } else { seq![] };
    let l: Seq<(Seq<char>, Seq<char>)> = if lang { lang_prefs() } else { seq![] };
    assert(es == b + r + u + l);
    assert(es[0] == b[0]);
    assert(es[1] == b[1]);
    assert(es[2] == b[2]);
    assert(es[4] == b[4]);
    assert(es[6] == b[6]);
    assert(es[16] == b[16]);
    assert(es[10] == b[10]);
    assert(es[23] == r[0]);
    if ua && !rfp {
        assert(es[28] == u[0]);
    }
    if lang {
        let k: int = 28 + u.len() as int;
        assert(es[k] == l[0]);
        assert(l[0] == accept_language_pref());
    }
    assert forall|i: int| 0 <= i < es.len() implies crate::text::contains(
        firefox_prefs_text(ua, lang, rfp, ver),
        pref_line(#[trigger] es[i].0, es[i].1),
    ) by {
        lemma_pref_block_has_line(es, i);
        let line = pref_line(es[i].0, es[i].1);
        let blk = pref_block(es);
        let k = choose|k: int| occurs_at(blk, line, k);
        let m = "\n// TorShield\n"@;
        assert((m + blk).subrange(m.len() + k, m.len() + k + line.len()) =~= blk.subrange(k, k + line.len()));
        assert(occurs_at(m + blk, line, m.len() + k));
    }
}

} // verus!

verus! {

/// Before the profiles are changed, a running Firefox is asked to quit and given two
/// seconds (it would otherwise write its preferences back over the changes).
pub fn firefox_quit_plan(running: bool) -> (r: Vec<Action>)
    ensures
        running ==> action_views(r@) == seq![
            crate::helper::run("osascript"@, seq!["-e"@, "tell application \"Firefox\" to quit"@]),
            ActionView::SleepMillis(2000),
        ],
        !running ==> action_views(r@) == Seq::<ActionView>::empty(),
{
    let mut plan: Vec<Action> = Vec::new();
    if running {
        let a = [ "-e", "tell application \"Firefox\" to quit" ];
        crate::helper::push_run(&mut plan, "osascript", &a);
        assert(crate::helper::str_views(a@) =~= seq!["-e"@, "tell application \"Firefox\" to quit"@]);
        push_action(&mut plan, Action::SleepMillis(2000));
    }
    assert(running ==> action_views(plan@) =~= seq![
        crate::helper::run("osascript"@, seq!["-e"@, "tell application \"Firefox\" to quit"@]),
        ActionView::SleepMillis(2000),
    ]);
    assert(!running ==> action_views(plan@) =~= Seq::<ActionView>::empty());
    plan
}

/// After the profiles are changed, Firefox is opened again if it was running.
pub fn firefox_reopen_plan(was_running: bool) -> (r: Vec<Action>)
    ensures
        was_running ==> action_views(r@) == seq![ActionView::Spawn("open"@, seq!["-a"@, "Firefox"@])],
        !was_running ==> action_views(r@) == Seq::<ActionView>::empty(),
{
    let mut plan: Vec<Action> = Vec::new();
    if was_running {
        let a = [ "-a", "Firefox" ];
        push_action(&mut plan, Action::Spawn(crate::helper::sh("open", &a)));
        assert(crate::helper::str_views(a@) =~= seq!["-a"@, "Firefox"@]);
    }
    assert(was_running ==> action_views(plan@) =~= seq![ActionView::Spawn("open"@, seq!["-a"@, "Firefox"@])]);
    assert(!was_running ==> action_views(plan@) =~= Seq::<ActionView>::empty());
    plan
}

} // verus!

verus! {

/// The User-Agent override is written only when spoofing is on and fingerprinting
/// resistance off, and the language only when English is forced.
pub proof fn lemma_user_js_settings_only_if(ua: bool, lang: bool, rfp: bool, ver: Seq<char>)
    ensures
        user_js_entries(ua, lang, rfp, ver).contains(ua_pref(ver)) ==> ua && !rfp,
        user_js_entries(ua, lang, rfp, ver).contains(accept_language_pref()) ==> lang,
{
    reveal_strlit("browser.send_pings");
    reveal_strlit("browser.startup.page");
    reveal_strlit("dom.battery.enabled");
    reveal_strlit("dom.webaudio.enabled");
    reveal_strlit("general.useragent.override");
    reveal_strlit("geo.enabled");
    reveal_strlit("geo.provider.use_corelocation");
    reveal_strlit("intl.accept_languages");
    reveal_strlit("javascript.use_us_english_locale");
    reveal_strlit("layout.css.prefers-color-scheme.content-override");
    reveal_strlit("media.navigator.enabled");
    reveal_strlit("media.peerconnection.enabled");
    reveal_strlit("media.peerconnection.ice.default_address_only");
    reveal_strlit("media.peerconnection.ice.no_host");
    reveal_strlit("media.peerconnection.ice.proxy_only_if_behind_proxy");
    reveal_strlit("network.dns.disablePrefetch");
    reveal_strlit("network.dns.disablePrefetchFromHTTPS");
    reveal_strlit("network.http.http2.enabled");
    reveal_strlit("network.http.http3.enabled");
    reveal_strlit("network.prefetch-next");
    reveal_strlit("network.proxy.no_proxies_on");
    reveal_strlit("network.proxy.socks");
    reveal_strlit("network.proxy.socks_port");
    reveal_strlit("network.proxy.socks_remote_dns");
    reveal_strlit("network.proxy.socks_version");
    reveal_strlit("network.proxy.type");
    reveal_strlit("permissions.default.geo");
    reveal_strlit("privacy.fingerprintingProtection");
    reveal_strlit("privacy.fingerprintingProtection.overrides");
    reveal_strlit("privacy.resistFingerprinting");
    reveal_strlit("privacy.resistFingerprinting.spoofOsAsWindows");
    let es = user_js_entries(ua, lang, rfp, ver);
    let b = base_prefs();
    let r = rfp_prefs(rfp);
    let u: Seq<(Seq<char>, Seq<char>)> = if ua && !rfp { seq![ua_pref(ver)] } else { seq![] };
    let l: Seq<(Seq<char>, Seq<char>)> = if lang { lang_prefs() } else { seq![] };
    assert(es == b + r + u + l);
    let g = "general.useragent.override"@;
    let a = "intl.accept_languages"@;
    assert(g.len() == 26 && g[0] == 'g' && a.len() == 21 && a[0] == 'i');
    assert forall|k: int| 0 <= k < b.len() implies ((#[trigger] b[k]).0.len() != 26 || b[k].0[0] != 'g') && (b[k].0.len() != 21
        || b[k].0[0] != 'i') by {
        assert(0 <= k < 23);
    }
    assert forall|k: int| 0 <= k < r.len() implies ((#[trigger] r[k]).0.len() != 26 || r[k].0[0] != 'g') && (r[k].0.len() != 21
        || r[k].0[0] != 'i') by {
        assert(0 <= k < 5);
    }
    if es.contains(ua_pref(ver)) {
        let k = choose|k: int| 0 <= k < es.len() && es[k] == ua_pref(ver);
        if k < b.len() {
            assert(es[k] == b[k]);
        } else if k < b.len() + r.len() {
            assert(es[k] == r[k - b.len()]);
        } else if k < b.len() + r.len() + u.len() {
        } else {
            assert(es[k] == l[k - b.len() - r.len() - u.len()]);
            assert(lang);
            let m = k - b.len() - r.len() - u.len();
            assert(m == 0 || m == 1);
        }
    }
    if es.contains(accept_language_pref()) {
        let k = choose|k: int| 0 <= k < es.len() && es[k] == accept_language_pref();
        if k < b.len() {
            assert(es[k] == b[k]);
        } else if k < b.len() + r.len() {
            assert(es[k] == r[k - b.len()]);
        } else if k < b.len() + r.len() + u.len() {
            assert(es[k] == u[0]);
        }
    }
}

} // verus!

verus! {

pub(crate) proof fn lemma_split_ws_parts_plain(s: Seq<char>)
    ensures
        forall|i: int, j: int|
            0 <= i < crate::text::split_ws(s).len() && 0 <= j < crate::text::split_ws(s)[i].len()
                ==> !crate::text::is_ws(#[trigger] crate::text::split_ws(s)[i][j]),
    decreases s.len(),
{
    crate::text::lemma_split_ws_nonempty(s);
    if s.len() > 0 {
        lemma_split_ws_parts_plain(s.drop_last());
        crate::text::lemma_split_ws_nonempty(s.drop_last());
        let p = crate::text::split_ws(s.drop_last());
        let q = crate::text::split_ws(s);
        assert forall|i: int, j: int| 0 <= i < q.len() && 0 <= j < q[i].len() implies !crate::text::is_ws(
            #[trigger] q[i][j],
        ) by {
            if !crate::text::is_ws(s.last()) && i == p.len() - 1 {
                if j < p.last().len() {
                    assert(q[i][j] == p[i][j]);
                }
            } else if i < p.len() {
                assert(q[i] == p[i]);
            }
        }
    }
}

pub(crate) proof fn lemma_nonempty_parts_plain(ps: Seq<Seq<char>>)
    requires
        forall|i: int, j: int| 0 <= i < ps.len() && 0 <= j < ps[i].len() ==> !crate::text::is_ws(#[trigger] ps[i][j]),
    ensures
        forall|i: int, j: int|
            0 <= i < crate::text::nonempty(ps).len() && 0 <= j < crate::text::nonempty(ps)[i].len()
                ==> !crate::text::is_ws(#[trigger] crate::text::nonempty(ps)[i][j]),
    decreases ps.len(),
{
    if ps.len() > 0 {
        let d = ps.drop_last();
        assert forall|i: int, j: int| 0 <= i < d.len() && 0 <= j < d[i].len() implies !crate::text::is_ws(#[trigger] d[i][j]) by {
            assert(d[i] == ps[i]);
        }
        lemma_nonempty_parts_plain(d);
        let q = crate::text::nonempty(ps);
        let r = crate::text::nonempty(d);
        assert forall|i: int, j: int| 0 <= i < q.len() && 0 <= j < q[i].len() implies !crate::text::is_ws(#[trigger] q[i][j]) by {
            if i < r.len() {
                assert(q[i] == r[i]);
            } else {
                assert(q[i] == ps.last());
                assert(ps.last()[j] == ps[ps.len() - 1][j]);
            }
        }
    }
}

/// The version found in any output has no line break, so it is safe in a preference.
pub proof fn lemma_firefox_version_one_line(output: Seq<char>)
    ensures
        no_newline(firefox_version_text(output)),
{
    let ws = crate::text::words(output);
    lemma_split_ws_parts_plain(output);
    lemma_nonempty_parts_plain(crate::text::split_ws(output));
    let t = version_token(output);
    assert forall|k: int| 0 <= k < t.len() implies t[k] != '\n' by {
        assert(ws[ws.len() - 1][k] == t[k]);
        assert(!crate::text::is_ws(t[k]));
    }
    lemma_split_on_no_char(t, '.', '\n');
    crate::text::lemma_split_on_nonempty(t, '.');
    let p = crate::text::split_on(t, '.');
    assert(p[0].len() >= 0);
    reveal_strlit("128.0");
    let mm = major_minor(t);
    if p.len() >= 2 {
        assert forall|k: int| 0 <= k < mm.len() implies mm[k] != '\n' by {
            if k < p[0].len() {
                assert(mm[k] == p[0][k]);
            } else if k > p[0].len() {
                assert(mm[k] == p[1][k - p[0].len() - 1]);
            }
        }
    }
}

/// Restoring a profile after hardening it with the installed Firefox's version gives
/// its files back as they were, when no backup was lying there before.
pub proof fn lemma_profile_round_trip_installed(
    f0: ProfileFilesView,
    dir: Seq<char>,
    c: crate::config::Config,
    version_output: Seq<char>,
)
    requires
        f0.user_backup is None,
        f0.prefs_backup is None,
    ensures
        ({
            let ver = firefox_version_text(version_output);
            let f1 = apply_file_plan(f0, dir, profile_plan_of(true, dir, f0, c, ver));
            apply_file_plan(f1, dir, profile_plan_of(false, dir, f1, c, ver)) == f0
        }),
{
    lemma_firefox_version_one_line(version_output);
    lemma_profile_round_trip(f0, dir, c, firefox_version_text(version_output));
}

} // verus!

verus! {

/// A preference list sets `name` to `value`: the pair is in it, and no entry of it gives
/// `name` another value.
pub open spec fn sets_pref(es: Seq<(Seq<char>, Seq<char>)>, name: Seq<char>, value: Seq<char>) -> bool {
    &&& es.contains((name, value))
    &&& forall|i: int| 0 <= i < es.len() && (#[trigger] es[i]).0 == name ==> es[i].1 == value
}

/// No entry of the list names `name`.
pub open spec fn lacks_pref(es: Seq<(Seq<char>, Seq<char>)>, name: Seq<char>) -> bool {
    forall|i: int| 0 <= i < es.len() ==> (#[trigger] es[i]).0 != name
}

proof fn lemma_sets_pref_concat(
    a: Seq<(Seq<char>, Seq<char>)>,
    b: Seq<(Seq<char>, Seq<char>)>,
    name: Seq<char>,
    value: Seq<char>,
)
    requires
        (sets_pref(a, name, value) && lacks_pref(b, name)) || (lacks_pref(a, name) && sets_pref(b, name, value)),
    ensures
        sets_pref(a + b, name, value),
{
    let s = a + b;
    if sets_pref(a, name, value) && lacks_pref(b, name) {
        let k = choose|k: int| 0 <= k < a.len() && a[k] == (name, value);
        assert(s[k] == a[k]);
    } else {
        let k = choose|k: int| 0 <= k < b.len() && b[k] == (name, value);
        assert(s[a.len() + k] == b[k]);
    }
    assert forall|i: int| 0 <= i < s.len() && (#[trigger] s[i]).0 == name implies s[i].1 == value by {
        if i < a.len() {
            assert(s[i] == a[i]);
        } else {
            assert(s[i] == b[i - a.len()]);
        }
    }
}

proof fn lemma_lacks_pref_concat(a: Seq<(Seq<char>, Seq<char>)>, b: Seq<(Seq<char>, Seq<char>)>, name: Seq<char>)
    requires
        lacks_pref(a, name),
        lacks_pref(b, name),
    ensures
        lacks_pref(a + b, name),
{
    let s = a + b;
    assert forall|i: int| 0 <= i < s.len() implies (#[trigger] s[i]).0 != name by {
        if i < a.len() {
            assert(s[i] == a[i]);
        } else {
            assert(s[i] == b[i - a.len()]);
        }
    }
}

/// Every hardening preference written into `user.js` has its protective value, and no
/// other line of the block gives it another: traffic goes through the SOCKS proxy at
/// 127.0.0.1:9050 (version 5, DNS resolved remotely, nothing bypassed but localhost);
/// WebRTC, geolocation, the Battery Status API, HTTP/3, DNS and link prefetching, pings
/// and media devices are off, with WebRTC's ICE kept to the proxy; the colour scheme is
/// light and the previous session is restored; fingerprinting resistance follows the
/// setting, with Web Audio on exactly when resistance is off. When English is forced,
/// the accepted languages are US English then English and scripts see a US locale; when
/// the User-Agent is spoofed (and resistance is off), it is that of Firefox of the same
/// version on 64-bit Windows 10.
pub proof fn lemma_user_js_protective_values(ua: bool, lang: bool, rfp: bool, ver: Seq<char>)
    ensures
        sets_pref(user_js_entries(ua, lang, rfp, ver), "network.proxy.type"@, "1"@),
        sets_pref(user_js_entries(ua, lang, rfp, ver), "network.proxy.socks"@, "\"127.0.0.1\""@),
        sets_pref(user_js_entries(ua, lang, rfp, ver), "network.proxy.socks_port"@, "9050"@),
        sets_pref(user_js_entries(ua, lang, rfp, ver), "network.proxy.socks_version"@, "5"@),
        sets_pref(user_js_entries(ua, lang, rfp, ver), "network.proxy.socks_remote_dns"@, "true"@),
        sets_pref(user_js_entries(ua, lang, rfp, ver), "network.proxy.no_proxies_on"@, "\"localhost, 127.0.0.1\""@),
        sets_pref(user_js_entries(ua, lang, rfp, ver), "media.peerconnection.enabled"@, "false"@),
        sets_pref(user_js_entries(ua, lang, rfp, ver), "media.peerconnection.ice.no_host"@, "true"@),
        sets_pref(user_js_entries(ua, lang, rfp, ver), "media.peerconnection.ice.default_address_only"@, "true"@),
        sets_pref(user_js_entries(ua, lang, rfp, ver), "media.peerconnection.ice.proxy_only_if_behind_proxy"@, "true"@),
        sets_pref(user_js_entries(ua, lang, rfp, ver), "geo.enabled"@, "false"@),
        sets_pref(user_js_entries(ua, lang, rfp, ver), "geo.provider.use_corelocation"@, "false"@),
        sets_pref(user_js_entries(ua, lang, rfp, ver), "permissions.default.geo"@, "2"@),
        sets_pref(user_js_entries(ua, lang, rfp, ver), "dom.battery.enabled"@, "false"@),
        sets_pref(user_js_entries(ua, lang, rfp, ver), "layout.css.prefers-color-scheme.content-override"@, "1"@),
        sets_pref(user_js_entries(ua, lang, rfp, ver), "browser.startup.page"@, "3"@),
        sets_pref(user_js_entries(ua, lang, rfp, ver), "network.http.http3.enabled"@, "false"@),
        sets_pref(user_js_entries(ua, lang, rfp, ver), "network.http.http2.enabled"@, "true"@),
        sets_pref(user_js_entries(ua, lang, rfp, ver), "network.dns.disablePrefetch"@, "true"@),
        sets_pref(user_js_entries(ua, lang, rfp, ver), "network.dns.disablePrefetchFromHTTPS"@, "true"@),
        sets_pref(user_js_entries(ua, lang, rfp, ver), "network.prefetch-next"@, "false"@),
        sets_pref(user_js_entries(ua, lang, rfp, ver), "browser.send_pings"@, "false"@),
        sets_pref(user_js_entries(ua, lang, rfp, ver), "media.navigator.enabled"@, "false"@),
        sets_pref(user_js_entries(ua, lang, rfp, ver), "privacy.resistFingerprinting"@, (if rfp { "true"@ } else { "false"@ })),
        sets_pref(user_js_entries(ua, lang, rfp, ver), "privacy.resistFingerprinting.spoofOsAsWindows"@, (if rfp { "true"@ } else { "false"@ })),
        sets_pref(user_js_entries(ua, lang, rfp, ver), "privacy.fingerprintingProtection"@, (if rfp { "true"@ } else { "false"@ })),
        sets_pref(user_js_entries(ua, lang, rfp, ver), "privacy.fingerprintingProtection.overrides"@, "\"+AllTargets\""@),
        sets_pref(user_js_entries(ua, lang, rfp, ver), "dom.webaudio.enabled"@, (if rfp { "false"@ } else { "true"@ })),
        lang ==> sets_pref(user_js_entries(ua, lang, rfp, ver), "intl.accept_languages"@, "\"en-US, en\""@),
        lang ==> sets_pref(user_js_entries(ua, lang, rfp, ver), "javascript.use_us_english_locale"@, "true"@),
        ua && !rfp ==> sets_pref(
            user_js_entries(ua, lang, rfp, ver),
            "general.useragent.override"@,
            "\"Mozilla/5.0 (Windows NT 10.0; Win64; x64; rv:"@ + major_part(ver) + ".0) Gecko/20100101 Firefox/"@ + ver + "\""@,
        ),
{
    reveal_strlit("network.proxy.type");
    reveal_strlit("network.proxy.socks");
    reveal_strlit("network.proxy.socks_port");
    reveal_strlit("network.proxy.socks_version");
    reveal_strlit("network.proxy.socks_remote_dns");
    reveal_strlit("network.proxy.no_proxies_on");
    reveal_strlit("media.peerconnection.enabled");
    reveal_strlit("media.peerconnection.ice.no_host");
    reveal_strlit("media.peerconnection.ice.default_address_only");
    reveal_strlit("media.peerconnection.ice.proxy_only_if_behind_proxy");
    reveal_strlit("geo.enabled");
    reveal_strlit("geo.provider.use_corelocation");
    reveal_strlit("permissions.default.geo");
    reveal_strlit("dom.battery.enabled");
    reveal_strlit("layout.css.prefers-color-scheme.content-override");
    reveal_strlit("browser.startup.page");
    reveal_strlit("network.http.http3.enabled");
    reveal_strlit("network.http.http2.enabled");
    reveal_strlit("network.dns.disablePrefetch");
    reveal_strlit("network.dns.disablePrefetchFromHTTPS");
    reveal_strlit("network.prefetch-next");
    reveal_strlit("browser.send_pings");
    reveal_strlit("media.navigator.enabled");
    reveal_strlit("privacy.resistFingerprinting");
    reveal_strlit("privacy.resistFingerprinting.spoofOsAsWindows");
    reveal_strlit("privacy.fingerprintingProtection");
    reveal_strlit("privacy.fingerprintingProtection.overrides");
    reveal_strlit("dom.webaudio.enabled");
    reveal_strlit("general.useragent.override");
    reveal_strlit("intl.accept_languages");
    reveal_strlit("javascript.use_us_english_locale");
    assert("network.proxy.type"@.len() == 18 && "network.proxy.type"@[0] == 'n');
    assert("network.proxy.socks"@.len() == 19 && "network.proxy.socks"@[0] == 'n');
    assert("network.proxy.socks_port"@.len() == 24 && "network.proxy.socks_port"@[0] == 'n');
    assert("network.proxy.socks_version"@.len() == 27 && "network.proxy.socks_version"@[16] == 'c');
    assert("network.proxy.socks_remote_dns"@.len() == 30 && "network.proxy.socks_remote_dns"@[0] == 'n');
    assert("network.proxy.no_proxies_on"@.len() == 27 && "network.proxy.no_proxies_on"@[16] == '_');
    assert("media.peerconnection.enabled"@.len() == 28 && "media.peerconnection.enabled"@[0] == 'm');
    assert("media.peerconnection.ice.no_host"@.len() == 32 && "media.peerconnection.ice.no_host"@[0] == 'm');
    assert("media.peerconnection.ice.default_address_only"@.len() == 45 && "media.peerconnection.ice.default_address_only"@[0] == 'm');
    assert("media.peerconnection.ice.proxy_only_if_behind_proxy"@.len() == 51 && "media.peerconnection.ice.proxy_only_if_behind_proxy"@[0] == 'm');
    assert("geo.enabled"@.len() == 11 && "geo.enabled"@[0] == 'g');
    assert("geo.provider.use_corelocation"@.len() == 29 && "geo.provider.use_corelocation"@[0] == 'g');
    assert("permissions.default.geo"@.len() == 23 && "permissions.default.geo"@[0] == 'p');
    assert("dom.battery.enabled"@.len() == 19 && "dom.battery.enabled"@[0] == 'd');
    assert("layout.css.prefers-color-scheme.content-override"@.len() == 48 && "layout.css.prefers-color-scheme.content-override"@[0] == 'l');
    assert("browser.startup.page"@.len() == 20 && "browser.startup.page"@[0] == 'b');
    assert("network.http.http3.enabled"@.len() == 26 && "network.http.http3.enabled"@[17] == '3');
    assert("network.http.http2.enabled"@.len() == 26 && "network.http.http2.enabled"@[17] == '2');
    assert("network.dns.disablePrefetch"@.len() == 27 && "network.dns.disablePrefetch"@[16] == 'b');
    assert("network.dns.disablePrefetchFromHTTPS"@.len() == 36 && "network.dns.disablePrefetchFromHTTPS"@[0] == 'n');
    assert("network.prefetch-next"@.len() == 21 && "network.prefetch-next"@[0] == 'n');
    assert("browser.send_pings"@.len() == 18 && "browser.send_pings"@[0] == 'b');
    assert("media.navigator.enabled"@.len() == 23 && "media.navigator.enabled"@[0] == 'm');
    assert("privacy.resistFingerprinting"@.len() == 28 && "privacy.resistFingerprinting"@[0] == 'p');
    assert("privacy.resistFingerprinting.spoofOsAsWindows"@.len() == 45 && "privacy.resistFingerprinting.spoofOsAsWindows"@[0] == 'p');
    assert("privacy.fingerprintingProtection"@.len() == 32 && "privacy.fingerprintingProtection"@[0] == 'p');
    assert("privacy.fingerprintingProtection.overrides"@.len() == 42 && "privacy.fingerprintingProtection.overrides"@[0] == 'p');
    assert("dom.webaudio.enabled"@.len() == 20 && "dom.webaudio.enabled"@[0] == 'd');
    assert("general.useragent.override"@.len() == 26 && "general.useragent.override"@[17] == '.');
    assert("intl.accept_languages"@.len() == 21 && "intl.accept_languages"@[0] == 'i');
    assert("javascript.use_us_english_locale"@.len() == 32 && "javascript.use_us_english_locale"@[0] == 'j');
    let b = base_prefs();
    let r = rfp_prefs(rfp);
    let u: Seq<(Seq<char>, Seq<char>)> = if ua && !rfp { seq![ua_pref(ver)] } else { seq![] };
    let l: Seq<(Seq<char>, Seq<char>)> = if lang { lang_prefs() } else { seq![] };
    assert(user_js_entries(ua, lang, rfp, ver) == b + r + u + l);
    assert(bool_text(rfp) == (if rfp { "true"@ } else { "false"@ }));
    assert(bool_text(!rfp) == (if rfp { "false"@ } else { "true"@ }));
    assert(sets_pref(b + r + u + l, "network.proxy.type"@, "1"@)) by {
        assert(b[0] == ("network.proxy.type"@, "1"@));
        assert forall|i: int| 0 <= i < b.len() && (#[trigger] b[i]).0 == "network.proxy.type"@ implies b[i].1 == "1"@ by {
            assert(0 <= i < 23);
        }
        assert forall|i: int| 0 <= i < r.len() implies (#[trigger] r[i]).0 != "network.proxy.type"@ by {
            assert(0 <= i < 5);
        }
        assert forall|i: int| 0 <= i < u.len() implies (#[trigger] u[i]).0 != "network.proxy.type"@ by {
            assert(i == 0);
        }
        assert forall|i: int| 0 <= i < l.len() implies (#[trigger] l[i]).0 != "network.proxy.type"@ by {
            assert(0 <= i < 2);
        }
        lemma_sets_pref_concat(b, r, "network.proxy.type"@, "1"@);
        lemma_sets_pref_concat(b + r, u, "network.proxy.type"@, "1"@);
        lemma_sets_pref_concat(b + r + u, l, "network.proxy.type"@, "1"@);
    }
    assert(sets_pref(b + r + u + l, "network.proxy.socks"@, "\"127.0.0.1\""@)) by {
        assert(b[1] == ("network.proxy.socks"@, "\"127.0.0.1\""@));
        assert forall|i: int| 0 <= i < b.len() && (#[trigger] b[i]).0 == "network.proxy.socks"@ implies b[i].1 == "\"127.0.0.1\""@ by {
            assert(0 <= i < 23);
        }
        assert forall|i: int| 0 <= i < r.len() implies (#[trigger] r[i]).0 != "network.proxy.socks"@ by {
            assert(0 <= i < 5);
        }
        assert forall|i: int| 0 <= i < u.len() implies (#[trigger] u[i]).0 != "network.proxy.socks"@ by {
            assert(i == 0);
        }
        assert forall|i: int| 0 <= i < l.len() implies (#[trigger] l[i]).0 != "network.proxy.socks"@ by {
            assert(0 <= i < 2);
        }
        lemma_sets_pref_concat(b, r, "network.proxy.socks"@, "\"127.0.0.1\""@);
        lemma_sets_pref_concat(b + r, u, "network.proxy.socks"@, "\"127.0.0.1\""@);
        lemma_sets_pref_concat(b + r + u, l, "network.proxy.socks"@, "\"127.0.0.1\""@);
    }
    assert(sets_pref(b + r + u + l, "network.proxy.socks_port"@, "9050"@)) by {
        assert(b[2] == ("network.proxy.socks_port"@, "9050"@));
        assert forall|i: int| 0 <= i < b.len() && (#[trigger] b[i]).0 == "network.proxy.socks_port"@ implies b[i].1 == "9050"@ by {
            assert(0 <= i < 23);
        }
        assert forall|i: int| 0 <= i < r.len() implies (#[trigger] r[i]).0 != "network.proxy.socks_port"@ by {
            assert(0 <= i < 5);
        }
        assert forall|i: int| 0 <= i < u.len() implies (#[trigger] u[i]).0 != "network.proxy.socks_port"@ by {
            assert(i == 0);
        }
        assert forall|i: int| 0 <= i < l.len() implies (#[trigger] l[i]).0 != "network.proxy.socks_port"@ by {
            assert(0 <= i < 2);
        }
        lemma_sets_pref_concat(b, r, "network.proxy.socks_port"@, "9050"@);
        lemma_sets_pref_concat(b + r, u, "network.proxy.socks_port"@, "9050"@);
        lemma_sets_pref_concat(b + r + u, l, "network.proxy.socks_port"@, "9050"@);
    }
    assert(sets_pref(b + r + u + l, "network.proxy.socks_version"@, "5"@)) by {
        assert(b[3] == ("network.proxy.socks_version"@, "5"@));
        assert forall|i: int| 0 <= i < b.len() && (#[trigger] b[i]).0 == "network.proxy.socks_version"@ implies b[i].1 == "5"@ by {
            assert(0 <= i < 23);
        }
        assert forall|i: int| 0 <= i < r.len() implies (#[trigger] r[i]).0 != "network.proxy.socks_version"@ by {
            assert(0 <= i < 5);
        }
        assert forall|i: int| 0 <= i < u.len() implies (#[trigger] u[i]).0 != "network.proxy.socks_version"@ by {
            assert(i == 0);
        }
        assert forall|i: int| 0 <= i < l.len() implies (#[trigger] l[i]).0 != "network.proxy.socks_version"@ by {
            assert(0 <= i < 2);
        }
        lemma_sets_pref_concat(b, r, "network.proxy.socks_version"@, "5"@);
        lemma_sets_pref_concat(b + r, u, "network.proxy.socks_version"@, "5"@);
        lemma_sets_pref_concat(b + r + u, l, "network.proxy.socks_version"@, "5"@);
    }
    assert(sets_pref(b + r + u + l, "network.proxy.socks_remote_dns"@, "true"@)) by {
        assert(b[4] == ("network.proxy.socks_remote_dns"@, "true"@));
        assert forall|i: int| 0 <= i < b.len() && (#[trigger] b[i]).0 == "network.proxy.socks_remote_dns"@ implies b[i].1 == "true"@ by {
            assert(0 <= i < 23);
        }
        assert forall|i: int| 0 <= i < r.len() implies (#[trigger] r[i]).0 != "network.proxy.socks_remote_dns"@ by {
            assert(0 <= i < 5);
        }
        assert forall|i: int| 0 <= i < u.len() implies (#[trigger] u[i]).0 != "network.proxy.socks_remote_dns"@ by {
            assert(i == 0);
        }
        assert forall|i: int| 0 <= i < l.len() implies (#[trigger] l[i]).0 != "network.proxy.socks_remote_dns"@ by {
            assert(0 <= i < 2);
        }
        lemma_sets_pref_concat(b, r, "network.proxy.socks_remote_dns"@, "true"@);
        lemma_sets_pref_concat(b + r, u, "network.proxy.socks_remote_dns"@, "true"@);
        lemma_sets_pref_concat(b + r + u, l, "network.proxy.socks_remote_dns"@, "true"@);
    }
    assert(sets_pref(b + r + u + l, "network.proxy.no_proxies_on"@, "\"localhost, 127.0.0.1\""@)) by {
        assert(b[5] == ("network.proxy.no_proxies_on"@, "\"localhost, 127.0.0.1\""@));
        assert forall|i: int| 0 <= i < b.len() && (#[trigger] b[i]).0 == "network.proxy.no_proxies_on"@ implies b[i].1 == "\"localhost, 127.0.0.1\""@ by {
            assert(0 <= i < 23);
        }
        assert forall|i: int| 0 <= i < r.len() implies (#[trigger] r[i]).0 != "network.proxy.no_proxies_on"@ by {
            assert(0 <= i < 5);
        }
        assert forall|i: int| 0 <= i < u.len() implies (#[trigger] u[i]).0 != "network.proxy.no_proxies_on"@ by {
            assert(i == 0);
        }
        assert forall|i: int| 0 <= i < l.len() implies (#[trigger] l[i]).0 != "network.proxy.no_proxies_on"@ by {
            assert(0 <= i < 2);
        }
        lemma_sets_pref_concat(b, r, "network.proxy.no_proxies_on"@, "\"localhost, 127.0.0.1\""@);
        lemma_sets_pref_concat(b + r, u, "network.proxy.no_proxies_on"@, "\"localhost, 127.0.0.1\""@);
        lemma_sets_pref_concat(b + r + u, l, "network.proxy.no_proxies_on"@, "\"localhost, 127.0.0.1\""@);
    }
    assert(sets_pref(b + r + u + l, "media.peerconnection.enabled"@, "false"@)) by {
        assert(b[6] == ("media.peerconnection.enabled"@, "false"@));
        assert forall|i: int| 0 <= i < b.len() && (#[trigger] b[i]).0 == "media.peerconnection.enabled"@ implies b[i].1 == "false"@ by {
            assert(0 <= i < 23);
        }
        assert forall|i: int| 0 <= i < r.len() implies (#[trigger] r[i]).0 != "media.peerconnection.enabled"@ by {
            assert(0 <= i < 5);
        }
        assert forall|i: int| 0 <= i < u.len() implies (#[trigger] u[i]).0 != "media.peerconnection.enabled"@ by {
            assert(i == 0);
        }
        assert forall|i: int| 0 <= i < l.len() implies (#[trigger] l[i]).0 != "media.peerconnection.enabled"@ by {
            assert(0 <= i < 2);
        }
        lemma_sets_pref_concat(b, r, "media.peerconnection.enabled"@, "false"@);
        lemma_sets_pref_concat(b + r, u, "media.peerconnection.enabled"@, "false"@);
        lemma_sets_pref_concat(b + r + u, l, "media.peerconnection.enabled"@, "false"@);
    }
    assert(sets_pref(b + r + u + l, "media.peerconnection.ice.no_host"@, "true"@)) by {
        assert(b[7] == ("media.peerconnection.ice.no_host"@, "true"@));
        assert forall|i: int| 0 <= i < b.len() && (#[trigger] b[i]).0 == "media.peerconnection.ice.no_host"@ implies b[i].1 == "true"@ by {
            assert(0 <= i < 23);
        }
        assert forall|i: int| 0 <= i < r.len() implies (#[trigger] r[i]).0 != "media.peerconnection.ice.no_host"@ by {
            assert(0 <= i < 5);
        }
        assert forall|i: int| 0 <= i < u.len() implies (#[trigger] u[i]).0 != "media.peerconnection.ice.no_host"@ by {
            assert(i == 0);
        }
        assert forall|i: int| 0 <= i < l.len() implies (#[trigger] l[i]).0 != "media.peerconnection.ice.no_host"@ by {
            assert(0 <= i < 2);
        }
        lemma_sets_pref_concat(b, r, "media.peerconnection.ice.no_host"@, "true"@);
        lemma_sets_pref_concat(b + r, u, "media.peerconnection.ice.no_host"@, "true"@);
        lemma_sets_pref_concat(b + r + u, l, "media.peerconnection.ice.no_host"@, "true"@);
    }
    assert(sets_pref(b + r + u + l, "media.peerconnection.ice.default_address_only"@, "true"@)) by {
        assert(b[8] == ("media.peerconnection.ice.default_address_only"@, "true"@));
        assert forall|i: int| 0 <= i < b.len() && (#[trigger] b[i]).0 == "media.peerconnection.ice.default_address_only"@ implies b[i].1 == "true"@ by {
            assert(0 <= i < 23);
        }
        assert forall|i: int| 0 <= i < r.len() implies (#[trigger] r[i]).0 != "media.peerconnection.ice.default_address_only"@ by {
            assert(0 <= i < 5);
        }
        assert forall|i: int| 0 <= i < u.len() implies (#[trigger] u[i]).0 != "media.peerconnection.ice.default_address_only"@ by {
            assert(i == 0);
        }
        assert forall|i: int| 0 <= i < l.len() implies (#[trigger] l[i]).0 != "media.peerconnection.ice.default_address_only"@ by {
            assert(0 <= i < 2);
        }
        lemma_sets_pref_concat(b, r, "media.peerconnection.ice.default_address_only"@, "true"@);
        lemma_sets_pref_concat(b + r, u, "media.peerconnection.ice.default_address_only"@, "true"@);
        lemma_sets_pref_concat(b + r + u, l, "media.peerconnection.ice.default_address_only"@, "true"@);
    }
    assert(sets_pref(b + r + u + l, "media.peerconnection.ice.proxy_only_if_behind_proxy"@, "true"@)) by {
        assert(b[9] == ("media.peerconnection.ice.proxy_only_if_behind_proxy"@, "true"@));
        assert forall|i: int| 0 <= i < b.len() && (#[trigger] b[i]).0 == "media.peerconnection.ice.proxy_only_if_behind_proxy"@ implies b[i].1 == "true"@ by {
            assert(0 <= i < 23);
        }
        assert forall|i: int| 0 <= i < r.len() implies (#[trigger] r[i]).0 != "media.peerconnection.ice.proxy_only_if_behind_proxy"@ by {
            assert(0 <= i < 5);
        }
        assert forall|i: int| 0 <= i < u.len() implies (#[trigger] u[i]).0 != "media.peerconnection.ice.proxy_only_if_behind_proxy"@ by {
            assert(i == 0);
        }
        assert forall|i: int| 0 <= i < l.len() implies (#[trigger] l[i]).0 != "media.peerconnection.ice.proxy_only_if_behind_proxy"@ by {
            assert(0 <= i < 2);
        }
        lemma_sets_pref_concat(b, r, "media.peerconnection.ice.proxy_only_if_behind_proxy"@, "true"@);
        lemma_sets_pref_concat(b + r, u, "media.peerconnection.ice.proxy_only_if_behind_proxy"@, "true"@);
        lemma_sets_pref_concat(b + r + u, l, "media.peerconnection.ice.proxy_only_if_behind_proxy"@, "true"@);
    }
    assert(sets_pref(b + r + u + l, "geo.enabled"@, "false"@)) by {
        assert(b[10] == ("geo.enabled"@, "false"@));
        assert forall|i: int| 0 <= i < b.len() && (#[trigger] b[i]).0 == "geo.enabled"@ implies b[i].1 == "false"@ by {
            assert(0 <= i < 23);
        }
        assert forall|i: int| 0 <= i < r.len() implies (#[trigger] r[i]).0 != "geo.enabled"@ by {
            assert(0 <= i < 5);
        }
        assert forall|i: int| 0 <= i < u.len() implies (#[trigger] u[i]).0 != "geo.enabled"@ by {
            assert(i == 0);
        }
        assert forall|i: int| 0 <= i < l.len() implies (#[trigger] l[i]).0 != "geo.enabled"@ by {
            assert(0 <= i < 2);
        }
        lemma_sets_pref_concat(b, r, "geo.enabled"@, "false"@);
        lemma_sets_pref_concat(b + r, u, "geo.enabled"@, "false"@);
        lemma_sets_pref_concat(b + r + u, l, "geo.enabled"@, "false"@);
    }
    assert(sets_pref(b + r + u + l, "geo.provider.use_corelocation"@, "false"@)) by {
        assert(b[11] == ("geo.provider.use_corelocation"@, "false"@));
        assert forall|i: int| 0 <= i < b.len() && (#[trigger] b[i]).0 == "geo.provider.use_corelocation"@ implies b[i].1 == "false"@ by {
            assert(0 <= i < 23);
        }
        assert forall|i: int| 0 <= i < r.len() implies (#[trigger] r[i]).0 != "geo.provider.use_corelocation"@ by {
            assert(0 <= i < 5);
        }
        assert forall|i: int| 0 <= i < u.len() implies (#[trigger] u[i]).0 != "geo.provider.use_corelocation"@ by {
            assert(i == 0);
        }
        assert forall|i: int| 0 <= i < l.len() implies (#[trigger] l[i]).0 != "geo.provider.use_corelocation"@ by {
            assert(0 <= i < 2);
        }
        lemma_sets_pref_concat(b, r, "geo.provider.use_corelocation"@, "false"@);
        lemma_sets_pref_concat(b + r, u, "geo.provider.use_corelocation"@, "false"@);
        lemma_sets_pref_concat(b + r + u, l, "geo.provider.use_corelocation"@, "false"@);
    }
    assert(sets_pref(b + r + u + l, "permissions.default.geo"@, "2"@)) by {
        assert(b[12] == ("permissions.default.geo"@, "2"@));
        assert forall|i: int| 0 <= i < b.len() && (#[trigger] b[i]).0 == "permissions.default.geo"@ implies b[i].1 == "2"@ by {
            assert(0 <= i < 23);
        }
        assert forall|i: int| 0 <= i < r.len() implies (#[trigger] r[i]).0 != "permissions.default.geo"@ by {
            assert(0 <= i < 5);
        }
        assert forall|i: int| 0 <= i < u.len() implies (#[trigger] u[i]).0 != "permissions.default.geo"@ by {
            assert(i == 0);
        }
        assert forall|i: int| 0 <= i < l.len() implies (#[trigger] l[i]).0 != "permissions.default.geo"@ by {
            assert(0 <= i < 2);
        }
        lemma_sets_pref_concat(b, r, "permissions.default.geo"@, "2"@);
        lemma_sets_pref_concat(b + r, u, "permissions.default.geo"@, "2"@);
        lemma_sets_pref_concat(b + r + u, l, "permissions.default.geo"@, "2"@);
    }
    assert(sets_pref(b + r + u + l, "dom.battery.enabled"@, "false"@)) by {
        assert(b[13] == ("dom.battery.enabled"@, "false"@));
        assert forall|i: int| 0 <= i < b.len() && (#[trigger] b[i]).0 == "dom.battery.enabled"@ implies b[i].1 == "false"@ by {
            assert(0 <= i < 23);
        }
        assert forall|i: int| 0 <= i < r.len() implies (#[trigger] r[i]).0 != "dom.battery.enabled"@ by {
            assert(0 <= i < 5);
        }
        assert forall|i: int| 0 <= i < u.len() implies (#[trigger] u[i]).0 != "dom.battery.enabled"@ by {
            assert(i == 0);
        }
        assert forall|i: int| 0 <= i < l.len() implies (#[trigger] l[i]).0 != "dom.battery.enabled"@ by {
            assert(0 <= i < 2);
        }
        lemma_sets_pref_concat(b, r, "dom.battery.enabled"@, "false"@);
        lemma_sets_pref_concat(b + r, u, "dom.battery.enabled"@, "false"@);
        lemma_sets_pref_concat(b + r + u, l, "dom.battery.enabled"@, "false"@);
    }
    assert(sets_pref(b + r + u + l, "layout.css.prefers-color-scheme.content-override"@, "1"@)) by {
        assert(b[14] == ("layout.css.prefers-color-scheme.content-override"@, "1"@));
        assert forall|i: int| 0 <= i < b.len() && (#[trigger] b[i]).0 == "layout.css.prefers-color-scheme.content-override"@ implies b[i].1 == "1"@ by {
            assert(0 <= i < 23);
        }
        assert forall|i: int| 0 <= i < r.len() implies (#[trigger] r[i]).0 != "layout.css.prefers-color-scheme.content-override"@ by {
            assert(0 <= i < 5);
        }
        assert forall|i: int| 0 <= i < u.len() implies (#[trigger] u[i]).0 != "layout.css.prefers-color-scheme.content-override"@ by {
            assert(i == 0);
        }
        assert forall|i: int| 0 <= i < l.len() implies (#[trigger] l[i]).0 != "layout.css.prefers-color-scheme.content-override"@ by {
            assert(0 <= i < 2);
        }
        lemma_sets_pref_concat(b, r, "layout.css.prefers-color-scheme.content-override"@, "1"@);
        lemma_sets_pref_concat(b + r, u, "layout.css.prefers-color-scheme.content-override"@, "1"@);
        lemma_sets_pref_concat(b + r + u, l, "layout.css.prefers-color-scheme.content-override"@, "1"@);
    }
    assert(sets_pref(b + r + u + l, "browser.startup.page"@, "3"@)) by {
        assert(b[15] == ("browser.startup.page"@, "3"@));
        assert forall|i: int| 0 <= i < b.len() && (#[trigger] b[i]).0 == "browser.startup.page"@ implies b[i].1 == "3"@ by {
            assert(0 <= i < 23);
        }
        assert forall|i: int| 0 <= i < r.len() implies (#[trigger] r[i]).0 != "browser.startup.page"@ by {
            assert(0 <= i < 5);
        }
        assert forall|i: int| 0 <= i < u.len() implies (#[trigger] u[i]).0 != "browser.startup.page"@ by {
            assert(i == 0);
        }
        assert forall|i: int| 0 <= i < l.len() implies (#[trigger] l[i]).0 != "browser.startup.page"@ by {
            assert(0 <= i < 2);
        }
        lemma_sets_pref_concat(b, r, "browser.startup.page"@, "3"@);
        lemma_sets_pref_concat(b + r, u, "browser.startup.page"@, "3"@);
        lemma_sets_pref_concat(b + r + u, l, "browser.startup.page"@, "3"@);
    }
    assert(sets_pref(b + r + u + l, "network.http.http3.enabled"@, "false"@)) by {
        assert(b[16] == ("network.http.http3.enabled"@, "false"@));
        assert forall|i: int| 0 <= i < b.len() && (#[trigger] b[i]).0 == "network.http.http3.enabled"@ implies b[i].1 == "false"@ by {
            assert(0 <= i < 23);
        }
        assert forall|i: int| 0 <= i < r.len() implies (#[trigger] r[i]).0 != "network.http.http3.enabled"@ by {
            assert(0 <= i < 5);
        }
        assert forall|i: int| 0 <= i < u.len() implies (#[trigger] u[i]).0 != "network.http.http3.enabled"@ by {
            assert(i == 0);
        }
        assert forall|i: int| 0 <= i < l.len() implies (#[trigger] l[i]).0 != "network.http.http3.enabled"@ by {
            assert(0 <= i < 2);
        }
        lemma_sets_pref_concat(b, r, "network.http.http3.enabled"@, "false"@);
        lemma_sets_pref_concat(b + r, u, "network.http.http3.enabled"@, "false"@);
        lemma_sets_pref_concat(b + r + u, l, "network.http.http3.enabled"@, "false"@);
    }
    assert(sets_pref(b + r + u + l, "network.http.http2.enabled"@, "true"@)) by {
        assert(b[17] == ("network.http.http2.enabled"@, "true"@));
        assert forall|i: int| 0 <= i < b.len() && (#[trigger] b[i]).0 == "network.http.http2.enabled"@ implies b[i].1 == "true"@ by {
            assert(0 <= i < 23);
        }
        assert forall|i: int| 0 <= i < r.len() implies (#[trigger] r[i]).0 != "network.http.http2.enabled"@ by {
            assert(0 <= i < 5);
        }
        assert forall|i: int| 0 <= i < u.len() implies (#[trigger] u[i]).0 != "network.http.http2.enabled"@ by {
            assert(i == 0);
        }
        assert forall|i: int| 0 <= i < l.len() implies (#[trigger] l[i]).0 != "network.http.http2.enabled"@ by {
            assert(0 <= i < 2);
        }
        lemma_sets_pref_concat(b, r, "network.http.http2.enabled"@, "true"@);
        lemma_sets_pref_concat(b + r, u, "network.http.http2.enabled"@, "true"@);
        lemma_sets_pref_concat(b + r + u, l, "network.http.http2.enabled"@, "true"@);
    }
    assert(sets_pref(b + r + u + l, "network.dns.disablePrefetch"@, "true"@)) by {
        assert(b[18] == ("network.dns.disablePrefetch"@, "true"@));
        assert forall|i: int| 0 <= i < b.len() && (#[trigger] b[i]).0 == "network.dns.disablePrefetch"@ implies b[i].1 == "true"@ by {
            assert(0 <= i < 23);
        }
        assert forall|i: int| 0 <= i < r.len() implies (#[trigger] r[i]).0 != "network.dns.disablePrefetch"@ by {
            assert(0 <= i < 5);
        }
        assert forall|i: int| 0 <= i < u.len() implies (#[trigger] u[i]).0 != "network.dns.disablePrefetch"@ by {
            assert(i == 0);
        }
        assert forall|i: int| 0 <= i < l.len() implies (#[trigger] l[i]).0 != "network.dns.disablePrefetch"@ by {
            assert(0 <= i < 2);
        }
        lemma_sets_pref_concat(b, r, "network.dns.disablePrefetch"@, "true"@);
        lemma_sets_pref_concat(b + r, u, "network.dns.disablePrefetch"@, "true"@);
        lemma_sets_pref_concat(b + r + u, l, "network.dns.disablePrefetch"@, "true"@);
    }
    assert(sets_pref(b + r + u + l, "network.dns.disablePrefetchFromHTTPS"@, "true"@)) by {
        assert(b[19] == ("network.dns.disablePrefetchFromHTTPS"@, "true"@));
        assert forall|i: int| 0 <= i < b.len() && (#[trigger] b[i]).0 == "network.dns.disablePrefetchFromHTTPS"@ implies b[i].1 == "true"@ by {
            assert(0 <= i < 23);
        }
        assert forall|i: int| 0 <= i < r.len() implies (#[trigger] r[i]).0 != "network.dns.disablePrefetchFromHTTPS"@ by {
            assert(0 <= i < 5);
        }
        assert forall|i: int| 0 <= i < u.len() implies (#[trigger] u[i]).0 != "network.dns.disablePrefetchFromHTTPS"@ by {
            assert(i == 0);
        }
        assert forall|i: int| 0 <= i < l.len() implies (#[trigger] l[i]).0 != "network.dns.disablePrefetchFromHTTPS"@ by {
            assert(0 <= i < 2);
        }
        lemma_sets_pref_concat(b, r, "network.dns.disablePrefetchFromHTTPS"@, "true"@);
        lemma_sets_pref_concat(b + r, u, "network.dns.disablePrefetchFromHTTPS"@, "true"@);
        lemma_sets_pref_concat(b + r + u, l, "network.dns.disablePrefetchFromHTTPS"@, "true"@);
    }
    assert(sets_pref(b + r + u + l, "network.prefetch-next"@, "false"@)) by {
        assert(b[20] == ("network.prefetch-next"@, "false"@));
        assert forall|i: int| 0 <= i < b.len() && (#[trigger] b[i]).0 == "network.prefetch-next"@ implies b[i].1 == "false"@ by {
            assert(0 <= i < 23);
        }
        assert forall|i: int| 0 <= i < r.len() implies (#[trigger] r[i]).0 != "network.prefetch-next"@ by {
            assert(0 <= i < 5);
        }
        assert forall|i: int| 0 <= i < u.len() implies (#[trigger] u[i]).0 != "network.prefetch-next"@ by {
            assert(i == 0);
        }
        assert forall|i: int| 0 <= i < l.len() implies (#[trigger] l[i]).0 != "network.prefetch-next"@ by {
            assert(0 <= i < 2);
        }
        lemma_sets_pref_concat(b, r, "network.prefetch-next"@, "false"@);
        lemma_sets_pref_concat(b + r, u, "network.prefetch-next"@, "false"@);
        lemma_sets_pref_concat(b + r + u, l, "network.prefetch-next"@, "false"@);
    }
    assert(sets_pref(b + r + u + l, "browser.send_pings"@, "false"@)) by {
        assert(b[21] == ("browser.send_pings"@, "false"@));
        assert forall|i: int| 0 <= i < b.len() && (#[trigger] b[i]).0 == "browser.send_pings"@ implies b[i].1 == "false"@ by {
            assert(0 <= i < 23);
        }
        assert forall|i: int| 0 <= i < r.len() implies (#[trigger] r[i]).0 != "browser.send_pings"@ by {
            assert(0 <= i < 5);
        }
        assert forall|i: int| 0 <= i < u.len() implies (#[trigger] u[i]).0 != "browser.send_pings"@ by {
            assert(i == 0);
        }
        assert forall|i: int| 0 <= i < l.len() implies (#[trigger] l[i]).0 != "browser.send_pings"@ by {
            assert(0 <= i < 2);
        }
        lemma_sets_pref_concat(b, r, "browser.send_pings"@, "false"@);
        lemma_sets_pref_concat(b + r, u, "browser.send_pings"@, "false"@);
        lemma_sets_pref_concat(b + r + u, l, "browser.send_pings"@, "false"@);
    }
    assert(sets_pref(b + r + u + l, "media.navigator.enabled"@, "false"@)) by {
        assert(b[22] == ("media.navigator.enabled"@, "false"@));
        assert forall|i: int| 0 <= i < b.len() && (#[trigger] b[i]).0 == "media.navigator.enabled"@ implies b[i].1 == "false"@ by {
            assert(0 <= i < 23);
        }
        assert forall|i: int| 0 <= i < r.len() implies (#[trigger] r[i]).0 != "media.navigator.enabled"@ by {
            assert(0 <= i < 5);
        }
        assert forall|i: int| 0 <= i < u.len() implies (#[trigger] u[i]).0 != "media.navigator.enabled"@ by {
            assert(i == 0);
        }
        assert forall|i: int| 0 <= i < l.len() implies (#[trigger] l[i]).0 != "media.navigator.enabled"@ by {
            assert(0 <= i < 2);
        }
        lemma_sets_pref_concat(b, r, "media.navigator.enabled"@, "false"@);
        lemma_sets_pref_concat(b + r, u, "media.navigator.enabled"@, "false"@);
        lemma_sets_pref_concat(b + r + u, l, "media.navigator.enabled"@, "false"@);
    }
    assert(sets_pref(b + r + u + l, "privacy.resistFingerprinting"@, (if rfp { "true"@ } else { "false"@ }))) by {
        assert forall|i: int| 0 <= i < b.len() implies (#[trigger] b[i]).0 != "privacy.resistFingerprinting"@ by {
            assert(0 <= i < 23);
        }
        assert(r[0] == ("privacy.resistFingerprinting"@, (if rfp { "true"@ } else { "false"@ })));
        assert forall|i: int| 0 <= i < r.len() && (#[trigger] r[i]).0 == "privacy.resistFingerprinting"@ implies r[i].1 == (if rfp { "true"@ } else { "false"@ }) by {
            assert(0 <= i < 5);
        }
        assert forall|i: int| 0 <= i < u.len() implies (#[trigger] u[i]).0 != "privacy.resistFingerprinting"@ by {
            assert(i == 0);
        }
        assert forall|i: int| 0 <= i < l.len() implies (#[trigger] l[i]).0 != "privacy.resistFingerprinting"@ by {
            assert(0 <= i < 2);
        }
        lemma_sets_pref_concat(b, r, "privacy.resistFingerprinting"@, (if rfp { "true"@ } else { "false"@ }));
        lemma_sets_pref_concat(b + r, u, "privacy.resistFingerprinting"@, (if rfp { "true"@ } else { "false"@ }));
        lemma_sets_pref_concat(b + r + u, l, "privacy.resistFingerprinting"@, (if rfp { "true"@ } else { "false"@ }));
    }
    assert(sets_pref(b + r + u + l, "privacy.resistFingerprinting.spoofOsAsWindows"@, (if rfp { "true"@ } else { "false"@ }))) by {
        assert forall|i: int| 0 <= i < b.len() implies (#[trigger] b[i]).0 != "privacy.resistFingerprinting.spoofOsAsWindows"@ by {
            assert(0 <= i < 23);
        }
        assert(r[1] == ("privacy.resistFingerprinting.spoofOsAsWindows"@, (if rfp { "true"@ } else { "false"@ })));
        assert forall|i: int| 0 <= i < r.len() && (#[trigger] r[i]).0 == "privacy.resistFingerprinting.spoofOsAsWindows"@ implies r[i].1 == (if rfp { "true"@ } else { "false"@ }) by {
            assert(0 <= i < 5);
        }
        assert forall|i: int| 0 <= i < u.len() implies (#[trigger] u[i]).0 != "privacy.resistFingerprinting.spoofOsAsWindows"@ by {
            assert(i == 0);
        }
        assert forall|i: int| 0 <= i < l.len() implies (#[trigger] l[i]).0 != "privacy.resistFingerprinting.spoofOsAsWindows"@ by {
            assert(0 <= i < 2);
        }
        lemma_sets_pref_concat(b, r, "privacy.resistFingerprinting.spoofOsAsWindows"@, (if rfp { "true"@ } else { "false"@ }));
        lemma_sets_pref_concat(b + r, u, "privacy.resistFingerprinting.spoofOsAsWindows"@, (if rfp { "true"@ } else { "false"@ }));
        lemma_sets_pref_concat(b + r + u, l, "privacy.resistFingerprinting.spoofOsAsWindows"@, (if rfp { "true"@ } else { "false"@ }));
    }
    assert(sets_pref(b + r + u + l, "privacy.fingerprintingProtection"@, (if rfp { "true"@ } else { "false"@ }))) by {
        assert forall|i: int| 0 <= i < b.len() implies (#[trigger] b[i]).0 != "privacy.fingerprintingProtection"@ by {
            assert(0 <= i < 23);
        }
        assert(r[2] == ("privacy.fingerprintingProtection"@, (if rfp { "true"@ } else { "false"@ })));
        assert forall|i: int| 0 <= i < r.len() && (#[trigger] r[i]).0 == "privacy.fingerprintingProtection"@ implies r[i].1 == (if rfp { "true"@ } else { "false"@ }) by {
            assert(0 <= i < 5);
        }
        assert forall|i: int| 0 <= i < u.len() implies (#[trigger] u[i]).0 != "privacy.fingerprintingProtection"@ by {
            assert(i == 0);
        }
        assert forall|i: int| 0 <= i < l.len() implies (#[trigger] l[i]).0 != "privacy.fingerprintingProtection"@ by {
            assert(0 <= i < 2);
        }
        lemma_sets_pref_concat(b, r, "privacy.fingerprintingProtection"@, (if rfp { "true"@ } else { "false"@ }));
        lemma_sets_pref_concat(b + r, u, "privacy.fingerprintingProtection"@, (if rfp { "true"@ } else { "false"@ }));
        lemma_sets_pref_concat(b + r + u, l, "privacy.fingerprintingProtection"@, (if rfp { "true"@ } else { "false"@ }));
    }
    assert(sets_pref(b + r + u + l, "privacy.fingerprintingProtection.overrides"@, "\"+AllTargets\""@)) by {
        assert forall|i: int| 0 <= i < b.len() implies (#[trigger] b[i]).0 != "privacy.fingerprintingProtection.overrides"@ by {
            assert(0 <= i < 23);
        }
        assert(r[3] == ("privacy.fingerprintingProtection.overrides"@, "\"+AllTargets\""@));
        assert forall|i: int| 0 <= i < r.len() && (#[trigger] r[i]).0 == "privacy.fingerprintingProtection.overrides"@ implies r[i].1 == "\"+AllTargets\""@ by {
            assert(0 <= i < 5);
        }
        assert forall|i: int| 0 <= i < u.len() implies (#[trigger] u[i]).0 != "privacy.fingerprintingProtection.overrides"@ by {
            assert(i == 0);
        }
        assert forall|i: int| 0 <= i < l.len() implies (#[trigger] l[i]).0 != "privacy.fingerprintingProtection.overrides"@ by {
            assert(0 <= i < 2);
        }
        lemma_sets_pref_concat(b, r, "privacy.fingerprintingProtection.overrides"@, "\"+AllTargets\""@);
        lemma_sets_pref_concat(b + r, u, "privacy.fingerprintingProtection.overrides"@, "\"+AllTargets\""@);
        lemma_sets_pref_concat(b + r + u, l, "privacy.fingerprintingProtection.overrides"@, "\"+AllTargets\""@);
    }
    assert(sets_pref(b + r + u + l, "dom.webaudio.enabled"@, (if rfp { "false"@ } else { "true"@ }))) by {
        assert forall|i: int| 0 <= i < b.len() implies (#[trigger] b[i]).0 != "dom.webaudio.enabled"@ by {
            assert(0 <= i < 23);
        }
        assert(r[4] == ("dom.webaudio.enabled"@, (if rfp { "false"@ } else { "true"@ })));
        assert forall|i: int| 0 <= i < r.len() && (#[trigger] r[i]).0 == "dom.webaudio.enabled"@ implies r[i].1 == (if rfp { "false"@ } else { "true"@ }) by {
            assert(0 <= i < 5);
        }
        assert forall|i: int| 0 <= i < u.len() implies (#[trigger] u[i]).0 != "dom.webaudio.enabled"@ by {
            assert(i == 0);
        }
        assert forall|i: int| 0 <= i < l.len() implies (#[trigger] l[i]).0 != "dom.webaudio.enabled"@ by {
            assert(0 <= i < 2);
        }
        lemma_sets_pref_concat(b, r, "dom.webaudio.enabled"@, (if rfp { "false"@ } else { "true"@ }));
        lemma_sets_pref_concat(b + r, u, "dom.webaudio.enabled"@, (if rfp { "false"@ } else { "true"@ }));
        lemma_sets_pref_concat(b + r + u, l, "dom.webaudio.enabled"@, (if rfp { "false"@ } else { "true"@ }));
    }
    if lang {
        assert(sets_pref(b + r + u + l, "intl.accept_languages"@, "\"en-US, en\""@)) by {
            assert forall|i: int| 0 <= i < b.len() implies (#[trigger] b[i]).0 != "intl.accept_languages"@ by {
                assert(0 <= i < 23);
            }
            assert forall|i: int| 0 <= i < r.len() implies (#[trigger] r[i]).0 != "intl.accept_languages"@ by {
                assert(0 <= i < 5);
            }
            assert forall|i: int| 0 <= i < u.len() implies (#[trigger] u[i]).0 != "intl.accept_languages"@ by {
                assert(i == 0);
            }
            assert(l[0] == ("intl.accept_languages"@, "\"en-US, en\""@));
            assert forall|i: int| 0 <= i < l.len() && (#[trigger] l[i]).0 == "intl.accept_languages"@ implies l[i].1 == "\"en-US, en\""@ by {
                assert(0 <= i < 2);
            }
            lemma_lacks_pref_concat(b, r, "intl.accept_languages"@);
            lemma_lacks_pref_concat(b + r, u, "intl.accept_languages"@);
            lemma_sets_pref_concat(b + r + u, l, "intl.accept_languages"@, "\"en-US, en\""@);
        }
    }
    if lang {
        assert(sets_pref(b + r + u + l, "javascript.use_us_english_locale"@, "true"@)) by {
            assert forall|i: int| 0 <= i < b.len() implies (#[trigger] b[i]).0 != "javascript.use_us_english_locale"@ by {
                assert(0 <= i < 23);
            }
            assert forall|i: int| 0 <= i < r.len() implies (#[trigger] r[i]).0 != "javascript.use_us_english_locale"@ by {
                assert(0 <= i < 5);
            }
            assert forall|i: int| 0 <= i < u.len() implies (#[trigger] u[i]).0 != "javascript.use_us_english_locale"@ by {
                assert(i == 0);
            }
            assert(l[1] == ("javascript.use_us_english_locale"@, "true"@));
            assert forall|i: int| 0 <= i < l.len() && (#[trigger] l[i]).0 == "javascript.use_us_english_locale"@ implies l[i].1 == "true"@ by {
                assert(0 <= i < 2);
            }
            lemma_lacks_pref_concat(b, r, "javascript.use_us_english_locale"@);
            lemma_lacks_pref_concat(b + r, u, "javascript.use_us_english_locale"@);
            lemma_sets_pref_concat(b + r + u, l, "javascript.use_us_english_locale"@, "true"@);
        }
    }
    assert(ua_value(ver) == "\"Mozilla/5.0 (Windows NT 10.0; Win64; x64; rv:"@ + major_part(ver) + ".0) Gecko/20100101 Firefox/"@ + ver + "\""@);
    if ua && !rfp {
        assert(sets_pref(b + r + u + l, "general.useragent.override"@, ua_value(ver))) by {
            assert forall|i: int| 0 <= i < b.len() implies (#[trigger] b[i]).0 != "general.useragent.override"@ by {
                assert(0 <= i < 23);
            }
            assert forall|i: int| 0 <= i < r.len() implies (#[trigger] r[i]).0 != "general.useragent.override"@ by {
                assert(0 <= i < 5);
            }
            assert(u[0] == ("general.useragent.override"@, ua_value(ver)));
            assert forall|i: int| 0 <= i < u.len() && (#[trigger] u[i]).0 == "general.useragent.override"@ implies u[i].1 == ua_value(ver) by {
                assert(i == 0);
            }
            assert forall|i: int| 0 <= i < l.len() implies (#[trigger] l[i]).0 != "general.useragent.override"@ by {
                assert(0 <= i < 2);
            }
            lemma_lacks_pref_concat(b, r, "general.useragent.override"@);
            lemma_sets_pref_concat(b + r, u, "general.useragent.override"@, ua_value(ver));
            lemma_sets_pref_concat(b + r + u, l, "general.useragent.override"@, ua_value(ver));
        }
    }
}

} // verus!

verus! {

/// What hardening writes into `prefs.js`, each set once: the light colour scheme,
/// fingerprinting resistance as chosen, the spoofed Windows User-Agent when spoofing is
/// on, and US English first when English is forced.
pub proof fn lemma_prefs_js_values(ua: bool, lang: bool, rfp: bool, ver: Seq<char>)
    ensures
        sets_pref(prefs_js_entries(ua, lang, rfp, ver), "layout.css.prefers-color-scheme.content-override"@, "1"@),
        sets_pref(prefs_js_entries(ua, lang, rfp, ver), "privacy.resistFingerprinting"@, (if rfp { "true"@ } else { "false"@ })),
        ua ==> sets_pref(prefs_js_entries(ua, lang, rfp, ver), "general.useragent.override"@, "\"Mozilla/5.0 (Windows NT 10.0; Win64; x64; rv:"@ + major_part(ver) + ".0) Gecko/20100101 Firefox/"@ + ver + "\""@),
        lang ==> sets_pref(prefs_js_entries(ua, lang, rfp, ver), "intl.accept_languages"@, "\"en-US, en\""@),
{
    reveal_strlit("layout.css.prefers-color-scheme.content-override");
    reveal_strlit("privacy.resistFingerprinting");
    reveal_strlit("general.useragent.override");
    reveal_strlit("intl.accept_languages");
    assert("layout.css.prefers-color-scheme.content-override"@.len() == 48);
    assert("privacy.resistFingerprinting"@.len() == 28);
    assert("general.useragent.override"@.len() == 26);
    assert("intl.accept_languages"@.len() == 21);
    let a: Seq<(Seq<char>, Seq<char>)> = seq![color_pref("1"@), ("privacy.resistFingerprinting"@, bool_text(rfp))];
    let u: Seq<(Seq<char>, Seq<char>)> = if ua { seq![ua_pref(ver)] } else { seq![] };
    let l: Seq<(Seq<char>, Seq<char>)> = if lang { seq![accept_language_pref()] } else { seq![] };
    assert(prefs_js_entries(ua, lang, rfp, ver) == a + u + l);
    assert(bool_text(rfp) == (if rfp { "true"@ } else { "false"@ }));
    assert(ua_value(ver) == "\"Mozilla/5.0 (Windows NT 10.0; Win64; x64; rv:"@ + major_part(ver) + ".0) Gecko/20100101 Firefox/"@ + ver + "\""@);
    assert(sets_pref(a + u + l, "layout.css.prefers-color-scheme.content-override"@, "1"@)) by {
        assert(a[0] == ("layout.css.prefers-color-scheme.content-override"@, "1"@));
        assert forall|i: int| 0 <= i < a.len() && (#[trigger] a[i]).0 == "layout.css.prefers-color-scheme.content-override"@ implies a[i].1 == "1"@ by {
            assert(0 <= i < 2);
        }
        assert forall|i: int| 0 <= i < u.len() implies (#[trigger] u[i]).0 != "layout.css.prefers-color-scheme.content-override"@ by {
            assert(i == 0);
        }
        assert forall|i: int| 0 <= i < l.len() implies (#[trigger] l[i]).0 != "layout.css.prefers-color-scheme.content-override"@ by {
            assert(i == 0);
        }
        lemma_sets_pref_concat(a, u, "layout.css.prefers-color-scheme.content-override"@, "1"@);
        lemma_sets_pref_concat(a + u, l, "layout.css.prefers-color-scheme.content-override"@, "1"@);
    }
    assert(sets_pref(a + u + l, "privacy.resistFingerprinting"@, (if rfp { "true"@ } else { "false"@ }))) by {
        assert(a[1] == ("privacy.resistFingerprinting"@, (if rfp { "true"@ } else { "false"@ })));
        assert forall|i: int| 0 <= i < a.len() && (#[trigger] a[i]).0 == "privacy.resistFingerprinting"@ implies a[i].1 == (if rfp { "true"@ } else { "false"@ }) by {
            assert(0 <= i < 2);
        }
        assert forall|i: int| 0 <= i < u.len() implies (#[trigger] u[i]).0 != "privacy.resistFingerprinting"@ by {
            assert(i == 0);
        }
        assert forall|i: int| 0 <= i < l.len() implies (#[trigger] l[i]).0 != "privacy.resistFingerprinting"@ by {
            assert(i == 0);
        }
        lemma_sets_pref_concat(a, u, "privacy.resistFingerprinting"@, (if rfp { "true"@ } else { "false"@ }));
        lemma_sets_pref_concat(a + u, l, "privacy.resistFingerprinting"@, (if rfp { "true"@ } else { "false"@ }));
    }
    if ua {
        assert(sets_pref(a + u + l, "general.useragent.override"@, ua_value(ver))) by {
            assert forall|i: int| 0 <= i < a.len() implies (#[trigger] a[i]).0 != "general.useragent.override"@ by {
                assert(0 <= i < 2);
            }
            assert(u[0] == ("general.useragent.override"@, ua_value(ver)));
            assert forall|i: int| 0 <= i < u.len() && (#[trigger] u[i]).0 == "general.useragent.override"@ implies u[i].1 == ua_value(ver) by {
                assert(i == 0);
            }
            assert forall|i: int| 0 <= i < l.len() implies (#[trigger] l[i]).0 != "general.useragent.override"@ by {
                assert(i == 0);
            }
            lemma_sets_pref_concat(a, u, "general.useragent.override"@, ua_value(ver));
            lemma_sets_pref_concat(a + u, l, "general.useragent.override"@, ua_value(ver));
        }
    }
    if lang {
        assert(sets_pref(a + u + l, "intl.accept_languages"@, "\"en-US, en\""@)) by {
            assert forall|i: int| 0 <= i < a.len() implies (#[trigger] a[i]).0 != "intl.accept_languages"@ by {
                assert(0 <= i < 2);
            }
            assert forall|i: int| 0 <= i < u.len() implies (#[trigger] u[i]).0 != "intl.accept_languages"@ by {
                assert(i == 0);
            }
            assert(l[0] == ("intl.accept_languages"@, "\"en-US, en\""@));
            assert forall|i: int| 0 <= i < l.len() && (#[trigger] l[i]).0 == "intl.accept_languages"@ implies l[i].1 == "\"en-US, en\""@ by {
                assert(i == 0);
            }
            lemma_lacks_pref_concat(a, u, "intl.accept_languages"@);
            lemma_sets_pref_concat(a + u, l, "intl.accept_languages"@, "\"en-US, en\""@);
        }
    }
}

} // verus!
