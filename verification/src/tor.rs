use vstd::prelude::*;
use vstd::string::StringSliceAdditionalSpecFns;
use crate::config::{Config, excluded_nodes_text};
use crate::helper::{Action, ActionView, action_views, push_action, sh, str_views, string_views, opt_view};
use crate::text::{owned, chars_of, string_of, trim, trim_chars, starts_with, starts_with_chars, contains, contains_chars, find, find_from_chars, words, words_of, views, lemma_find, append_chars};
use crate::hex::{hex_lower, hex_encode, hex_decoded, hex_decode};
use crate::crypto::{hmac_sha256, hmac_tag, hmac_verify};

verus! {

/// Tor's configuration: SOCKS on 9050, control port 9051 with cookie authentication,
/// DNS on 9053, circuits renewed every ten minutes, and the excluded exit countries
/// (strictly) when there are any.
pub open spec fn torrc_text(dir: Seq<char>, c: Config) -> Seq<char> {
    let excluded = excluded_nodes_text(c);
    "SocksPort 9050\nControlPort 9051\nCookieAuthentication 1\nCookieAuthFile "@ + dir
        + "/tor_data/control_auth/control_auth_cookie\nDataDirectory "@ + dir + "/tor_data\nLog notice file "@
        + dir + "/tor.log\nDNSPort 9053\nMaxCircuitDirtiness 600\n"@ + (if excluded.len() == 0 {
        Seq::empty()
    } else {
        "ExcludeExitNodes "@ + excluded + "\nStrictNodes 1\n"@
    })
}

/// The contents of `torrc` for TorShield's directory and the settings.
pub fn torrc(dir: &str, cfg: &Config) -> (r: String)
    ensures
        r@ == torrc_text(dir@, *cfg),
{
    let excluded = cfg.excluded_nodes();
    let mut r = owned("SocksPort 9050\nControlPort 9051\nCookieAuthentication 1\nCookieAuthFile ");
    r.append(dir);
    r.append("/tor_data/control_auth/control_auth_cookie\nDataDirectory ");
    r.append(dir);
    r.append("/tor_data\nLog notice file ");
    r.append(dir);
    r.append("/tor.log\nDNSPort 9053\nMaxCircuitDirtiness 600\n");
    if !excluded.as_str().is_empty() {
        r.append("ExcludeExitNodes ");
        r.append(excluded.as_str());
        r.append("\nStrictNodes 1\n");
    }
    r
}

/// Starting Tor: create its data and cookie directory, write `torrc` readable by the
/// owner only, and (when a tor binary was found) start it as a daemon with a pid file.
pub open spec fn start_tor_plan(dir: Seq<char>, c: Config, tor: Option<Seq<char>>) -> Seq<ActionView> {
    let conf = dir + "/torrc"@;
    let prep = seq![
        ActionView::CreateDir(dir + "/tor_data/control_auth"@),
        ActionView::WriteFile(conf, torrc_text(dir, c)),
        ActionView::SetMode(conf, 0o600),
    ];
    match tor {
        None => prep,
        Some(t) => prep + seq![
            ActionView::Spawn(t, seq!["-f"@, conf, "--PidFile"@, dir + "/tor.pid"@, "--RunAsDaemon"@, "1"@]),
        ],
    }
}

fn in_dir(dir: &str, name: &str) -> (r: String)
    ensures
        r@ == dir@ + name@,
{
    let mut r = owned(dir);
    r.append(name);
    r
}

/// The steps that start Tor with the given settings (`tor` is the binary found, if any).
pub fn start_tor(dir: &str, cfg: &Config, tor: Option<&str>) -> (r: Vec<Action>)
    ensures
        action_views(r@) == start_tor_plan(dir@, *cfg, opt_view(tor)),
{
    let mut plan: Vec<Action> = Vec::new();
    push_action(&mut plan, Action::CreateDir(in_dir(dir, "/tor_data/control_auth")));
    push_action(&mut plan, Action::WriteFile(in_dir(dir, "/torrc"), torrc(dir, cfg)));
    push_action(&mut plan, Action::SetMode(in_dir(dir, "/torrc"), 0o600));
    match tor {
        None => {},
        Some(t) => {
            let conf = in_dir(dir, "/torrc");
            let pid = in_dir(dir, "/tor.pid");
            let a = [ "-f", conf.as_str(), "--PidFile", pid.as_str(), "--RunAsDaemon", "1" ];
            push_action(&mut plan, Action::Spawn(sh(t, &a)));
            assert(str_views(a@) =~= seq!["-f"@, conf@, "--PidFile"@, pid@, "--RunAsDaemon"@, "1"@]);
        },
    }
    assert(action_views(plan@) =~= start_tor_plan(dir@, *cfg, opt_view(tor)));
    plan
}

/// A tor binary named by `which`: its trimmed output when that is an absolute path.
pub open spec fn which_tor_text(out: Seq<char>) -> Option<Seq<char>> {
    let t = trim(out);
    if starts_with(t, "/"@) {
        Some(t)
    } else {
        None
    }
}

/// The candidate from `which tor`'s output, to be used if it exists.
pub fn which_tor(out: &[u8]) -> (r: Option<String>)
    ensures
        r matches Some(s) ==> crate::text::output_text(out@) matches Some(t) && which_tor_text(t) == Some(s@),
        r is None ==> (crate::text::output_text(out@) matches Some(t) ==> which_tor_text(t) is None),
{
    match crate::text::output_chars(out) {
        None => None,
        Some(v) => {
            let t = trim_chars(&v);
            if starts_with_chars(&t, &chars_of("/")) {
                Some(string_of(&t))
            } else {
                None
            }
        },
    }
}

} // verus!

verus! {

pub open spec fn is_digit(c: char) -> bool {
    '0' <= c && c <= '9'
}

/// The value of a run of decimal digits (`None` if any character is not a digit).
pub open spec fn decimal(d: Seq<char>) -> Option<nat>
    decreases d.len(),
{
    if d.len() == 0 {
        Some(0)
    } else {
        match decimal(d.drop_last()) {
            Some(v) => if is_digit(d.last()) {
                Some(v * 10 + ((d.last() as u32) - 48) as nat)
            } else {
                None
            },
            None => None,
        }
    }
}

/// `u32::from_str`: an optional `+`, then at least one decimal digit, with a value
/// that fits in 32 bits.
pub open spec fn parse_u32(s: Seq<char>) -> Option<u32> {
    if s.len() == 0 {
        None
    } else {
        let d = if s[0] == '+' { s.drop_first() } else { s };
        if d.len() == 0 {
            None
        } else {
            match decimal(d) {
                Some(v) => if v <= u32::MAX {
                    Some(v as u32)
                } else {
                    None
                },
                None => None,
            }
        }
    }
}

proof fn lemma_decimal_grows(d: Seq<char>, k: int)
    requires
        0 <= k <= d.len(),
        decimal(d) is Some,
    ensures
        decimal(d.take(k)) is Some,
        decimal(d.take(k))->0 <= decimal(d)->0,
    decreases d.len() - k,
{
    if k == d.len() {
        assert(d.take(k) =~= d);
    } else {
        lemma_decimal_grows(d, k + 1);
        assert(d.take(k + 1).drop_last() =~= d.take(k));
    }
}

fn parse_u32_chars(s: &[char]) -> (r: Option<u32>)
    ensures
        r == parse_u32(s@),
{
    if s.len() == 0 {
        return None;
    }
    let start: usize = if s[0] == '+' { 1 } else { 0 };
    let ghost d = if s@[0] == '+' { s@.drop_first() } else { s@ };
    assert(d =~= s@.skip(start as int));
    if start == s.len() {
        return None;
    }
    let mut v: u64 = 0;
    let mut i = start;
    while i < s.len()
        invariant
            start <= i <= s@.len(),
            s@.len() > 0,
            start < s@.len(),
            d == (if s@[0] == '+' { s@.drop_first() } else { s@ }),
            d == s@.skip(start as int),
            decimal(d.take(i - start)) == Some(v as nat),
            v <= u32::MAX,
        decreases s@.len() - i,
    {
        let c = s[i];
        assert(d.take(i - start + 1).drop_last() =~= d.take(i - start));
        assert(d.take(i - start + 1).last() == c);
        if !('0' <= c && c <= '9') {
            assert(decimal(d.take(i - start + 1)) is None);
            proof {
                if decimal(d) is Some {
                    lemma_decimal_grows(d, i - start + 1);
                }
            }
            return None;
        }
        let digit = (c as u32 - 48) as u64;
        v = v * 10 + digit;
        if v > 0xffff_ffffu64 {
            assert(decimal(d.take(i - start + 1)) == Some(v as nat));
            proof {
                if decimal(d) is Some {
                    lemma_decimal_grows(d, i - start + 1);
                }
            }
            return None;
        }
        i += 1;
    }
    assert(d.take(s@.len() - start) =~= d);
    Some(v as u32)
}

/// Tor's pid, from the contents of its pid file (`None` when unreadable or not a number).
pub fn tor_pid(contents: Option<&str>) -> (r: Option<u32>)
    ensures
        r == match contents {
            Some(s) => parse_u32(trim(s@)),
            None => None,
        },
{
    match contents {
        None => None,
        Some(s) => parse_u32_chars(&trim_chars(&chars_of(s))),
    }
}

/// The public address answered by the echo service or by `ipconfig`, trimmed, if
/// there is one.
pub open spec fn ip_text(s: Seq<char>) -> Option<Seq<char>> {
    if trim(s).len() == 0 {
        None
    } else {
        Some(trim(s))
    }
}

pub fn ip_from_text(s: &str) -> (r: Option<String>)
    ensures
        r matches Some(ip) ==> ip_text(s@) == Some(ip@),
        r is None ==> ip_text(s@) is None,
{
    let t = trim_chars(&chars_of(s));
    if t.len() == 0 {
        None
    } else {
        Some(string_of(&t))
    }
}

/// The address `ipconfig getifaddr` printed (`None` when it did not run or printed no
/// UTF-8 text or nothing).
pub fn local_real_ip(out: Option<&[u8]>) -> (r: Option<String>)
    ensures
        r matches Some(ip) ==> crate::helper::bytes_view(out) matches Some(b)
            && crate::text::output_text(b) matches Some(t) && ip_text(t) == Some(ip@),
        r is None ==> (crate::helper::bytes_view(out) matches Some(b) ==> (crate::text::output_text(b) matches Some(t)
            ==> ip_text(t) is None)),
{
    match out {
        None => None,
        Some(b) => match crate::text::output_chars(b) {
            None => None,
            Some(v) => {
                let s = string_of(&v);
                ip_from_text(s.as_str())
            },
        },
    }
}

} // verus!

verus! {

/// The text of the `key=...` field in a reply line, as `split(key).nth(1)` then the first
/// whitespace-separated word yields it (empty when missing).
pub open spec fn field_value(s: Seq<char>, key: Seq<char>) -> Seq<char> {
    match find(s, key) {
        None => Seq::empty(),
        Some(i) => {
            let rest = s.skip(i + key.len());
            let piece = match find(rest, key) {
                Some(j) => rest.take(j),
                None => rest,
            };
            let w = words(piece);
            if w.len() == 0 {
                Seq::empty()
            } else {
                w[0]
            }
        },
    }
}

fn field_value_chars(s: &[char], key: &[char]) -> (r: Vec<char>)
    ensures
        r@ == field_value(s@, key@),
{
    proof {
        lemma_find(s@, key@);
    }
    match find_from_chars(s, key, 0) {
        None => Vec::new(),
        Some(i) => {
            assert(crate::text::occurs_at(s@, key@, i as int));
            assert(i + key.len() <= s.len());
            let rest = crate::text::slice_chars(s, i + key.len(), s.len());
            assert(rest@ =~= s@.skip(i + key@.len()));
            let piece = match find_from_chars(&rest, key, 0) {
                Some(j) => {
                    proof {
                        lemma_find(rest@, key@);
                    }
                    let p = crate::text::slice_chars(&rest, 0, j);
                    assert(p@ =~= rest@.take(j as int));
                    p
                },
                None => rest,
            };
            let w = words_of(&piece);
            if w.len() == 0 {
                Vec::new()
            } else {
                assert(views(w@)[0] == w@[0]@);
                w[0].clone()
            }
        },
    }
}

/// What the controller learns from Tor's `AUTHCHALLENGE` reply: the server hash and
/// server nonce, when the reply starts with `250 AUTHCHALLENGE` and both decode to 32
/// bytes.
pub open spec fn authchallenge_reply(line: Seq<char>) -> Option<(Seq<u8>, Seq<u8>)> {
    if !starts_with(line, "250 AUTHCHALLENGE"@) {
        None
    } else {
        match (hex_decoded(field_value(line, "SERVERHASH="@)), hex_decoded(field_value(line, "SERVERNONCE="@))) {
            (Some(h), Some(n)) => if h.len() == 32 && n.len() == 32 {
                Some((h, n))
            } else {
                None
            },
            _ => None,
        }
    }
}

/// The server hash and server nonce from the bytes Tor answered to `AUTHCHALLENGE`.
pub fn parse_authchallenge(reply: &[u8]) -> (r: Option<(Vec<u8>, Vec<u8>)>)
    ensures
        r matches Some(p) ==> crate::text::output_text(reply@) matches Some(t) && authchallenge_reply(t)
            == Some((p.0@, p.1@)),
        r is None ==> (crate::text::output_text(reply@) matches Some(t) ==> authchallenge_reply(t) is None),
{
    let line = match crate::text::output_chars(reply) {
        Some(v) => v,
        None => {
            return None;
        },
    };
    if !starts_with_chars(&line, &chars_of("250 AUTHCHALLENGE")) {
        return None;
    }
    let hash_hex = string_of(&field_value_chars(&line, &chars_of("SERVERHASH=")));
    let nonce_hex = string_of(&field_value_chars(&line, &chars_of("SERVERNONCE=")));
    let hash = match hex_decode(hash_hex.as_str()) {
        Some(h) if h.len() == 32 => h,
        _ => {
            return None;
        },
    };
    let nonce = match hex_decode(nonce_hex.as_str()) {
        Some(n) if n.len() == 32 => n,
        _ => {
            return None;
        },
    };
    Some((hash, nonce))
}

/// `AUTHCHALLENGE SAFECOOKIE <client nonce in hex>\r\n`.
pub open spec fn authchallenge_text(client_nonce: Seq<u8>) -> Seq<char> {
    "AUTHCHALLENGE SAFECOOKIE "@ + hex_lower(client_nonce) + "\r\n"@
}

pub fn authchallenge_command(client_nonce: &[u8]) -> (r: String)
    ensures
        r@ == authchallenge_text(client_nonce@),
{
    let mut r = owned("AUTHCHALLENGE SAFECOOKIE ");
    r.append(string_of(&hex_encode(client_nonce)).as_str());
    r.append("\r\n");
    r
}

/// The key Tor uses to prove it knows the cookie.
pub open spec fn server_to_controller_key() -> Seq<u8> {
    vstd::utf8::encode_utf8("Tor safe cookie authentication server-to-controller hash"@)
}

/// The key the controller uses to prove it knows the cookie.
pub open spec fn controller_to_server_key() -> Seq<u8> {
    vstd::utf8::encode_utf8("Tor safe cookie authentication controller-to-server hash"@)
}

/// The SAFECOOKIE answer: only if Tor's hash over cookie, client nonce and server nonce
/// is the expected one, authenticate with the controller's hash over the same bytes,
/// ask for a new identity and quit.
pub open spec fn safecookie_answer(cookie: Seq<u8>, client_nonce: Seq<u8>, server_hash: Seq<u8>, server_nonce: Seq<u8>) -> Option<Seq<char>> {
    let msg = cookie + client_nonce + server_nonce;
    if server_hash != hmac_sha256(server_to_controller_key(), msg) {
        None
    } else {
        Some(authenticate_text(hmac_sha256(controller_to_server_key(), msg)))
    }
}

fn concat_bytes(a: &[u8], b: &[u8], c: &[u8]) -> (r: Vec<u8>)
    ensures
        r@ == a@ + b@ + c@,
{
    let mut r: Vec<u8> = Vec::new();
    let parts = [a, b, c];
    let mut k: usize = 0;
    while k < 3
        invariant
            0 <= k <= 3,
            parts@ == seq![a, b, c],
            r@ == (if k == 0 { Seq::<u8>::empty() } else if k == 1 { a@ } else if k == 2 { a@ + b@ } else { a@ + b@ + c@ }),
        decreases 3 - k,
    {
        let p = parts[k];
        let n = p.len();
        let ghost start = r@;
        for i in 0..n
            invariant
                n == p@.len(),
                r@ == start + p@.take(i as int),
        {
            r.push(p[i]);
            assert(start + p@.take(i + 1) =~= (start + p@.take(i as int)).push(p@[i as int]));
        }
        assert(p@.take(n as int) =~= p@);
        k += 1;
    }
    r
}

/// The controller's final message for its hash over cookie and nonces.
pub open spec fn authenticate_text(controller_hash: Seq<u8>) -> Seq<char> {
    "AUTHENTICATE "@ + hex_lower(controller_hash) + "\r\nSIGNAL NEWNYM\r\nQUIT\r\n"@
}

/// `AUTHENTICATE <hash in hex>`, then a request for a new identity, then `QUIT`.
pub fn authenticate_command(controller_hash: &[u8]) -> (r: String)
    ensures
        r@ == authenticate_text(controller_hash@),
{
    let mut r = owned("AUTHENTICATE ");
    r.append(string_of(&hex_encode(controller_hash)).as_str());
    r.append("\r\nSIGNAL NEWNYM\r\nQUIT\r\n");
    r
}

/// The answer to Tor's challenge, or `None` when Tor did not prove it knows the cookie.
pub fn safecookie_authenticate(cookie: &[u8], client_nonce: &[u8], server_hash: &[u8], server_nonce: &[u8]) -> (r: Option<String>)
    ensures
        r matches Some(s) ==> safecookie_answer(cookie@, client_nonce@, server_hash@, server_nonce@) == Some(s@),
        r is None ==> safecookie_answer(cookie@, client_nonce@, server_hash@, server_nonce@) is None,
{
    let msg = concat_bytes(cookie, client_nonce, server_nonce);
    let srv_key = "Tor safe cookie authentication server-to-controller hash".as_bytes();
    if !hmac_verify(srv_key, &msg, server_hash) {
        return None;
    }
    let ctrl_key = "Tor safe cookie authentication controller-to-server hash".as_bytes();
    let tag = hmac_tag(ctrl_key, &msg);
    Some(authenticate_command(&tag))
}

/// Tor granted the new identity when its final answer contains `250 OK`.
pub fn newnym_accepted(response: &str) -> (r: bool)
    ensures
        r == contains(response@, "250 OK"@),
{
    contains_chars(&chars_of(response), &chars_of("250 OK"))
}

/// The control cookie is usable only when it is exactly 32 bytes.
pub fn cookie_usable(cookie: Option<&[u8]>) -> (r: bool)
    ensures
        r == (cookie matches Some(c) && c@.len() == 32),
{
    match cookie {
        Some(c) => c.len() == 32,
        None => false,
    }
}

/// A fresh 32-byte client nonce, or `None` when the random source fails.
pub fn client_nonce() -> (r: Option<Vec<u8>>)
    ensures
        r matches Some(n) ==> n@.len() == 32,
{
    crate::crypto::rand_bytes(32)
}

} // verus!

verus! {

/// The decimal text of `n` (`n.to_string()`).
pub open spec fn decimal_text(n: u32) -> Seq<char>
    decreases n,
{
    if n < 10 {
        seq![((n + 48) as u8) as char]
    } else {
        decimal_text(n / 10).push((((n % 10) + 48) as u8) as char)
    }
}

/// The decimal text of `n`.
pub fn u32_text(n: u32) -> (r: Vec<char>)
    ensures
        r@ == decimal_text(n),
    decreases n,
{
    if n < 10 {
        vec![((n + 48) as u8) as char]
    } else {
        let mut v = u32_text(n / 10);
        v.push((((n % 10) + 48) as u8) as char);
        v
    }
}

proof fn lemma_decimal_text_value(n: u32)
    ensures
        decimal(decimal_text(n)) == Some(n as nat),
        decimal_text(n).len() > 0,
        decimal_text(n)[0] != '+',
    decreases n,
{
    let c = (((n % 10) + 48) as u8) as char;
    assert((c as u32) == n % 10 + 48);
    assert(is_digit(c));
    if n < 10 {
        let s = decimal_text(n);
        assert(s.drop_last() =~= Seq::<char>::empty());
        assert(s.last() == c);
        assert(decimal(s.drop_last()) == Some(0nat));
    } else {
        lemma_decimal_text_value(n / 10);
        let s = decimal_text(n);
        assert(s.drop_last() =~= decimal_text(n / 10));
        assert(s.last() == c);
        assert(s[0] == decimal_text(n / 10)[0]);
        assert((n / 10) as nat * 10 + (n % 10) as nat == n as nat);
    }
}

/// A pid written in decimal reads back as the same pid.
pub proof fn lemma_pid_round_trip(n: u32)
    ensures
        parse_u32(decimal_text(n)) == Some(n),
{
    lemma_decimal_text_value(n);
}

/// Stopping Tor: signal the recorded pid, if any.
pub fn stop_tor_kill(pid: Option<u32>) -> (r: Vec<Action>)
    ensures
        pid is None ==> action_views(r@) == Seq::<ActionView>::empty(),
        pid matches Some(p) ==> action_views(r@) == seq![crate::helper::run("/bin/kill"@, seq![decimal_text(p)])],
{
    let mut plan: Vec<Action> = Vec::new();
    match pid {
        None => {
            assert(action_views(plan@) =~= Seq::<ActionView>::empty());
        },
        Some(p) => {
            let t = string_of(&u32_text(p));
            let a = [ t.as_str() ];
            crate::helper::push_run(&mut plan, "/bin/kill", &a);
            assert(str_views(a@) =~= seq![decimal_text(p)]);
            assert(action_views(plan@) =~= seq![crate::helper::run("/bin/kill"@, seq![decimal_text(p)])]);
        },
    }
    plan
}

/// After signalling Tor, keep polling its pid file (every 100 ms) while it is still
/// there, for at most 30 polls.
pub fn stop_tor_keep_waiting(pid_present: bool, polls: u32) -> (r: bool)
    ensures
        r == (pid_present && polls < 30),
{
    pid_present && polls < 30
}

/// Finally the pid file is removed.
pub fn stop_tor_finish(dir: &str) -> (r: Action)
    ensures
        r@ == ActionView::RemoveFile(dir@ + "/tor.pid"@),
{
    Action::RemoveFile(in_dir(dir, "/tor.pid"))
}

} // verus!

verus! {

/// Tor's answer to `AUTHCHALLENGE`: its hash and nonce in hexadecimal.
pub open spec fn challenge_reply_text(hash: Seq<u8>, nonce: Seq<u8>) -> Seq<char> {
    "250 AUTHCHALLENGE SERVERHASH="@ + hex_lower(hash) + " SERVERNONCE="@ + hex_lower(nonce) + "\r\n"@
}

/// What Tor answers to the challenge is what the controller reads: the hash and the
/// nonce of a well-formed reply come back byte for byte.
pub proof fn lemma_authchallenge_reply_read(hash: Seq<u8>, nonce: Seq<u8>)
    requires
        hash.len() == 32,
        nonce.len() == 32,
    ensures
        authchallenge_reply(challenge_reply_text(hash, nonce)) == Some((hash, nonce)),
{
    reveal_strlit("250 AUTHCHALLENGE SERVERHASH=");
    reveal_strlit(" SERVERNONCE=");
    reveal_strlit("\r\n");
    reveal_strlit("250 AUTHCHALLENGE");
    reveal_strlit("SERVERHASH=");
    reveal_strlit("SERVERNONCE=");
    let a = "250 AUTHCHALLENGE SERVERHASH="@;
    let hh = hex_lower(hash);
    let b = " SERVERNONCE="@;
    let nn = hex_lower(nonce);
    let c = "\r\n"@;
    let line = challenge_reply_text(hash, nonce);
    crate::hex::lemma_hex_lower_len(hash);
    crate::hex::lemma_hex_lower_len(nonce);
    crate::hex::lemma_hex_lower_chars(hash);
    crate::hex::lemma_hex_lower_chars(nonce);
    crate::hex::lemma_hex_round_trip(hash);
    crate::hex::lemma_hex_round_trip(nonce);
    assert(line.len() == 172);
    assert(starts_with(line, "250 AUTHCHALLENGE"@)) by {
        assert(line.subrange(0, 17) =~= "250 AUTHCHALLENGE"@);
    }
    // The hash field.
    let k1 = "SERVERHASH="@;
    assert(crate::text::occurs_at(line, k1, 18)) by {
        assert(line.subrange(18, 29) =~= k1);
    }
    assert forall|k: int| 0 <= k < 18 implies !crate::text::occurs_at(line, k1, k) by {
        assert(line[k] == a[k]);
        crate::text::lemma_not_at_differs(line, k1, k, 0);
    }
    crate::text::lemma_find_first(line, k1, 18);
    let rest1 = line.skip(29);
    assert(rest1 =~= hh + b + nn + c);
    assert forall|k: int| 0 <= k implies !crate::text::occurs_at(rest1, k1, k) by {
        if k + 11 <= rest1.len() {
            if k < 64 {
                assert(rest1[k] == hh[k]);
                crate::text::lemma_not_at_differs(rest1, k1, k, 0);
            } else if k == 64 {
                crate::text::lemma_not_at_differs(rest1, k1, k, 0);
            } else if k == 65 {
                assert(rest1[71] == 'N');
                crate::text::lemma_not_at_differs(rest1, k1, k, 6);
            } else if k < 77 {
                assert(rest1[k] == b[k - 64]);
                crate::text::lemma_not_at_differs(rest1, k1, k, 0);
            } else {
                assert(rest1[k] == nn[k - 77]);
                crate::text::lemma_not_at_differs(rest1, k1, k, 0);
            }
        }
    }
    crate::text::lemma_find(rest1, k1);
    assert(rest1 =~= hh + seq![' '] + (b.drop_first() + nn + c));
    assert forall|k: int| 0 <= k < hh.len() implies !crate::text::is_ws(#[trigger] hh[k]) by {
        assert(crate::hex::is_hex_lower_digit(hh[k]));
    }
    crate::text::lemma_first_word(hh, ' ', b.drop_first() + nn + c);
    assert(field_value(line, k1) == hh);
    // The nonce field.
    let k2 = "SERVERNONCE="@;
    assert(crate::text::occurs_at(line, k2, 94)) by {
        assert(line.subrange(94, 106) =~= k2);
    }
    assert forall|k: int| 0 <= k < 94 implies !crate::text::occurs_at(line, k2, k) by {
        if k < 29 {
            assert(line[k] == a[k]);
            if k == 18 {
                assert(line[24] == 'H');
                crate::text::lemma_not_at_differs(line, k2, k, 6);
            } else if k == 26 {
                assert(line[27] == 'H');
                crate::text::lemma_not_at_differs(line, k2, k, 1);
            } else {
                crate::text::lemma_not_at_differs(line, k2, k, 0);
            }
        } else if k < 93 {
            assert(line[k] == hh[k - 29]);
            crate::text::lemma_not_at_differs(line, k2, k, 0);
        } else {
            crate::text::lemma_not_at_differs(line, k2, k, 0);
        }
    }
    crate::text::lemma_find_first(line, k2, 94);
    let rest2 = line.skip(106);
    assert(rest2 =~= nn + c);
    assert forall|k: int| 0 <= k implies !crate::text::occurs_at(rest2, k2, k) by {
        if k + 12 <= rest2.len() {
            assert(rest2[k] == nn[k]);
            crate::text::lemma_not_at_differs(rest2, k2, k, 0);
        }
    }
    crate::text::lemma_find(rest2, k2);
    assert(rest2 =~= nn + seq!['\r'] + seq!['\n']);
    assert forall|k: int| 0 <= k < nn.len() implies !crate::text::is_ws(#[trigger] nn[k]) by {
        assert(crate::hex::is_hex_lower_digit(nn[k]));
    }
    crate::text::lemma_first_word(nn, '\r', seq!['\n']);
    assert(field_value(line, k2) == nn);
}

} // verus!

verus! {

/// Where a tor binary is looked for, in order, before asking `which`.
pub open spec fn tor_locations() -> Seq<Seq<char>> {
    seq!["/opt/homebrew/bin/tor"@, "/usr/local/bin/tor"@, "/usr/bin/tor"@]
}

pub fn tor_candidates() -> (r: Vec<String>)
    ensures
        string_views(r@) == tor_locations(),
{
    let r = vec![owned("/opt/homebrew/bin/tor"), owned("/usr/local/bin/tor"), owned("/usr/bin/tor")];
    assert(string_views(r@) =~= tor_locations());
    r
}

} // verus!

verus! {

spec fn one_line(s: Seq<char>) -> bool {
    forall|k: int| 0 <= k < s.len() ==> s[k] != '\n'
}

proof fn lemma_one_line_join(a: Seq<char>, b: Seq<char>, c: Seq<char>)
    requires
        one_line(a),
        one_line(b),
        one_line(c),
    ensures
        one_line(a + b + c),
{
    let t = a + b + c;
    assert forall|k: int| 0 <= k < t.len() implies t[k] != '\n' by {
        if k < a.len() {
            assert(t[k] == a[k]);
        } else if k < a.len() + b.len() {
            assert(t[k] == b[k - a.len()]);
        } else {
            assert(t[k] == c[k - a.len() - b.len()]);
        }
    }
}

proof fn lemma_torrc_parts()
    ensures
        one_line("SocksPort 9050"@) && "SocksPort 9050"@.len() == 14 && "SocksPort 9050"@.last() == '0',
        one_line("ControlPort 9051"@) && "ControlPort 9051"@.len() == 16 && "ControlPort 9051"@.last() == '1',
        one_line("CookieAuthentication 1"@) && "CookieAuthentication 1"@.len() == 22 && "CookieAuthentication 1"@.last() == '1',
        one_line("DNSPort 9053"@) && "DNSPort 9053"@.len() == 12 && "DNSPort 9053"@.last() == '3',
        one_line("MaxCircuitDirtiness 600"@) && "MaxCircuitDirtiness 600"@.len() == 23 && "MaxCircuitDirtiness 600"@.last() == '0',
        one_line("StrictNodes 1"@) && "StrictNodes 1"@.len() == 13 && "StrictNodes 1"@.last() == '1',
        one_line("CookieAuthFile "@) && "CookieAuthFile "@.len() == 15,
        one_line("/tor_data/control_auth/control_auth_cookie"@) && "/tor_data/control_auth/control_auth_cookie"@.len() == 42 && "/tor_data/control_auth/control_auth_cookie"@.last() == 'e',
        one_line("DataDirectory "@) && "DataDirectory "@.len() == 14,
        one_line("/tor_data"@) && "/tor_data"@.len() == 9 && "/tor_data"@.last() == 'a',
        one_line("Log notice file "@) && "Log notice file "@.len() == 16,
        one_line("/tor.log"@) && "/tor.log"@.len() == 8 && "/tor.log"@.last() == 'g',
        one_line("ExcludeExitNodes "@) && "ExcludeExitNodes "@.len() == 17,
{
    reveal_strlit("SocksPort 9050");
    reveal_strlit("ControlPort 9051");
    reveal_strlit("CookieAuthentication 1");
    reveal_strlit("CookieAuthFile ");
    reveal_strlit("/tor_data/control_auth/control_auth_cookie");
    reveal_strlit("DataDirectory ");
    reveal_strlit("/tor_data");
    reveal_strlit("Log notice file ");
    reveal_strlit("/tor.log");
    reveal_strlit("DNSPort 9053");
    reveal_strlit("MaxCircuitDirtiness 600");
    reveal_strlit("StrictNodes 1");
    reveal_strlit("ExcludeExitNodes ");
    assert forall|k: int| 0 <= k < ("SocksPort 9050"@).len() implies ("SocksPort 9050"@)[k] != '\n' by {
        assert(0 <= k < 14);
    }
    assert forall|k: int| 0 <= k < ("ControlPort 9051"@).len() implies ("ControlPort 9051"@)[k] != '\n' by {
        assert(0 <= k < 16);
    }
    assert forall|k: int| 0 <= k < ("CookieAuthentication 1"@).len() implies ("CookieAuthentication 1"@)[k] != '\n' by {
        assert(0 <= k < 22);
    }
    assert forall|k: int| 0 <= k < ("DNSPort 9053"@).len() implies ("DNSPort 9053"@)[k] != '\n' by {
        assert(0 <= k < 12);
    }
    assert forall|k: int| 0 <= k < ("MaxCircuitDirtiness 600"@).len() implies ("MaxCircuitDirtiness 600"@)[k] != '\n' by {
        assert(0 <= k < 23);
    }
    assert forall|k: int| 0 <= k < ("StrictNodes 1"@).len() implies ("StrictNodes 1"@)[k] != '\n' by {
        assert(0 <= k < 13);
    }
    assert forall|k: int| 0 <= k < ("CookieAuthFile "@).len() implies ("CookieAuthFile "@)[k] != '\n' by {
        assert(0 <= k < 15);
    }
    assert forall|k: int| 0 <= k < ("/tor_data/control_auth/control_auth_cookie"@).len() implies ("/tor_data/control_auth/control_auth_cookie"@)[k] != '\n' by {
        assert(0 <= k < 42);
    }
    assert forall|k: int| 0 <= k < ("DataDirectory "@).len() implies ("DataDirectory "@)[k] != '\n' by {
        assert(0 <= k < 14);
    }
    assert forall|k: int| 0 <= k < ("/tor_data"@).len() implies ("/tor_data"@)[k] != '\n' by {
        assert(0 <= k < 9);
    }
    assert forall|k: int| 0 <= k < ("Log notice file "@).len() implies ("Log notice file "@)[k] != '\n' by {
        assert(0 <= k < 16);
    }
    assert forall|k: int| 0 <= k < ("/tor.log"@).len() implies ("/tor.log"@)[k] != '\n' by {
        assert(0 <= k < 8);
    }
    assert forall|k: int| 0 <= k < ("ExcludeExitNodes "@).len() implies ("ExcludeExitNodes "@)[k] != '\n' by {
        assert(0 <= k < 17);
    }
}

/// Tor's configuration line by line, for a directory without line breaks: SOCKS on port
/// 9050, the control port 9051 with cookie authentication and its cookie file, data and
/// log under the directory, DNS on port 9053, circuits renewed every 600 seconds; then,
/// when any exit country is excluded, the excluded codes and strict node selection.
#[verifier::rlimit(40)]
pub proof fn lemma_torrc_lines(dir: Seq<char>, c: Config)
    requires
        forall|k: int| 0 <= k < dir.len() ==> dir[k] != '\n',
    ensures
        crate::text::lines(torrc_text(dir, c)) == seq![
            "SocksPort 9050"@,
            "ControlPort 9051"@,
            "CookieAuthentication 1"@,
            "CookieAuthFile "@ + dir + "/tor_data/control_auth/control_auth_cookie"@,
            "DataDirectory "@ + dir + "/tor_data"@,
            "Log notice file "@ + dir + "/tor.log"@,
            "DNSPort 9053"@,
            "MaxCircuitDirtiness 600"@,
        ] + (if c.exclude_us || c.exclude_gb || c.exclude_au || c.exclude_ca || c.exclude_nz || c.exclude_de
            || c.exclude_fr {
            seq!["ExcludeExitNodes "@ + excluded_nodes_text(c), "StrictNodes 1"@]
        } else {
            seq![]
        }),
{
    lemma_torrc_parts();
    crate::config::lemma_excluded_nodes_shape(c);
    crate::config::lemma_excluded_nodes_one_line(c);
    let e = excluded_nodes_text(c);
    let nl = seq!['\n'];
    let l1 = "SocksPort 9050"@;
    let l2 = "ControlPort 9051"@;
    let l3 = "CookieAuthentication 1"@;
    let c4 = "CookieAuthFile "@;
    let d4 = "/tor_data/control_auth/control_auth_cookie"@;
    let c5 = "DataDirectory "@;
    let d5 = "/tor_data"@;
    let c6 = "Log notice file "@;
    let d6 = "/tor.log"@;
    let c9 = "ExcludeExitNodes "@;
    let l4 = c4 + dir + d4;
    let l5 = c5 + dir + d5;
    let l6 = c6 + dir + d6;
    let l7 = "DNSPort 9053"@;
    let l8 = "MaxCircuitDirtiness 600"@;
    let l9 = c9 + e;
    let l10 = "StrictNodes 1"@;
    let tail: Seq<char> = if e.len() == 0 { Seq::empty() } else { l9 + nl + (l10 + nl) };
    let r8 = l8 + nl + tail;
    let r7 = l7 + nl + r8;
    let r6 = l6 + nl + r7;
    let r5 = l5 + nl + r6;
    let r4 = l4 + nl + r5;
    let r3 = l3 + nl + r4;
    let r2 = l2 + nl + r3;
    let r1 = l1 + nl + r2;
    assert(torrc_text(dir, c) =~= r1) by {
        reveal_strlit("SocksPort 9050\nControlPort 9051\nCookieAuthentication 1\nCookieAuthFile ");
        reveal_strlit("/tor_data/control_auth/control_auth_cookie\nDataDirectory ");
        reveal_strlit("/tor_data\nLog notice file ");
        reveal_strlit("/tor.log\nDNSPort 9053\nMaxCircuitDirtiness 600\n");
        reveal_strlit("\nStrictNodes 1\n");
        reveal_strlit("SocksPort 9050");
        reveal_strlit("ControlPort 9051");
        reveal_strlit("CookieAuthentication 1");
        reveal_strlit("CookieAuthFile ");
        reveal_strlit("/tor_data/control_auth/control_auth_cookie");
        reveal_strlit("DataDirectory ");
        reveal_strlit("/tor_data");
        reveal_strlit("Log notice file ");
        reveal_strlit("/tor.log");
        reveal_strlit("DNSPort 9053");
        reveal_strlit("MaxCircuitDirtiness 600");
        reveal_strlit("StrictNodes 1");
    }
    lemma_one_line_join(c4, dir, d4);
    lemma_one_line_join(c5, dir, d5);
    lemma_one_line_join(c6, dir, d6);
    lemma_one_line_join(c9, e, Seq::empty());
    assert(c9 + e + Seq::<char>::empty() =~= l9);
    assert(l4.last() == d4.last() && l5.last() == d5.last() && l6.last() == d6.last());
    if e.len() == 0 {
        crate::text::lemma_lines_empty();
    } else {
        assert(l9.last() == e.last());
        crate::text::lemma_lines_one(l10);
        assert(crate::text::strip_cr(l10) == l10);
        crate::proxy::lemma_lines_cons(l9, l10 + nl);
    }
    crate::proxy::lemma_lines_cons(l8, tail);
    crate::proxy::lemma_lines_cons(l7, r8);
    crate::proxy::lemma_lines_cons(l6, r7);
    crate::proxy::lemma_lines_cons(l5, r6);
    crate::proxy::lemma_lines_cons(l4, r5);
    crate::proxy::lemma_lines_cons(l3, r4);
    crate::proxy::lemma_lines_cons(l2, r3);
    crate::proxy::lemma_lines_cons(l1, r2);
    assert(crate::text::lines(torrc_text(dir, c)) =~= seq![l1, l2, l3, l4, l5, l6, l7, l8] + crate::text::lines(tail));
}

} // verus!

verus! {

/// SAFECOOKIE as the control protocol defines it: the controller answers only when
/// Tor's hash is the HMAC-SHA256, keyed with Tor's server-to-controller string, of the
/// cookie, the client nonce and the server nonce; its answer is then three lines:
/// `AUTHENTICATE` with the HMAC keyed with the controller-to-server string over the same
/// bytes, in hexadecimal; `SIGNAL NEWNYM`; and `QUIT`.
pub proof fn lemma_safecookie_exchange(cookie: Seq<u8>, client_nonce: Seq<u8>, server_hash: Seq<u8>, server_nonce: Seq<u8>)
    ensures
        safecookie_answer(cookie, client_nonce, server_hash, server_nonce) is Some <==> server_hash == hmac_sha256(
            vstd::utf8::encode_utf8("Tor safe cookie authentication server-to-controller hash"@),
            cookie + client_nonce + server_nonce,
        ),
        safecookie_answer(cookie, client_nonce, server_hash, server_nonce) matches Some(a) ==> crate::text::lines(a)
            == seq![
            "AUTHENTICATE "@ + hex_lower(
                hmac_sha256(
                    vstd::utf8::encode_utf8("Tor safe cookie authentication controller-to-server hash"@),
                    cookie + client_nonce + server_nonce,
                ),
            ),
            "SIGNAL NEWNYM"@,
            "QUIT"@,
        ],
{
    let msg = cookie + client_nonce + server_nonce;
    let h = hmac_sha256(controller_to_server_key(), msg);
    reveal_strlit("AUTHENTICATE ");
    reveal_strlit("\r\nSIGNAL NEWNYM\r\nQUIT\r\n");
    reveal_strlit("SIGNAL NEWNYM");
    reveal_strlit("QUIT");
    crate::hex::lemma_hex_lower_chars(h);
    let nl = seq!['\n'];
    let cr = seq!['\r'];
    let l1 = "AUTHENTICATE "@ + hex_lower(h);
    let l2 = "SIGNAL NEWNYM"@;
    let l3 = "QUIT"@;
    let x1 = l1 + cr;
    let x2 = l2 + cr;
    let x3 = l3 + cr;
    let r3 = x3 + nl;
    let r2 = x2 + nl + r3;
    let t = x1 + nl + r2;
    assert(authenticate_text(h) =~= t);
    assert forall|k: int| 0 <= k < x1.len() implies x1[k] != '\n' by {
        if 13 <= k < l1.len() {
            assert(x1[k] == hex_lower(h)[k - 13]);
        } else if k < 13 {
            assert(x1[k] == ("AUTHENTICATE "@)[k]);
        }
    }
    assert forall|k: int| 0 <= k < x2.len() implies x2[k] != '\n' by {
        assert(0 <= k < 14);
    }
    assert forall|k: int| 0 <= k < x3.len() implies x3[k] != '\n' by {
        assert(0 <= k < 5);
    }
    assert(x1.drop_last() =~= l1 && x2.drop_last() =~= l2 && x3.drop_last() =~= l3);
    crate::text::lemma_lines_concat(x1, r2);
    crate::text::lemma_lines_one(x1);
    crate::text::lemma_lines_concat(x2, r3);
    crate::text::lemma_lines_one(x2);
    crate::text::lemma_lines_one(x3);
    assert(crate::text::lines(t) =~= seq![l1, l2, l3]);
}

} // verus!

verus! {

/// Starting Tor first creates the directory that holds the control cookie, writes
/// `torrc` into TorShield's directory readable and writable by the owner alone (mode
/// 0600), and, when a binary was found, starts it as a daemon on that very file, told to
/// record its pid in `tor.pid` there, the file that stopping Tor removes at the end.
pub proof fn lemma_start_tor_steps(dir: Seq<char>, c: Config, tor: Option<Seq<char>>)
    ensures
        start_tor_plan(dir, c, tor).len() == (if tor is Some { 4int } else { 3int }),
        start_tor_plan(dir, c, tor)[0] == ActionView::CreateDir(dir + "/tor_data/control_auth"@),
        start_tor_plan(dir, c, tor)[1] == ActionView::WriteFile(dir + "/torrc"@, torrc_text(dir, c)),
        start_tor_plan(dir, c, tor)[2] == ActionView::SetMode(dir + "/torrc"@, 384),
        tor matches Some(t) ==> start_tor_plan(dir, c, tor)[3] == ActionView::Spawn(
            t,
            seq!["-f"@, dir + "/torrc"@, "--PidFile"@, dir + "/tor.pid"@, "--RunAsDaemon"@, "1"@],
        ),
{
}

} // verus!

verus! {

/// Purging logs empties the very file that Tor is configured to log to.
pub proof fn lemma_logs_cleared_where_written(home: Seq<char>, dir: Seq<char>, c: Config)
    ensures
        crate::helper::clear_logs_plan(home, dir).contains(ActionView::WriteFile(dir + "/tor.log"@, Seq::empty())),
        contains(torrc_text(dir, c), "Log notice file "@ + dir + "/tor.log"@),
{
    assert(crate::helper::clear_logs_plan(home, dir)[2] == ActionView::WriteFile(dir + "/tor.log"@, Seq::empty()));
    reveal_strlit("SocksPort 9050\nControlPort 9051\nCookieAuthentication 1\nCookieAuthFile ");
    reveal_strlit("/tor_data/control_auth/control_auth_cookie\nDataDirectory ");
    reveal_strlit("/tor_data\nLog notice file ");
    reveal_strlit("/tor.log\nDNSPort 9053\nMaxCircuitDirtiness 600\n");
    reveal_strlit("Log notice file ");
    reveal_strlit("/tor.log");
    let t = torrc_text(dir, c);
    let l = "Log notice file "@ + dir + "/tor.log"@;
    let k: int = 70 + dir.len() as int + 57 + dir.len() as int + 10;
    assert(t.subrange(k, k + l.len()) =~= l);
    assert(crate::text::occurs_at(t, l, k));
}

} // verus!
