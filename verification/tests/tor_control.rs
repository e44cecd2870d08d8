use hmac::{Hmac, KeyInit, Mac};
use sha2::Sha256;
use torshield::config::Config;
use torshield::crypto::rand_bytes;
use torshield::helper::Action;
use torshield::tor::{
    authchallenge_command, authenticate_command, client_nonce, cookie_usable, ip_from_text, local_real_ip, newnym_accepted,
    parse_authchallenge, safecookie_authenticate, start_tor, stop_tor_finish, stop_tor_keep_waiting, stop_tor_kill,
    tor_pid, torrc, u32_text, which_tor,
};

const SRV_KEY: &[u8] = b"Tor safe cookie authentication server-to-controller hash";
const CTRL_KEY: &[u8] = b"Tor safe cookie authentication controller-to-server hash";

fn tag(key: &[u8], parts: &[&[u8]]) -> Vec<u8> {
    let mut m = Hmac::<Sha256>::new_from_slice(key).unwrap();
    for p in parts {
        m.update(p);
    }
    m.finalize().into_bytes().to_vec()
}

fn hex(b: &[u8]) -> String {
    b.iter().map(|x| format!("{:02x}", x)).collect()
}

#[test]
fn torrc_with_default_exclusions() {
    let t = torrc("/Users/a/.torshield", &Config::default());
    assert_eq!(
        t,
        "SocksPort 9050\nControlPort 9051\nCookieAuthentication 1\n\
         CookieAuthFile /Users/a/.torshield/tor_data/control_auth/control_auth_cookie\n\
         DataDirectory /Users/a/.torshield/tor_data\nLog notice file /Users/a/.torshield/tor.log\n\
         DNSPort 9053\nMaxCircuitDirtiness 600\n\
         ExcludeExitNodes {us},{gb},{au},{ca},{nz}\nStrictNodes 1\n"
    );
}

#[test]
fn torrc_without_exclusions_has_no_exclude_line() {
    let mut c = Config::default();
    c.exclude_us = false;
    c.exclude_gb = false;
    c.exclude_au = false;
    c.exclude_ca = false;
    c.exclude_nz = false;
    let t = torrc("/d", &c);
    assert!(!t.contains("ExcludeExitNodes"));
    assert!(!t.contains("StrictNodes"));
    assert!(t.ends_with("MaxCircuitDirtiness 600\n"));
}

#[test]
fn start_tor_steps() {
    let p = start_tor("/d", &Config::default(), Some("/opt/homebrew/bin/tor"));
    assert_eq!(p.len(), 4);
    assert!(matches!(&p[0], Action::CreateDir(d) if d == "/d/tor_data/control_auth"));
    assert!(matches!(&p[1], Action::WriteFile(f, _) if f == "/d/torrc"));
    assert!(matches!(&p[2], Action::SetMode(f, 0o600) if f == "/d/torrc"));
    match &p[3] {
        Action::Spawn(c) => {
            assert_eq!(c.program, "/opt/homebrew/bin/tor");
            assert_eq!(c.args, vec!["-f", "/d/torrc", "--PidFile", "/d/tor.pid", "--RunAsDaemon", "1"]);
        }
        other => panic!("unexpected {:?}", other),
    }
    let q = start_tor("/d", &Config::default(), None);
    assert_eq!(q.len(), 3);
}

#[test]
fn which_tor_accepts_absolute_paths_only() {
    assert_eq!(which_tor(b"/usr/local/bin/tor\n"), Some("/usr/local/bin/tor".to_string()));
    assert_eq!(which_tor(b"tor not found\n"), None);
    assert_eq!(which_tor(b""), None);
    assert_eq!(which_tor(&[0xff, 0x2f]), None);
}

#[test]
fn tor_pid_parses_trimmed_numbers() {
    assert_eq!(tor_pid(Some("4242\n")), Some(4242));
    assert_eq!(tor_pid(Some("  17  ")), Some(17));
    assert_eq!(tor_pid(Some("+8")), Some(8));
    assert_eq!(tor_pid(Some("4294967295")), Some(u32::MAX));
    assert_eq!(tor_pid(Some("4294967296")), None);
    assert_eq!(tor_pid(Some("12a")), None);
    assert_eq!(tor_pid(Some("")), None);
    assert_eq!(tor_pid(Some("+")), None);
    assert_eq!(tor_pid(Some("-1")), None);
    assert_eq!(tor_pid(None), None);
}

#[test]
fn pid_text_reads_back() {
    for n in [0u32, 7, 10, 99, 4242, u32::MAX] {
        let t: String = u32_text(n).into_iter().collect();
        assert_eq!(t, n.to_string());
        assert_eq!(tor_pid(Some(t.as_str())), Some(n));
    }
}

#[test]
fn stop_tor_signals_recorded_pid() {
    let p = stop_tor_kill(Some(42));
    assert_eq!(p.len(), 1);
    match &p[0] {
        Action::Run(c) => {
            assert_eq!(c.program, "/bin/kill");
            assert_eq!(c.args, vec!["42".to_string()]);
        }
        other => panic!("unexpected {:?}", other),
    }
    assert!(stop_tor_kill(None).is_empty());
    assert!(stop_tor_keep_waiting(true, 0));
    assert!(stop_tor_keep_waiting(true, 29));
    assert!(!stop_tor_keep_waiting(true, 30));
    assert!(!stop_tor_keep_waiting(false, 3));
    assert!(matches!(stop_tor_finish("/d"), Action::RemoveFile(f) if f == "/d/tor.pid"));
}

#[test]
fn addresses_are_trimmed() {
    assert_eq!(ip_from_text(" 185.220.101.1\n"), Some("185.220.101.1".to_string()));
    assert_eq!(ip_from_text("  \n"), None);
    assert_eq!(local_real_ip(Some(b"192.168.1.20\n")), Some("192.168.1.20".to_string()));
    assert_eq!(local_real_ip(Some(b"")), None);
    assert_eq!(local_real_ip(None), None);
}

#[test]
fn authchallenge_command_is_hex() {
    assert_eq!(authchallenge_command(&[0x00, 0xab, 0x10]), "AUTHCHALLENGE SAFECOOKIE 00ab10\r\n");
}

#[test]
fn authchallenge_reply_is_parsed() {
    let h = [0x11u8; 32];
    let n = [0xa5u8; 32];
    let line = format!("250 AUTHCHALLENGE SERVERHASH={} SERVERNONCE={}\r\n", hex(&h), hex(&n));
    assert_eq!(parse_authchallenge(line.as_bytes()), Some((h.to_vec(), n.to_vec())));
    let upper = format!("250 AUTHCHALLENGE SERVERHASH={} SERVERNONCE={}\r\n", hex(&h).to_uppercase(), hex(&n));
    assert_eq!(parse_authchallenge(upper.as_bytes()), Some((h.to_vec(), n.to_vec())));
}

#[test]
fn bad_authchallenge_replies_are_refused() {
    let h = hex(&[1u8; 32]);
    let n = hex(&[2u8; 32]);
    let wrong_status = format!("515 AUTHCHALLENGE SERVERHASH={} SERVERNONCE={}\r\n", h, n);
    assert_eq!(parse_authchallenge(wrong_status.as_bytes()), None);
    let short = format!("250 AUTHCHALLENGE SERVERHASH={} SERVERNONCE=abcd\r\n", h);
    assert_eq!(parse_authchallenge(short.as_bytes()), None);
    let missing = format!("250 AUTHCHALLENGE SERVERNONCE={}\r\n", n);
    assert_eq!(parse_authchallenge(missing.as_bytes()), None);
    let not_hex = format!("250 AUTHCHALLENGE SERVERHASH={}zz SERVERNONCE={}\r\n", &h[..62], n);
    assert_eq!(parse_authchallenge(not_hex.as_bytes()), None);
    assert_eq!(parse_authchallenge(&[0xff, 0xfe]), None);
}

#[test]
fn safecookie_answers_a_genuine_server() {
    let cookie = [7u8; 32];
    let cn = [1u8; 32];
    let sn = [2u8; 32];
    let server_hash = tag(SRV_KEY, &[&cookie, &cn, &sn]);
    let expected = format!("AUTHENTICATE {}\r\nSIGNAL NEWNYM\r\nQUIT\r\n", hex(&tag(CTRL_KEY, &[&cookie, &cn, &sn])));
    assert_eq!(safecookie_authenticate(&cookie, &cn, &server_hash, &sn), Some(expected));
}

#[test]
fn safecookie_refuses_a_wrong_server_hash() {
    let cookie = [7u8; 32];
    let cn = [1u8; 32];
    let sn = [2u8; 32];
    let mut server_hash = tag(SRV_KEY, &[&cookie, &cn, &sn]);
    server_hash[0] ^= 1;
    assert_eq!(safecookie_authenticate(&cookie, &cn, &server_hash, &sn), None);
    let other_cookie = [8u8; 32];
    let good = tag(SRV_KEY, &[&cookie, &cn, &sn]);
    assert_eq!(safecookie_authenticate(&other_cookie, &cn, &good, &sn), None);
}

#[test]
fn newnym_and_cookie_checks() {
    assert!(newnym_accepted("250 OK\r\n250 OK\r\n250 closing connection\r\n"));
    assert!(!newnym_accepted("515 Authentication failed\r\n"));
    assert!(!newnym_accepted(""));
    assert!(cookie_usable(Some(&[0u8; 32])));
    assert!(!cookie_usable(Some(&[0u8; 31])));
    assert!(!cookie_usable(None));
}

#[test]
fn random_bytes_have_the_asked_length() {
    assert_eq!(rand_bytes(16).unwrap().len(), 16);
    assert_eq!(rand_bytes(0).unwrap().len(), 0);
    assert_eq!(client_nonce().unwrap().len(), 32);
}

#[test]
fn authenticate_command_text() {
    assert_eq!(authenticate_command(&[0xde, 0xad, 0x01]), "AUTHENTICATE dead01\r\nSIGNAL NEWNYM\r\nQUIT\r\n");
}
