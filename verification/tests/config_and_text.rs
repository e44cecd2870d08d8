use torshield::config::{load_outcome, LoadOutcome};
use torshield::config::{config_hmac, config_hmac_key, config_hmac_matches, stored_tag_matches, toggle_cfg, Config, ConfigChange, OpsecState};
use torshield::hex::{hex_decode, hex_encode};
use torshield::base64::base64_encode;

fn rfc4231_key() -> Vec<u8> {
    vec![0x0b; 20]
}

#[test]
fn default_config_matches_documented_defaults() {
    let c = Config::default();
    assert!(c.exclude_us && c.exclude_gb && c.exclude_au && c.exclude_ca && c.exclude_nz);
    assert!(!c.exclude_de && !c.exclude_fr);
    assert_eq!(c.rotate_mins, 0);
    assert!(c.mac_spoof && c.dns_leak && !c.pf_firewall && c.clear_logs);
    assert!(c.firefox && c.resist_fp && c.ua_spoof && c.lang_spoof && !c.env_inject);
}

#[test]
fn default_state_is_disconnected() {
    let s = OpsecState::default();
    assert!(!s.active);
    assert!(s.tor_ip.is_none() && s.real_ip.is_none() && s.config.is_none());
}

#[test]
fn excluded_nodes_of_defaults() {
    assert_eq!(Config::default().excluded_nodes(), "{us},{gb},{au},{ca},{nz}");
}

#[test]
fn excluded_nodes_empty_and_full() {
    let mut c = Config::default();
    c.exclude_us = false;
    c.exclude_gb = false;
    c.exclude_au = false;
    c.exclude_ca = false;
    c.exclude_nz = false;
    assert_eq!(c.excluded_nodes(), "");
    c.exclude_fr = true;
    assert_eq!(c.excluded_nodes(), "{fr}");
    c.exclude_de = true;
    c.exclude_us = true;
    assert_eq!(c.excluded_nodes(), "{us},{de},{fr}");
}

#[test]
fn config_hmac_is_hmac_sha256_in_lowercase_hex() {
    // RFC 4231, test case 1.
    let tag = config_hmac(&rfc4231_key(), "Hi There");
    assert_eq!(tag, "b0344c61d8db38535ca8afceaf0bf12b881dc200c9833da726e9376c2e32cff7");
}

#[test]
fn saved_config_tag_is_accepted() {
    let key = vec![7u8; 32];
    let json = "{\n  \"exclude_us\": true\n}";
    let tag = config_hmac(&key, json);
    assert!(config_hmac_matches(&key, json, &tag));
    let with_newline = format!("  {}\n", tag);
    assert!(config_hmac_matches(&key, json, &with_newline));
}

#[test]
fn tampered_config_is_rejected() {
    let key = vec![7u8; 32];
    let tag = config_hmac(&key, "{\"a\":1}");
    assert!(!config_hmac_matches(&key, "{\"a\":2}", &tag));
    assert!(!config_hmac_matches(&[8u8; 32], "{\"a\":1}", &tag));
    assert!(!config_hmac_matches(&key, "{\"a\":1}", ""));
}

#[test]
fn stored_key_of_32_bytes_is_kept() {
    let k = config_hmac_key(Some(vec![3u8; 32])).unwrap();
    assert_eq!(k.bytes, vec![3u8; 32]);
    assert!(!k.fresh);
}

#[test]
fn short_or_missing_key_is_replaced() {
    let k = config_hmac_key(Some(vec![3u8; 31])).unwrap();
    assert!(k.fresh);
    assert_eq!(k.bytes.len(), 32);
    let k = config_hmac_key(None).unwrap();
    assert!(k.fresh);
    assert_eq!(k.bytes.len(), 32);
}

#[test]
fn toggling_twice_restores_settings() {
    let start = Config::default();
    let mut c = start;
    let after = toggle_cfg(&mut c, ConfigChange::PfFirewall);
    assert!(after.pf_firewall);
    assert_eq!(c, after);
    toggle_cfg(&mut c, ConfigChange::PfFirewall);
    assert_eq!(c, start);
    toggle_cfg(&mut c, ConfigChange::ExcludeFr);
    assert!(c.exclude_fr);
    assert_eq!(c.excluded_nodes(), "{us},{gb},{au},{ca},{nz},{fr}");
}

#[test]
fn rotation_change_sets_period() {
    let mut c = Config::default();
    let r = toggle_cfg(&mut c, ConfigChange::RotateMins(15));
    assert_eq!(r.rotate_mins, 15);
    toggle_cfg(&mut c, ConfigChange::RotateMins(15));
    assert_eq!(c.rotate_mins, 15);
    assert_eq!(c.excluded_nodes(), Config::default().excluded_nodes());
}

#[test]
fn hex_decode_cases() {
    assert_eq!(hex_decode("00ff10"), Some(vec![0x00, 0xff, 0x10]));
    assert_eq!(hex_decode("ABcd"), Some(vec![0xab, 0xcd]));
    assert_eq!(hex_decode(""), Some(vec![]));
    assert_eq!(hex_decode("abc"), None);
    assert_eq!(hex_decode("0g"), None);
    assert_eq!(hex_decode("+f"), None);
    assert_eq!(hex_decode("-1"), None);
    assert_eq!(hex_decode("é1"), None);
}

#[test]
fn base64_known_values() {
    assert_eq!(base64_encode(b""), "");
    assert_eq!(base64_encode(b"M"), "TQ==");
    assert_eq!(base64_encode(b"Ma"), "TWE=");
    assert_eq!(base64_encode(b"Man"), "TWFu");
    assert_eq!(base64_encode(b"hello world"), "aGVsbG8gd29ybGQ=");
    assert_eq!(base64_encode(&[0xff, 0xfe, 0xfd]), "//79");
}

#[test]
fn base64_length_and_alphabet() {
    let data: Vec<u8> = (0u8..=255).collect();
    let e = base64_encode(&data);
    assert_eq!(e.len(), 4 * ((data.len() + 2) / 3));
    assert!(e.chars().all(|c| c.is_ascii_alphanumeric() || c == '+' || c == '/' || c == '='));
}

#[test]
fn stored_tag_is_compared_trimmed_and_lowercase() {
    assert!(stored_tag_matches(&[0xab, 0x01], "ab01"));
    assert!(stored_tag_matches(&[0xab, 0x01], "  ab01\n"));
    assert!(!stored_tag_matches(&[0xab, 0x01], "AB01"));
    assert!(!stored_tag_matches(&[0xab, 0x01], "ab02"));
    assert!(stored_tag_matches(&[], ""));
}

#[test]
fn hex_text_decodes_back() {
    for b in [vec![], vec![0u8], vec![0xde, 0xad, 0xbe, 0xef], (0u8..=255).collect::<Vec<u8>>()] {
        let text: String = hex_encode(&b).into_iter().collect();
        assert_eq!(text.len(), 2 * b.len());
        assert_eq!(hex_decode(&text), Some(b.clone()));
    }
}

#[test]
fn no_exclusions_give_an_empty_value() {
    let mut c = Config::default();
    for ch in [ConfigChange::ExcludeUs, ConfigChange::ExcludeGb, ConfigChange::ExcludeAu, ConfigChange::ExcludeCa, ConfigChange::ExcludeNz] {
        toggle_cfg(&mut c, ch);
    }
    assert_eq!(c.excluded_nodes(), "");
    toggle_cfg(&mut c, ConfigChange::ExcludeDe);
    assert_eq!(c.excluded_nodes(), "{de}");
}

#[test]
fn load_outcomes() {
    assert_eq!(load_outcome(false, false), LoadOutcome::UseDefault);
    assert_eq!(load_outcome(false, true), LoadOutcome::UseDefault);
    assert_eq!(load_outcome(true, false), LoadOutcome::ResetAndSave);
    assert_eq!(load_outcome(true, true), LoadOutcome::Parse);
    let key = [3u8; 32];
    let json = "{\"rotate_mins\":5}";
    let tag = config_hmac(&key, json);
    assert_eq!(load_outcome(true, config_hmac_matches(&key, json, &tag)), LoadOutcome::Parse);
    assert_eq!(load_outcome(true, config_hmac_matches(&key, "{\"rotate_mins\":6}", &tag)), LoadOutcome::ResetAndSave);
}
