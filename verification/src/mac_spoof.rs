use vstd::prelude::*;
use vstd::string::StringSliceAdditionalSpecFns;
use crate::helper::{Action, ActionView, action_views, push_action, push_root, run_root, str_views, bytes_view};
use crate::text::{owned, chars_of, string_of, contains, contains_chars, words, words_of, views, output_text, output_chars};
use crate::hex::{hex_lower, hex_encode};

verus! {

/// Organisationally unique identifiers assigned to Apple.
pub open spec fn apple_ouis() -> Seq<Seq<u8>> {
    seq![
        seq![0x3cu8, 0x06u8, 0x30u8],
        seq![0xa8u8, 0x66u8, 0x7fu8],
        seq![0x8cu8, 0x85u8, 0x90u8],
        seq![0xf0u8, 0x18u8, 0x98u8],
        seq![0x00u8, 0x17u8, 0xf2u8],
        seq![0x28u8, 0xcfu8, 0xe9u8],
        seq![0xacu8, 0xbcu8, 0x32u8],
        seq![0x60u8, 0x03u8, 0x08u8],
        seq![0xe8u8, 0x8du8, 0x28u8],
        seq![0x78u8, 0x4fu8, 0x43u8],
    ]
}

/// Six bytes as `xx:xx:xx:xx:xx:xx` in lowercase hex.
pub open spec fn mac_text(b: Seq<u8>) -> Seq<char> {
    hex_lower(b.subrange(0, 1)) + seq![':'] + hex_lower(b.subrange(1, 2)) + seq![':'] + hex_lower(b.subrange(2, 3))
        + seq![':'] + hex_lower(b.subrange(3, 4)) + seq![':'] + hex_lower(b.subrange(4, 5)) + seq![':']
        + hex_lower(b.subrange(5, 6))
}

/// The spoofed address for four random bytes: an Apple OUI chosen by the first byte,
/// then the other three bytes.
pub open spec fn spoofed_mac(random: Seq<u8>) -> Seq<char> {
    mac_text(apple_ouis()[(random[0] % 10) as int] + random.subrange(1, 4))
}

/// Setting an interface's hardware address as root: down, a pause, the new address, up.
pub open spec fn set_ether_plan(iface: Seq<char>, mac: Seq<char>) -> Seq<ActionView> {
    seq![
        run_root("/sbin/ifconfig"@, seq![iface, "down"@]),
        ActionView::SleepMillis(300),
        run_root("/sbin/ifconfig"@, seq![iface, "ether"@, mac]),
        run_root("/sbin/ifconfig"@, seq![iface, "up"@]),
    ]
}

fn set_ether(iface: &str, mac: &str) -> (r: Vec<Action>)
    ensures
        action_views(r@) == set_ether_plan(iface@, mac@),
{
    let mut plan: Vec<Action> = Vec::new();
    let a1 = [ iface, "down" ];
    push_root(&mut plan, "/sbin/ifconfig", &a1);
    assert(str_views(a1@) =~= seq![iface@, "down"@]);
    push_action(&mut plan, Action::SleepMillis(300));
    let a2 = [ iface, "ether", mac ];
    push_root(&mut plan, "/sbin/ifconfig", &a2);
    assert(str_views(a2@) =~= seq![iface@, "ether"@, mac@]);
    let a3 = [ iface, "up" ];
    push_root(&mut plan, "/sbin/ifconfig", &a3);
    assert(str_views(a3@) =~= seq![iface@, "up"@]);
    assert(action_views(plan@) =~= set_ether_plan(iface@, mac@));
    plan
}

fn oui(k: u8) -> (r: Vec<u8>)
    requires
        k < 10,
    ensures
        r@ == apple_ouis()[k as int],
{
    let t: [[u8; 3]; 10] = [
        [0x3c, 0x06, 0x30], [0xa8, 0x66, 0x7f], [0x8c, 0x85, 0x90],
        [0xf0, 0x18, 0x98], [0x00, 0x17, 0xf2], [0x28, 0xcf, 0xe9],
        [0xac, 0xbc, 0x32], [0x60, 0x03, 0x08], [0xe8, 0x8d, 0x28],
        [0x78, 0x4f, 0x43],
    ];
    let row = t[k as usize];
    let r = vec![row[0], row[1], row[2]];
    assert(r@ =~= apple_ouis()[k as int]);
    r
}

/// The spoofed address for four random bytes.
pub fn spoofed_mac_string(random: &[u8]) -> (r: String)
    requires
        random@.len() >= 4,
    ensures
        r@ == spoofed_mac(random@),
{
    let mut b = oui(random[0] % 10);
    b.push(random[1]);
    b.push(random[2]);
    b.push(random[3]);
    let ghost all = b@;
    assert(all =~= apple_ouis()[(random@[0] % 10) as int] + random@.subrange(1, 4));
    let mut out: Vec<char> = Vec::new();
    let mut i: usize = 0;
    while i < 6
        invariant
            0 <= i <= 6,
            b@ == all,
            all.len() == 6,
            i == 0 ==> out@ == Seq::<char>::empty(),
            i > 0 ==> out@ == (if i == 1 { hex_lower(all.subrange(0, 1)) } else if i == 2 {
                hex_lower(all.subrange(0, 1)) + seq![':'] + hex_lower(all.subrange(1, 2))
            } else if i == 3 {
                hex_lower(all.subrange(0, 1)) + seq![':'] + hex_lower(all.subrange(1, 2)) + seq![':']
                    + hex_lower(all.subrange(2, 3))
            } else if i == 4 {
                hex_lower(all.subrange(0, 1)) + seq![':'] + hex_lower(all.subrange(1, 2)) + seq![':']
                    + hex_lower(all.subrange(2, 3)) + seq![':'] + hex_lower(all.subrange(3, 4))
            } else if i == 5 {
                hex_lower(all.subrange(0, 1)) + seq![':'] + hex_lower(all.subrange(1, 2)) + seq![':']
                    + hex_lower(all.subrange(2, 3)) + seq![':'] + hex_lower(all.subrange(3, 4)) + seq![':']
                    + hex_lower(all.subrange(4, 5))
            } else {
                mac_text(all)
            }),
        decreases 6 - i,
    {
        if i > 0 {
            out.push(':');
        }
        let one = vec![b[i]];
        assert(one@ =~= all.subrange(i as int, i + 1));
        crate::text::append_chars(&mut out, &hex_encode(&one));
        i += 1;
    }
    string_of(&out)
}

/// Spoofing the primary interface's address with the given random bytes.
pub open spec fn mac_spoof_plan(iface: Seq<char>, random: Seq<u8>) -> Seq<ActionView> {
    set_ether_plan(iface, spoofed_mac(random))
}

/// Gives the primary interface `iface` a random Apple hardware address. `None` when the
/// system's random source fails.
pub fn mac_spoof_enable(iface: &str) -> (r: Option<Vec<Action>>)
    ensures
        r matches Some(plan) ==> exists|random: Seq<u8>| random.len() == 4 && action_views(plan@)
            == mac_spoof_plan(iface@, random),
{
    let random = match crate::crypto::rand_bytes(4) {
        Some(b) => b,
        None => {
            return None;
        },
    };
    let mac = spoofed_mac_string(&random);
    let plan = set_ether(iface, mac.as_str());
    assert(action_views(plan@) == mac_spoof_plan(iface@, random@));
    Some(plan)
}

/// The hardware address in `networksetup -getmacaddress` output: the first word that
/// contains `:` and is 17 bytes long.
pub open spec fn first_mac_word(ws: Seq<Seq<char>>) -> Option<Seq<char>>
    decreases ws.len(),
{
    if ws.len() == 0 {
        None
    } else if contains(ws[0], ":"@) && vstd::utf8::encode_utf8(ws[0]).len() == 17 {
        Some(ws[0])
    } else {
        first_mac_word(ws.drop_first())
    }
}

pub open spec fn hw_mac_of(out: Seq<u8>) -> Option<Seq<char>> {
    match output_text(out) {
        Some(t) => first_mac_word(words(t)),
        None => None,
    }
}

/// The interface's burned-in address, from `networksetup -getmacaddress` output.
pub fn hw_mac(out: &[u8]) -> (r: Option<String>)
    ensures
        r matches Some(m) ==> hw_mac_of(out@) == Some(m@),
        r is None ==> hw_mac_of(out@) is None,
{
    let text = match output_chars(out) {
        Some(t) => t,
        None => {
            return None;
        },
    };
    let ws = words_of(&text);
    let colon = chars_of(":");
    let n = ws.len();
    let ghost all = views(ws@);
    assert(all.skip(0) =~= all);
    for i in 0..n
        invariant
            n == ws@.len(),
            all == views(ws@),
            all == words(text@),
            output_text(out@) == Some(text@),
            colon@ == ":"@,
            first_mac_word(all) == first_mac_word(all.skip(i as int)),
    {
        assert(all.skip(i as int)[0] == ws@[i as int]@);
        assert(all.skip(i as int).drop_first() =~= all.skip(i + 1));
        if contains_chars(&ws[i], &colon) && crate::text::utf8_len_is(&ws[i], 17) {
            return Some(string_of(&ws[i]));
        }
    }
    assert(all.skip(n as int) =~= Seq::<Seq<char>>::empty());
    None
}

/// Restoring the interface's burned-in address when `networksetup` reports one.
pub fn mac_spoof_restore(iface: &str, getmacaddress_out: Option<&[u8]>) -> (r: Vec<Action>)
    ensures
        action_views(r@) == match bytes_view(getmacaddress_out) {
            Some(b) => match hw_mac_of(b) {
                Some(m) => set_ether_plan(iface@, m),
                None => Seq::empty(),
            },
            None => Seq::empty(),
        },
{
    let found = match getmacaddress_out {
        Some(b) => hw_mac(b),
        None => None,
    };
    match found {
        Some(orig) => set_ether(iface, orig.as_str()),
        None => {
            let v: Vec<Action> = Vec::new();
            assert(action_views(v@) =~= Seq::<ActionView>::empty());
            v
        },
    }
}

} // verus!

verus! {

proof fn lemma_hex_byte(b: Seq<u8>)
    requires
        b.len() == 1,
    ensures
        hex_lower(b) == seq![crate::hex::hex_digit(b[0] / 16), crate::hex::hex_digit(b[0] % 16)],
        0x30 <= (crate::hex::hex_digit(b[0] / 16) as u32) <= 0x66,
        0x30 <= (crate::hex::hex_digit(b[0] % 16) as u32) <= 0x66,
{
    assert(b.drop_last() =~= Seq::<u8>::empty());
    assert(b.last() == b[0]);
    assert(hex_lower(b.drop_last()) =~= Seq::<char>::empty());
    let n0 = b[0] / 16;
    let n1 = b[0] % 16;
    if n0 < 10 {
        assert((crate::hex::hex_digit(n0) as u32) == n0 + 48);
    } else {
        assert((crate::hex::hex_digit(n0) as u32) == n0 + 87);
    }
    if n1 < 10 {
        assert((crate::hex::hex_digit(n1) as u32) == n1 + 48);
    } else {
        assert((crate::hex::hex_digit(n1) as u32) == n1 + 87);
    }
    assert(hex_lower(b) =~= seq![crate::hex::hex_digit(b[0] / 16), crate::hex::hex_digit(b[0] % 16)]);
}

/// The text of six bytes is 17 characters, with `:` third, all of them between `0`
/// and `f` in ASCII.
proof fn lemma_mac_text_shape(b: Seq<u8>)
    requires
        b.len() == 6,
    ensures
        mac_text(b).len() == 17,
        mac_text(b)[2] == ':',
        forall|k: int| 0 <= k < 17 ==> 0x30 <= (#[trigger] mac_text(b)[k] as u32) <= 0x66,
{
    lemma_hex_byte(b.subrange(0, 1));
    lemma_hex_byte(b.subrange(1, 2));
    lemma_hex_byte(b.subrange(2, 3));
    lemma_hex_byte(b.subrange(3, 4));
    lemma_hex_byte(b.subrange(4, 5));
    lemma_hex_byte(b.subrange(5, 6));
    let t = mac_text(b);
    assert(t.len() == 17);
    assert forall|k: int| 0 <= k < 17 implies 0x30 <= (#[trigger] t[k] as u32) <= 0x66 by {
        assert((':' as u32) == 0x3a);
    }
}

proof fn lemma_utf8_len_ascii(s: Seq<char>)
    requires
        forall|k: int| 0 <= k < s.len() ==> (#[trigger] s[k] as u32) <= 0x7f,
    ensures
        crate::text::utf8_len(s) == s.len(),
    decreases s.len(),
{
    if s.len() > 0 {
        assert forall|k: int| 0 <= k < s.drop_first().len() implies (#[trigger] s.drop_first()[k] as u32) <= 0x7f by {
            assert(s.drop_first()[k] == s[k + 1]);
        }
        lemma_utf8_len_ascii(s.drop_first());
        assert((s[0] as u32) <= 0x7f);
    }
}

/// The text of an identifier: three bytes as `xx:xx:xx`.
pub open spec fn oui_text(o: Seq<u8>) -> Seq<char> {
    hex_lower(o.subrange(0, 1)) + seq![':'] + hex_lower(o.subrange(1, 2)) + seq![':'] + hex_lower(o.subrange(2, 3))
}

/// Every spoofed address carries one of Apple's identifiers, and it is a hardware
/// address as restoring reads one from `networksetup`: a single word of 17 bytes that
/// contains `:`.
pub proof fn lemma_spoofed_mac_recognized(random: Seq<u8>)
    requires
        random.len() >= 4,
    ensures
        exists|k: int| 0 <= k < apple_ouis().len() && spoofed_mac(random).take(8) == oui_text(#[trigger] apple_ouis()[k]),
        first_mac_word(words(spoofed_mac(random))) == Some(spoofed_mac(random)),
{
    let oui = apple_ouis()[(random[0] % 10) as int];
    let b = oui + random.subrange(1, 4);
    assert(oui.len() == 3);
    assert(b.subrange(0, 1) =~= oui.subrange(0, 1));
    assert(b.subrange(1, 2) =~= oui.subrange(1, 2));
    assert(b.subrange(2, 3) =~= oui.subrange(2, 3));
    lemma_hex_byte(oui.subrange(0, 1));
    lemma_hex_byte(oui.subrange(1, 2));
    lemma_hex_byte(oui.subrange(2, 3));
    lemma_hex_byte(b.subrange(0, 1));
    lemma_hex_byte(b.subrange(1, 2));
    lemma_hex_byte(b.subrange(2, 3));
    assert(mac_text(b).take(8) =~= oui_text(oui));
    let t = spoofed_mac(random);
    lemma_mac_text_shape(b);
    assert forall|k: int| 0 <= k < t.len() implies !crate::text::is_ws(#[trigger] t[k]) by {
        assert(0x30 <= (t[k] as u32) <= 0x66);
    }
    crate::text::lemma_split_ws_plain(t);
    assert(seq![t].drop_last() =~= Seq::<Seq<char>>::empty());
    assert(seq![t].last() == t);
    assert(t.len() > 0);
    assert(crate::text::nonempty(Seq::<Seq<char>>::empty()) =~= Seq::<Seq<char>>::empty());
    assert(crate::text::nonempty(seq![t]) == crate::text::nonempty(seq![t].drop_last()).push(t));
    assert(crate::text::nonempty(seq![t]) =~= seq![t]);
    reveal_strlit(":");
    assert(t.subrange(2, 3) =~= ":"@);
    assert(crate::text::occurs_at(t, ":"@, 2));
    assert forall|k: int| 0 <= k < t.len() implies (#[trigger] t[k] as u32) <= 0x7f by {
        assert(0x30 <= (t[k] as u32) <= 0x66);
    }
    lemma_utf8_len_ascii(t);
    crate::text::lemma_utf8_len_encode(t);
    assert(seq![t][0] == t);
}

} // verus!

verus! {

/// What `ifconfig` keeps of an interface: whether it is up, and its hardware address.
pub struct LinkState {
    pub up: bool,
    pub mac: Seq<char>,
}

/// What one action does to interface `iface`: `ifconfig` run as root through the helper
/// brings it down or up, or sets its hardware address; anything else leaves it.
pub open spec fn link_effect(s: LinkState, iface: Seq<char>, a: ActionView) -> LinkState {
    match a {
        ActionView::Run(prog, args) => if prog == crate::helper::TS_HELPER@ && args.len() >= 3 && args[0]
            == "/sbin/ifconfig"@ && args[1] == iface {
            if args.len() == 3 && args[2] == "down"@ {
                LinkState { up: false, ..s }
            } else if args.len() == 3 && args[2] == "up"@ {
                LinkState { up: true, ..s }
            } else if args.len() == 4 && args[2] == "ether"@ {
                LinkState { mac: args[3], ..s }
            } else {
                s
            }
        } else {
            s
        },
        _ => s,
    }
}

/// The state of `iface` after a plan.
pub open spec fn link_after(s: LinkState, iface: Seq<char>, plan: Seq<ActionView>) -> LinkState
    decreases plan.len(),
{
    if plan.len() == 0 {
        s
    } else {
        link_after(link_effect(s, iface, plan[0]), iface, plan.drop_first())
    }
}

proof fn lemma_set_ether_steps(s: LinkState, iface: Seq<char>, mac: Seq<char>)
    ensures
        set_ether_plan(iface, mac)[2] == run_root("/sbin/ifconfig"@, seq![iface, "ether"@, mac]),
        !link_after(s, iface, set_ether_plan(iface, mac).take(2)).up,
        link_after(s, iface, set_ether_plan(iface, mac)) == (LinkState { up: true, mac }),
{
    reveal_strlit("down");
    reveal_strlit("up");
    reveal_strlit("ether");
    assert("down"@.len() == 4 && "up"@.len() == 2 && "ether"@.len() == 5);
    let p = set_ether_plan(iface, mac);
    let a0 = p[0];
    let a1 = p[1];
    let a2 = p[2];
    let a3 = p[3];
    assert(seq![iface, "ether"@, mac] =~= seq![iface, "ether"@, mac]);
    assert(seq!["/sbin/ifconfig"@] + seq![iface, "down"@] =~= seq!["/sbin/ifconfig"@, iface, "down"@]);
    assert(seq!["/sbin/ifconfig"@] + seq![iface, "ether"@, mac] =~= seq!["/sbin/ifconfig"@, iface, "ether"@, mac]);
    assert(seq!["/sbin/ifconfig"@] + seq![iface, "up"@] =~= seq!["/sbin/ifconfig"@, iface, "up"@]);
    let s1 = link_effect(s, iface, a0);
    let s2 = link_effect(s1, iface, a1);
    let s3 = link_effect(s2, iface, a2);
    let s4 = link_effect(s3, iface, a3);
    assert(!s1.up && s2 == s1 && s3 == (LinkState { mac, ..s2 }) && s4 == (LinkState { up: true, mac }));
    let t = p.take(2);
    assert(t.drop_first().drop_first() =~= Seq::<ActionView>::empty());
    assert(t[0] == a0 && t.drop_first()[0] == a1);
    assert(link_after(s1, iface, t.drop_first()) == link_after(s2, iface, t.drop_first().drop_first()));
    assert(link_after(s, iface, t) == s2);
    assert(p.drop_first()[0] == a1);
    assert(p.drop_first().drop_first()[0] == a2);
    assert(p.drop_first().drop_first().drop_first()[0] == a3);
    assert(p.drop_first().drop_first().drop_first().drop_first() =~= Seq::<ActionView>::empty());
    let q1 = p.drop_first();
    let q2 = q1.drop_first();
    let q3 = q2.drop_first();
    let q4 = q3.drop_first();
    assert(link_after(s3, iface, q3) == link_after(s4, iface, q4));
    assert(link_after(s2, iface, q2) == link_after(s3, iface, q3));
    assert(link_after(s1, iface, q1) == link_after(s2, iface, q2));
    assert(link_after(s, iface, p) == link_after(s1, iface, q1));
    assert(link_after(s, iface, p) == s4);
}

/// Setting an address, whatever the interface's state before: the address is changed
/// while the interface is down, and afterwards the interface is up with the new address.
/// So spoofing leaves it up with the spoofed address, and restoring with its own.
pub proof fn lemma_set_ether_effect(s: LinkState, iface: Seq<char>, mac: Seq<char>, random: Seq<u8>)
    ensures
        set_ether_plan(iface, mac)[2] == run_root("/sbin/ifconfig"@, seq![iface, "ether"@, mac]),
        !link_after(s, iface, set_ether_plan(iface, mac).take(2)).up,
        link_after(s, iface, set_ether_plan(iface, mac)) == (LinkState { up: true, mac }),
        link_after(s, iface, mac_spoof_plan(iface, random)) == (LinkState { up: true, mac: spoofed_mac(random) }),
{
    lemma_set_ether_steps(s, iface, mac);
    lemma_set_ether_steps(s, iface, spoofed_mac(random));
}

} // verus!
