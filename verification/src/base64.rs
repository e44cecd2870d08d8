use vstd::prelude::*;

verus! {

/// The base64 alphabet (`A-Z a-z 0-9 + /`).
pub open spec fn b64_char(n: u8) -> char {
    if n < 26 {
        (n + 65) as char
    } else if n < 52 {
        (n + 71) as char
    } else if n < 62 {
        (n - 4) as char
    } else if n == 62 {
        '+'
    } else {
        '/'
    }
}

/// Standard base64 with `=` padding, three bytes at a time.
pub open spec fn base64(d: Seq<u8>) -> Seq<char>
    decreases d.len(),
{
    if d.len() == 0 {
        Seq::empty()
    } else if d.len() == 1 {
        seq![b64_char(d[0] / 4), b64_char(((d[0] % 4) * 16) as u8), '=', '=']
    } else if d.len() == 2 {
        seq![
            b64_char(d[0] / 4),
            b64_char(((d[0] % 4) * 16 + d[1] / 16) as u8),
            b64_char(((d[1] % 16) * 4) as u8),
            '=',
        ]
    } else {
        seq![
            b64_char(d[0] / 4),
            b64_char(((d[0] % 4) * 16 + d[1] / 16) as u8),
            b64_char(((d[1] % 16) * 4 + d[2] / 64) as u8),
            b64_char(d[2] % 64),
        ] + base64(d.skip(3))
    }
}

fn b64_char_of(n: u8) -> (c: char)
    requires
        n < 64,
    ensures
        c == b64_char(n),
{
    if n < 26 {
        (n + 65) as char
    } else if n < 52 {
        (n + 71) as char
    } else if n < 62 {
        (n - 4) as char
    } else if n == 62 {
        '+'
    } else {
        '/'
    }
}

/// Base64 encoding of `data`, with padding.
pub fn base64_encode(data: &[u8]) -> (r: String)
    ensures
        r@ == base64(data@),
{
    let mut out: Vec<char> = Vec::new();
    let n = data.len();
    let mut i: usize = 0;
    assert(data@.skip(0) =~= data@);
    assert(out@ + base64(data@) =~= base64(data@));
    while i < n
        invariant
            i <= n,
            n == data@.len(),
            out@ + base64(data@.skip(i as int)) == base64(data@),
        decreases n - i,
    {
        let rest = n - i;
        let b0 = data[i];
        let b1: u8 = if rest > 1 { data[i + 1] } else { 0 };
        let b2: u8 = if rest > 2 { data[i + 2] } else { 0 };
        let ghost d = data@.skip(i as int);
        assert(d[0] == b0);
        assert(rest > 1 ==> d[1] == b1);
        assert(rest > 2 ==> d[2] == b2);
        assert(b0 >> 2 == b0 / 4) by (bit_vector);
        assert(((b0 & 3) << 4) | (b1 >> 4) == (b0 % 4) * 16 + b1 / 16) by (bit_vector);
        assert(((b1 & 0xf) << 2) | (b2 >> 6) == (b1 % 16) * 4 + b2 / 64) by (bit_vector);
        assert(b2 & 0x3f == b2 % 64) by (bit_vector);
        assert(b0 >> 2 < 64) by (bit_vector);
        assert(((b0 & 3) << 4) | (b1 >> 4) < 64) by (bit_vector);
        assert(((b1 & 0xf) << 2) | (b2 >> 6) < 64) by (bit_vector);
        assert(b2 & 0x3f < 64) by (bit_vector);
        let c0 = b64_char_of(b0 >> 2);
        let c1 = b64_char_of(((b0 & 3) << 4) | (b1 >> 4));
        let c2 = if rest > 1 { b64_char_of(((b1 & 0xf) << 2) | (b2 >> 6)) } else { '=' };
        let c3 = if rest > 2 { b64_char_of(b2 & 0x3f) } else { '=' };
        assert(rest == 1 ==> ((b0 % 4) * 16 + b1 / 16) as u8 == ((b0 % 4) * 16) as u8);
        let ghost before = out@;
        out.push(c0);
        out.push(c1);
        out.push(c2);
        out.push(c3);
        let step: usize = if rest >= 3 { 3 } else { rest };
        proof {
            if rest >= 3 {
                assert(d.skip(3) =~= data@.skip(i + 3));
            } else {
                assert(data@.skip(i + step) =~= Seq::<u8>::empty());
            }
            assert(out@ + base64(data@.skip(i + step)) =~= before + base64(d));
        }
        i = i + step;
    }
    crate::text::string_of(&out)
}

/// Lengths: four characters for every started group of three bytes.
pub proof fn lemma_base64_len(d: Seq<u8>)
    ensures
        base64(d).len() == 4 * ((d.len() + 2) / 3),
    decreases d.len(),
{
    if d.len() >= 3 {
        lemma_base64_len(d.skip(3));
    }
}

/// The encoding holds only alphabet characters and `=`, so it can stand unquoted in a
/// shell command.
pub proof fn lemma_base64_charset(d: Seq<u8>)
    ensures
        forall|k: int| 0 <= k < base64(d).len() ==> {
            let c = #[trigger] base64(d)[k];
            ('A' <= c && c <= 'Z') || ('a' <= c && c <= 'z') || ('0' <= c && c <= '9') || c == '+' || c == '/'
                || c == '='
        },
    decreases d.len(),
{
    if d.len() >= 3 {
        lemma_base64_charset(d.skip(3));
        let head = seq![
            b64_char(d[0] / 4),
            b64_char(((d[0] % 4) * 16 + d[1] / 16) as u8),
            b64_char(((d[1] % 16) * 4 + d[2] / 64) as u8),
            b64_char(d[2] % 64),
        ];
        assert forall|k: int| 0 <= k < base64(d).len() implies {
            let c = #[trigger] base64(d)[k];
            ('A' <= c && c <= 'Z') || ('a' <= c && c <= 'z') || ('0' <= c && c <= '9') || c == '+' || c == '/'
                || c == '='
        } by {
            if k >= 4 {
                assert(base64(d)[k] == base64(d.skip(3))[k - 4]);
            } else {
                assert(base64(d)[k] == head[k]);
            }
        }
    }
}

} // verus!
