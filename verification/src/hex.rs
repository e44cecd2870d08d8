use vstd::prelude::*;

verus! {

/// Lowercase hexadecimal digit for `n < 16`.
pub open spec fn hex_digit(n: u8) -> char {
    if n < 10 {
        (n + 48) as char
    } else {
        (n + 87) as char
    }
}

/// The bytes as two lowercase hexadecimal digits each (`format!("{:02x}", b)` per byte).
pub open spec fn hex_lower(b: Seq<u8>) -> Seq<char>
    decreases b.len(),
{
    if b.len() == 0 {
        Seq::empty()
    } else {
        hex_lower(b.drop_last()) + seq![hex_digit(b.last() / 16), hex_digit(b.last() % 16)]
    }
}

pub proof fn lemma_hex_lower_len(b: Seq<u8>)
    ensures
        hex_lower(b).len() == 2 * b.len(),
    decreases b.len(),
{
    if b.len() > 0 {
        lemma_hex_lower_len(b.drop_last());
    }
}

fn digit_char(n: u8) -> (c: char)
    requires
        n < 16,
    ensures
        c == hex_digit(n),
{
    if n < 10 {
        (n + 48) as char
    } else {
        (n + 87) as char
    }
}

/// Lowercase hexadecimal encoding of `b`.
pub fn hex_encode(b: &[u8]) -> (r: Vec<char>)
    ensures
        r@ == hex_lower(b@),
{
    let mut r: Vec<char> = Vec::new();
    let n = b.len();
    for i in 0..n
        invariant
            n == b@.len(),
            r@ == hex_lower(b@.take(i as int)),
    {
        let x = b[i];
        r.push(digit_char(x / 16));
        r.push(digit_char(x % 16));
        assert(b@.take(i + 1).drop_last() =~= b@.take(i as int));
        assert(r@ =~= hex_lower(b@.take(i + 1)));
    }
    assert(b@.take(n as int) =~= b@);
    r
}

/// Value of one hexadecimal digit, either case.
pub open spec fn hex_value(c: char) -> Option<u8> {
    let u = c as u32;
    if 48 <= u && u <= 57 {
        Some((u - 48) as u8)
    } else if 97 <= u && u <= 102 {
        Some((u - 87) as u8)
    } else if 65 <= u && u <= 70 {
        Some((u - 55) as u8)
    } else {
        None
    }
}

/// The byte written by the two hexadecimal digits `c0 c1` (either case).
pub open spec fn pair_value(c0: char, c1: char) -> Option<u8> {
    match (hex_value(c0), hex_value(c1)) {
        (Some(h), Some(l)) => Some((h * 16 + l) as u8),
        _ => None,
    }
}

/// Decoding of a hexadecimal text two characters at a time; `None` when the
/// length is odd or any pair does not parse.
pub open spec fn hex_decoded(s: Seq<char>) -> Option<Seq<u8>>
    decreases s.len(),
{
    if s.len() == 0 {
        Some(Seq::empty())
    } else if s.len() == 1 {
        None
    } else {
        match (hex_decoded(s.drop_last().drop_last()), pair_value(s[s.len() - 2], s.last())) {
            (Some(p), Some(b)) => Some(p.push(b)),
            _ => None,
        }
    }
}

pub proof fn lemma_hex_decoded_len(s: Seq<char>)
    ensures
        hex_decoded(s) matches Some(d) ==> s.len() == 2 * d.len(),
    decreases s.len(),
{
    if s.len() >= 2 {
        lemma_hex_decoded_len(s.drop_last().drop_last());
    }
}

/// A decodable text has decodable even-length prefixes.
pub proof fn lemma_hex_decoded_prefix(s: Seq<char>, k: int)
    requires
        0 <= k,
        2 * k <= s.len(),
        hex_decoded(s) is Some,
    ensures
        hex_decoded(s.take(2 * k)) is Some,
    decreases s.len(),
{
    if 2 * k == s.len() {
        assert(s.take(2 * k) =~= s);
    } else {
        lemma_hex_decoded_len(s);
        let t = s.drop_last().drop_last();
        lemma_hex_decoded_prefix(t, k);
        assert(t.take(2 * k) =~= s.take(2 * k));
    }
}

/// Odd-length texts do not decode.
pub proof fn lemma_hex_decoded_odd(s: Seq<char>)
    requires
        s.len() % 2 == 1,
    ensures
        hex_decoded(s) is None,
    decreases s.len(),
{
    if s.len() > 1 {
        lemma_hex_decoded_odd(s.drop_last().drop_last());
    }
}

proof fn lemma_hex_digit_value(n: u8)
    requires
        n < 16,
    ensures
        hex_value(hex_digit(n)) == Some(n),
        hex_digit(n) != '+',
{
    if n < 10 {
        assert((hex_digit(n) as u32) == n + 48);
    } else {
        assert((hex_digit(n) as u32) == n + 87);
    }
}

/// Decoding the lowercase hexadecimal text of any bytes gives those bytes back.
pub proof fn lemma_hex_round_trip(b: Seq<u8>)
    ensures
        hex_decoded(hex_lower(b)) == Some(b),
    decreases b.len(),
{
    if b.len() > 0 {
        lemma_hex_round_trip(b.drop_last());
        lemma_hex_lower_len(b.drop_last());
        let x = b.last();
        lemma_hex_digit_value(x / 16);
        lemma_hex_digit_value(x % 16);
        let s = hex_lower(b);
        assert(s.drop_last().drop_last() =~= hex_lower(b.drop_last()));
        assert(s[s.len() - 2] == hex_digit(x / 16));
        assert(s.last() == hex_digit(x % 16));
        assert((x / 16) * 16 + x % 16 == x);
        assert(b.drop_last().push(x) =~= b);
    }
}

/// The characters lowercase hexadecimal text is made of.
pub open spec fn is_hex_lower_digit(c: char) -> bool {
    ('0' <= c && c <= '9') || ('a' <= c && c <= 'f')
}

pub proof fn lemma_hex_lower_chars(b: Seq<u8>)
    ensures
        forall|k: int| 0 <= k < hex_lower(b).len() ==> is_hex_lower_digit(#[trigger] hex_lower(b)[k]),
    decreases b.len(),
{
    if b.len() > 0 {
        lemma_hex_lower_chars(b.drop_last());
        let p = hex_lower(b.drop_last());
        let x = b.last();
        lemma_hex_digit_value(x / 16);
        lemma_hex_digit_value(x % 16);
        assert forall|k: int| 0 <= k < hex_lower(b).len() implies is_hex_lower_digit(#[trigger] hex_lower(b)[k]) by {
            if k < p.len() {
                assert(hex_lower(b)[k] == p[k]);
            } else {
                let n = if k == p.len() { x / 16 } else { x % 16 };
                assert(hex_lower(b)[k] == hex_digit(n));
                if n < 10 {
                    assert((hex_digit(n) as u32) == n + 48);
                } else {
                    assert((hex_digit(n) as u32) == n + 87);
                }
            }
        }
    }
}

fn hex_value_of(c: char) -> (r: Option<u8>)
    ensures
        r == hex_value(c),
{
    let u = c as u32;
    if 48 <= u && u <= 57 {
        Some((u - 48) as u8)
    } else if 97 <= u && u <= 102 {
        Some((u - 87) as u8)
    } else if 65 <= u && u <= 70 {
        Some((u - 55) as u8)
    } else {
        None
    }
}

fn pair_value_of(c0: char, c1: char) -> (r: Option<u8>)
    ensures
        r == pair_value(c0, c1),
{
    match (hex_value_of(c0), hex_value_of(c1)) {
        (Some(h), Some(l)) => Some(h * 16 + l),
        _ => None,
    }
}

/// Decodes hexadecimal text; `None` on odd length or when any character is not one of
/// `0-9`, `a-f`, `A-F`.
pub fn hex_decode(s: &str) -> (r: Option<Vec<u8>>)
    ensures
        r matches Some(v) ==> hex_decoded(s@) == Some(v@),
        r is None ==> hex_decoded(s@) is None,
{
    let v = crate::text::chars_of(s);
    let n = v.len();
    if n % 2 != 0 {
        proof {
            lemma_hex_decoded_odd(v@);
        }
        return None;
    }
    let mut out: Vec<u8> = Vec::new();
    let mut i: usize = 0;
    while i < n
        invariant
            v@ == s@,
            n == v@.len(),
            n % 2 == 0,
            i % 2 == 0,
            i <= n,
            hex_decoded(v@.take(i as int)) == Some(out@),
        decreases n - i,
    {
        let ghost t = v@.take(i + 2);
        assert(t.drop_last().drop_last() =~= v@.take(i as int));
        assert(t[t.len() - 2] == v@[i as int]);
        assert(t.last() == v@[i + 1]);
        match pair_value_of(v[i], v[i + 1]) {
            Some(b) => {
                out.push(b);
            },
            None => {
                proof {
                    assert(hex_decoded(t) is None);
                    assert(2 * ((i + 2) / 2) == i + 2);
                    if hex_decoded(v@) is Some {
                        let k: int = (i + 2) / 2;
                        lemma_hex_decoded_prefix(v@, k);
                        assert(v@.take(2 * k) == t);
                    }
                }
                return None;
            },
        }
        i += 2;
    }
    assert(v@.take(n as int) =~= v@);
    Some(out)
}

} // verus!

verus! {

/// Hexadecimal text decodes exactly when it has even length and every two-character
/// chunk is two hexadecimal digits, and then byte `i` is the value of chunk `i`.
pub proof fn lemma_hex_decoded_chunks(s: Seq<char>)
    ensures
        hex_decoded(s) matches Some(v) ==> s.len() == 2 * v.len() && forall|i: int|
            0 <= i < v.len() ==> pair_value(#[trigger] s[2 * i], s[2 * i + 1]) == Some(v[i]),
        hex_decoded(s) is None <==> (s.len() % 2 == 1 || exists|i: int|
            0 <= i < s.len() / 2 && (#[trigger] pair_value(s[2 * i], s[2 * i + 1])) is None),
    decreases s.len(),
{
    if s.len() == 1 {
        assert(pair_value(s[0], s[1]) == pair_value(s[0], s[1]));
    } else if s.len() >= 2 {
        let t = s.drop_last().drop_last();
        lemma_hex_decoded_chunks(t);
        let n = (s.len() - 2) / 2;
        assert forall|i: int| 0 <= i < t.len() implies t[i] == s[i] by {}
        if s.len() % 2 == 1 {
            lemma_hex_decoded_odd(s);
        } else {
            assert(s.len() == 2 * n + 2);
            assert(s[s.len() - 2] == s[2 * n]);
            match hex_decoded(s) {
                Some(v) => {
                    let p = hex_decoded(t)->0;
                    assert(v == p.push(v.last()));
                    assert forall|i: int| 0 <= i < v.len() implies pair_value(#[trigger] s[2 * i], s[2 * i + 1]) == Some(v[i]) by {
                        if i < p.len() {
                            assert(t[2 * i] == s[2 * i] && t[2 * i + 1] == s[2 * i + 1]);
                            assert(v[i] == p[i]);
                        }
                    }
                },
                None => {
                    if hex_decoded(t) is None {
                        let j = choose|j: int| 0 <= j < t.len() / 2 && (#[trigger] pair_value(t[2 * j], t[2 * j + 1])) is None;
                        assert(t[2 * j] == s[2 * j] && t[2 * j + 1] == s[2 * j + 1]);
                        assert(pair_value(s[2 * j], s[2 * j + 1]) is None);
                    } else {
                        assert(pair_value(s[2 * n], s[2 * n + 1]) is None);
                    }
                },
            }
            if exists|i: int| 0 <= i < s.len() / 2 && (#[trigger] pair_value(s[2 * i], s[2 * i + 1])) is None {
                let i = choose|i: int| 0 <= i < s.len() / 2 && (#[trigger] pair_value(s[2 * i], s[2 * i + 1])) is None;
                if i < n {
                    assert(t[2 * i] == s[2 * i] && t[2 * i + 1] == s[2 * i + 1]);
                    assert(pair_value(t[2 * i], t[2 * i + 1]) is None);
                }
            }
        }
    }
}

} // verus!
