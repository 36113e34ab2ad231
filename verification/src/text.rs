//! Text primitives: decimal rendering of integers, hex encoding and
//! decoding, and ASCII case-insensitive substring search.

use vstd::prelude::*;
use vstd::string::StrSliceExecFns;
use vstd::string::StringExecFns;

verus! {

// ---------------------------------------------------------------------------
// Decimal rendering
// ---------------------------------------------------------------------------

/// The decimal digit character for `d` (`d < 10`).
pub open spec fn dec_digit(d: nat) -> char
    recommends
        d < 10,
{
    if d == 0 {
        '0'
    } else if d == 1 {
        '1'
    } else if d == 2 {
        '2'
    } else if d == 3 {
        '3'
    } else if d == 4 {
        '4'
    } else if d == 5 {
        '5'
    } else if d == 6 {
        '6'
    } else if d == 7 {
        '7'
    } else if d == 8 {
        '8'
    } else {
        '9'
    }
}

/// The usual decimal rendering of `n`: no sign, no leading zeros.
pub open spec fn dec_str(n: nat) -> Seq<char>
    decreases n,
{
    if n < 10 {
        seq![dec_digit(n)]
    } else {
        dec_str(n / 10) + seq![dec_digit(n % 10)]
    }
}

fn digit_str(d: u64) -> (r: &'static str)
    requires
        d < 10,
    ensures
        r@ == seq![dec_digit(d as nat)],
{
    if d == 0 {
        proof {
            reveal_strlit("0");
            assert("0"@ =~= seq![dec_digit(0)]);
        }
        "0"
    } else if d == 1 {
        proof {
            reveal_strlit("1");
            assert("1"@ =~= seq![dec_digit(1)]);
        }
        "1"
    } else if d == 2 {
        proof {
            reveal_strlit("2");
            assert("2"@ =~= seq![dec_digit(2)]);
        }
        "2"
    } else if d == 3 {
        proof {
            reveal_strlit("3");
            assert("3"@ =~= seq![dec_digit(3)]);
        }
        "3"
    } else if d == 4 {
        proof {
            reveal_strlit("4");
            assert("4"@ =~= seq![dec_digit(4)]);
        }
        "4"
    } else if d == 5 {
        proof {
            reveal_strlit("5");
            assert("5"@ =~= seq![dec_digit(5)]);
        }
        "5"
    } else if d == 6 {
        proof {
            reveal_strlit("6");
            assert("6"@ =~= seq![dec_digit(6)]);
        }
        "6"
    } else if d == 7 {
        proof {
            reveal_strlit("7");
            assert("7"@ =~= seq![dec_digit(7)]);
        }
        "7"
    } else if d == 8 {
        proof {
            reveal_strlit("8");
            assert("8"@ =~= seq![dec_digit(8)]);
        }
        "8"
    } else {
        proof {
            reveal_strlit("9");
            assert("9"@ =~= seq![dec_digit(9)]);
        }
        "9"
    }
}

/// Render `n` in decimal.
pub fn u64_to_string(n: u64) -> (r: String)
    ensures
        r@ == dec_str(n as nat),
    decreases n,
{
    if n < 10 {
        digit_str(n).to_owned()
    } else {
        let mut s = u64_to_string(n / 10);
        s.append(digit_str(n % 10));
        s
    }
}

// ---------------------------------------------------------------------------
// Hex encoding and decoding
// ---------------------------------------------------------------------------

/// True for the ASCII hex digits `0-9`, `a-f`, `A-F`.
pub open spec fn is_hex_digit(c: char) -> bool {
    let v = c as u32;
    (48 <= v && v <= 57) || (97 <= v && v <= 102) || (65 <= v && v <= 70)
}

/// The numeric value of a hex digit character.
pub open spec fn hex_digit_val(c: char) -> nat
    recommends
        is_hex_digit(c),
{
    let v = c as u32;
    if 48 <= v && v <= 57 {
        (v - 48) as nat
    } else if 97 <= v && v <= 102 {
        (v - 87) as nat
    } else if 65 <= v && v <= 70 {
        (v - 55) as nat
    } else {
        0
    }
}

/// The lowercase hex digit character for `d` (`d < 16`).
pub open spec fn hex_lower_digit(d: nat) -> char
    recommends
        d < 16,
{
    if d < 10 {
        dec_digit(d)
    } else if d == 10 {
        'a'
    } else if d == 11 {
        'b'
    } else if d == 12 {
        'c'
    } else if d == 13 {
        'd'
    } else if d == 14 {
        'e'
    } else {
        'f'
    }
}

/// A string is decodable hex when it has even length and only hex digits.
pub open spec fn valid_hex(s: Seq<char>) -> bool {
    s.len() % 2 == 0 && (forall|i: int| 0 <= i < s.len() ==> is_hex_digit(#[trigger] s[i]))
}

/// The byte encoded by the hex digit pair at positions `2k` and `2k + 1`.
pub open spec fn hex_byte_at(s: Seq<char>, k: int) -> u8
    recommends
        0 <= k < s.len() / 2,
{
    (hex_digit_val(s[2 * k]) * 16 + hex_digit_val(s[2 * k + 1])) as u8
}

/// The bytes denoted by a hex string.
pub open spec fn hex_bytes(s: Seq<char>) -> Seq<u8> {
    Seq::new((s.len() / 2) as nat, |k: int| hex_byte_at(s, k))
}

/// The lowercase hex rendering of a byte sequence: two digits per byte.
pub open spec fn hex_encode_spec(bs: Seq<u8>) -> Seq<char>
    decreases bs.len(),
{
    if bs.len() == 0 {
        Seq::empty()
    } else {
        hex_encode_spec(bs.drop_last()) + seq![
            hex_lower_digit(bs.last() as nat / 16),
            hex_lower_digit(bs.last() as nat % 16),
        ]
    }
}

pub proof fn lemma_hex_encode_len(bs: Seq<u8>)
    ensures
        hex_encode_spec(bs).len() == 2 * bs.len(),
    decreases bs.len(),
{
    if bs.len() > 0 {
        lemma_hex_encode_len(bs.drop_last());
    }
}

fn hex_val_exec(c: char) -> (r: Option<u8>)
    ensures
        r is Some <==> is_hex_digit(c),
        r matches Some(v) ==> v < 16 && v as nat == hex_digit_val(c),
{
    let v = c as u32;
    if 48 <= v && v <= 57 {
        Some((v - 48) as u8)
    } else if 97 <= v && v <= 102 {
        Some((v - 87) as u8)
    } else if 65 <= v && v <= 70 {
        Some((v - 55) as u8)
    } else {
        None
    }
}

/// The one-character string for the lowercase hex digit `d`.
pub fn hex_digit_str(d: u8) -> (r: &'static str)
    requires
        d < 16,
    ensures
        r@ == seq![hex_lower_digit(d as nat)],
{
    if d < 10 {
        digit_str(d as u64)
    } else if d == 10 {
        proof {
            reveal_strlit("a");
            assert("a"@ =~= seq![hex_lower_digit(10)]);
        }
        "a"
    } else if d == 11 {
        proof {
            reveal_strlit("b");
            assert("b"@ =~= seq![hex_lower_digit(11)]);
        }
        "b"
    } else if d == 12 {
        proof {
            reveal_strlit("c");
            assert("c"@ =~= seq![hex_lower_digit(12)]);
        }
        "c"
    } else if d == 13 {
        proof {
            reveal_strlit("d");
            assert("d"@ =~= seq![hex_lower_digit(13)]);
        }
        "d"
    } else if d == 14 {
        proof {
            reveal_strlit("e");
            assert("e"@ =~= seq![hex_lower_digit(14)]);
        }
        "e"
    } else {
        proof {
            reveal_strlit("f");
            assert("f"@ =~= seq![hex_lower_digit(15)]);
        }
        "f"
    }
}

/// Decode a hex string to bytes; `None` when the string is not valid hex.
pub fn hex_decode(s: &str) -> (r: Option<Vec<u8>>)
    ensures
        r is Some <==> valid_hex(s@),
        r matches Some(v) ==> v@ == hex_bytes(s@),
{
    let n = s.unicode_len();
    if n % 2 != 0 {
        return None;
    }
    let mut out: Vec<u8> = Vec::new();
    let mut i: usize = 0;
    while i < n
        invariant
            n == s@.len(),
            n % 2 == 0,
            i % 2 == 0,
            i <= n,
            forall|j: int| 0 <= j < i ==> is_hex_digit(#[trigger] s@[j]),
            out@ =~= Seq::new((i / 2) as nat, |k: int| hex_byte_at(s@, k)),
        decreases n - i,
    {
        let c1 = s.get_char(i);
        let c2 = s.get_char(i + 1);
        let v1 = match hex_val_exec(c1) {
            Some(v) => v,
            None => {
                return None;
            },
        };
        let v2 = match hex_val_exec(c2) {
            Some(v) => v,
            None => {
                return None;
            },
        };
        out.push(v1 * 16 + v2);
        proof {
            assert(2 * ((i / 2) as int) == i as int);
            assert(out@ =~= Seq::new((i / 2 + 1) as nat, |k: int| hex_byte_at(s@, k)));
        }
        i = i + 2;
    }
    proof {
        assert(out@ =~= hex_bytes(s@));
    }
    Some(out)
}

/// Encode bytes as lowercase hex.
pub fn hex_encode(bs: &Vec<u8>) -> (r: String)
    ensures
        r@ == hex_encode_spec(bs@),
{
    let mut out = String::new();
    let mut i: usize = 0;
    while i < bs.len()
        invariant
            i <= bs@.len(),
            out@ == hex_encode_spec(bs@.take(i as int)),
        decreases bs@.len() - i,
    {
        let b = bs[i];
        out.append(hex_digit_str(b / 16));
        out.append(hex_digit_str(b % 16));
        proof {
            assert(bs@.take(i as int + 1).drop_last() =~= bs@.take(i as int));
            assert(bs@.take(i as int + 1).last() == bs@[i as int]);
        }
        i = i + 1;
    }
    proof {
        assert(bs@.take(bs@.len() as int) =~= bs@);
    }
    out
}

/// Hex encoding then decoding gives the bytes back.
pub proof fn lemma_hex_roundtrip(bs: Seq<u8>)
    ensures
        valid_hex(hex_encode_spec(bs)),
        hex_bytes(hex_encode_spec(bs)) =~= bs,
    decreases bs.len(),
{
    lemma_hex_encode_len(bs);
    if bs.len() == 0 {
    } else {
        let pre = bs.drop_last();
        let enc = hex_encode_spec(bs);
        let b = bs.last();
        lemma_hex_roundtrip(pre);
        lemma_hex_encode_len(pre);
        assert forall|i: int| 0 <= i < enc.len() implies is_hex_digit(#[trigger] enc[i]) by {
            if i < enc.len() - 2 {
                assert(enc[i] == hex_encode_spec(pre)[i]);
            } else if i == enc.len() - 2 {
                assert(enc[i] == hex_lower_digit(b as nat / 16));
            } else {
                assert(enc[i] == hex_lower_digit(b as nat % 16));
            }
        }
        assert forall|k: int| 0 <= k < enc.len() / 2 implies hex_byte_at(enc, k) == bs[k] by {
            if k < pre.len() {
                assert(enc[2 * k] == hex_encode_spec(pre)[2 * k]);
                assert(enc[2 * k + 1] == hex_encode_spec(pre)[2 * k + 1]);
                assert(hex_byte_at(enc, k) == hex_byte_at(hex_encode_spec(pre), k));
                assert(hex_bytes(hex_encode_spec(pre))[k] == pre[k]);
            } else {
                assert(enc[2 * k] == hex_lower_digit(b as nat / 16));
                assert(enc[2 * k + 1] == hex_lower_digit(b as nat % 16));
            }
        }
    }
}

// ---------------------------------------------------------------------------
// String equality
// ---------------------------------------------------------------------------

/// Character-wise string equality.
pub fn str_eq(a: &str, b: &str) -> (r: bool)
    ensures
        r == (a@ == b@),
{
    let n = a.unicode_len();
    let m = b.unicode_len();
    if n != m {
        return false;
    }
    let mut i: usize = 0;
    while i < n
        invariant
            n == a@.len(),
            n == b@.len(),
            i <= n,
            forall|j: int| 0 <= j < i ==> a@[j] == b@[j],
        decreases n - i,
    {
        if a.get_char(i) != b.get_char(i) {
            return false;
        }
        i = i + 1;
    }
    proof {
        assert(a@ =~= b@);
    }
    true
}

// ---------------------------------------------------------------------------
// ASCII case-insensitive substring search
// ---------------------------------------------------------------------------

/// The character code with ASCII uppercase letters folded to lowercase.
pub open spec fn lower_code(c: char) -> u32 {
    let v = c as u32;
    if 65 <= v && v <= 90 {
        (v + 32) as u32
    } else {
        v
    }
}

/// Case-insensitive character equality (ASCII folding only).
pub open spec fn ci_eq(a: char, b: char) -> bool {
    lower_code(a) == lower_code(b)
}

/// The pattern `p` matches `t` at offset `k`, case-insensitively.
pub open spec fn ci_matches_at(t: Seq<char>, p: Seq<char>, k: int) -> bool {
    forall|j: int| 0 <= j < p.len() ==> ci_eq(t[k + j], #[trigger] p[j])
}

/// `t` contains `p` as a substring, ASCII case-insensitively.
pub open spec fn contains_ci(t: Seq<char>, p: Seq<char>) -> bool {
    exists|k: int| 0 <= k <= t.len() - p.len() && ci_matches_at(t, p, k)
}

fn ci_eq_exec(a: char, b: char) -> (r: bool)
    ensures
        r == ci_eq(a, b),
{
    let va = a as u32;
    let vb = b as u32;
    let la = if 65 <= va && va <= 90 {
        va + 32
    } else {
        va
    };
    let lb = if 65 <= vb && vb <= 90 {
        vb + 32
    } else {
        vb
    };
    la == lb
}

/// Case-insensitive substring test.
pub fn str_contains_ci(t: &str, p: &str) -> (r: bool)
    ensures
        r == contains_ci(t@, p@),
{
    let n = t.unicode_len();
    let m = p.unicode_len();
    if m > n {
        return false;
    }
    let mut k: usize = 0;
    while k <= n - m
        invariant
            n == t@.len(),
            m == p@.len(),
            m <= n,
            k <= n - m + 1,
            forall|k2: int| 0 <= k2 < k ==> !ci_matches_at(t@, p@, k2),
        decreases n - m - k + 1,
    {
        let mut j: usize = 0;
        let mut ok = true;
        while j < m
            invariant
                n == t@.len(),
                m == p@.len(),
                k + m <= n,
                j <= m,
                ok <==> (forall|j2: int| 0 <= j2 < j ==> ci_eq(t@[k + j2], #[trigger] p@[j2])),
            decreases m - j,
        {
            if !ci_eq_exec(t.get_char(k + j), p.get_char(j)) {
                ok = false;
                proof {
                    assert(!ci_eq(t@[k + j], p@[j as int]));
                }
                j = m;
            } else {
                j = j + 1;
            }
        }
        if ok {
            proof {
                assert(ci_matches_at(t@, p@, k as int));
            }
            return true;
        }
        k = k + 1;
    }
    proof {
        assert(forall|k2: int| 0 <= k2 <= n - m ==> !ci_matches_at(t@, p@, k2));
    }
    false
}

} // verus!
