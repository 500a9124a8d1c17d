//! Lower-case hexadecimal text of bytes.

use vstd::prelude::*;
use vstd::string::*;
#[allow(unused_imports)]
use vstd::utf8::{encode_utf8, is_ascii_chars, is_ascii_chars_encode_utf8, is_char_boundary};

verus! {

/// The lower-case hexadecimal digit `d`.
pub open spec fn hex_digit(d: int) -> char {
    if d < 10 {
        (48 + d) as char
    } else {
        (87 + d) as char
    }
}

/// Two hexadecimal digits for each byte.
pub open spec fn hex_text(bytes: Seq<u8>) -> Seq<char> {
    Seq::new(
        2 * bytes.len(),
        |i: int|
            if i % 2 == 0 {
                hex_digit(bytes[i / 2] as int / 16)
            } else {
                hex_digit(bytes[i / 2] as int % 16)
            },
    )
}

fn nibble_text(d: u8) -> (out: &'static str)
    requires
        d < 16,
    ensures
        out@ == seq![hex_digit(d as int)],
{
    proof {
        reveal_strlit("0");
        reveal_strlit("1");
        reveal_strlit("2");
        reveal_strlit("3");
        reveal_strlit("4");
        reveal_strlit("5");
        reveal_strlit("6");
        reveal_strlit("7");
        reveal_strlit("8");
        reveal_strlit("9");
        reveal_strlit("a");
        reveal_strlit("b");
        reveal_strlit("c");
        reveal_strlit("d");
        reveal_strlit("e");
        reveal_strlit("f");
    }
    let out: &'static str = match d {
        0 => "0",
        1 => "1",
        2 => "2",
        3 => "3",
        4 => "4",
        5 => "5",
        6 => "6",
        7 => "7",
        8 => "8",
        9 => "9",
        10 => "a",
        11 => "b",
        12 => "c",
        13 => "d",
        14 => "e",
        _ => "f",
    };
    assert(out@ =~= seq![hex_digit(d as int)]);
    out
}

/// Writes bytes in hexadecimal.
pub fn hex_string(bytes: &[u8]) -> (out: String)
    ensures
        out@ == hex_text(bytes@),
{
    let mut out: String = String::new();
    let mut i: usize = 0;
    assert(out@ =~= hex_text(bytes@.take(0)));
    while i < bytes.len()
        invariant
            i <= bytes.len(),
            out@ == hex_text(bytes@.take(i as int)),
        decreases bytes.len() - i,
    {
        let b: u8 = bytes[i];
        let ghost before = out@;
        out.append(nibble_text(b / 16));
        out.append(nibble_text(b % 16));
        proof {
            let next = bytes@.take(i + 1);
            assert(out@ =~= before.push(hex_digit(b as int / 16)).push(hex_digit(b as int % 16)));
            assert forall|k: int| 0 <= k < 2 * (i + 1) implies out@[k] == hex_text(next)[k] by {
                if k < 2 * i {
                    assert(out@[k] == before[k]);
                    assert(next[k / 2] == bytes@.take(i as int)[k / 2]);
                } else {
                    assert(k / 2 == i);
                    assert(next[i as int] == b);
                }
            }
            assert(out@ =~= hex_text(next));
        }
        i += 1;
    }
    assert(bytes@.take(i as int) =~= bytes@);
    out
}

/// The value of a hexadecimal digit of either case.
pub open spec fn hex_value(b: u8) -> Option<u8> {
    if 48 <= b <= 57 {
        Some((b - 48) as u8)
    } else if 97 <= b <= 102 {
        Some((b - 87) as u8)
    } else if 65 <= b <= 70 {
        Some((b - 55) as u8)
    } else {
        None
    }
}

/// The byte that two characters denote: two digits, or a plus sign and a digit.
pub open spec fn hex_pair(hi: u8, lo: u8) -> Option<u8> {
    match (hex_value(hi), hex_value(lo)) {
        (Some(h), Some(l)) => Some((16 * h + l) as u8),
        (None, Some(l)) => if hi == 43 {
            Some(l)
        } else {
            None
        },
        _ => None,
    }
}

/// The `k`th pair of bytes denotes a byte.
pub open spec fn pair_ok(b: Seq<u8>, k: int) -> bool {
    hex_pair(b[2 * k], b[2 * k + 1]) is Some
}

/// Every pair of bytes denotes a byte.
pub open spec fn all_pairs_ok(b: Seq<u8>) -> bool {
    forall|k: int| 0 <= k < b.len() as int / 2 ==> #[trigger] pair_ok(b, k)
}

/// The bytes that the pairs denote.
pub open spec fn pair_bytes(b: Seq<u8>) -> Seq<u8> {
    Seq::new((b.len() / 2) as nat, |k: int| hex_pair(b[2 * k], b[2 * k + 1])->0)
}

/// The first pair of bytes that denotes no byte, if there is one, ends at a
/// character boundary.
pub open spec fn pairs_aligned(s: Seq<char>) -> bool {
    let b = encode_utf8(s);
    b.len() % 2 == 0 ==> forall|k: int|
        0 <= k < b.len() as int / 2 && !pair_ok(b, k) && (forall|j: int|
            0 <= j < k ==> #[trigger] pair_ok(b, j)) ==> #[trigger] is_char_boundary(b, 2 * k + 2)
}

fn digit_value(b: u8) -> (out: Option<u8>)
    ensures
        out == hex_value(b),
{
    if b >= 48 && b <= 57 {
        Some(b - 48)
    } else if b >= 97 && b <= 102 {
        Some(b - 87)
    } else if b >= 65 && b <= 70 {
        Some(b - 55)
    } else {
        None
    }
}

fn pair_value(hi: u8, lo: u8) -> (out: Option<u8>)
    ensures
        out == hex_pair(hi, lo),
{
    match (digit_value(hi), digit_value(lo)) {
        (Some(h), Some(l)) => Some(16 * h + l),
        (None, Some(l)) => if hi == 43 {
            Some(l)
        } else {
            None
        },
        _ => None,
    }
}

/// Whether `decode_hex` can read `s` pair by pair without splitting a character.
pub fn hex_pairs_aligned(s: &str) -> (out: bool)
    ensures
        out == pairs_aligned(s@),
{
    let b: &[u8] = s.as_bytes();
    let n: usize = b.len();
    if n % 2 != 0 {
        return true;
    }
    let mut i: usize = 0;
    while i < n
        invariant
            b@ == encode_utf8(s@),
            n == b@.len(),
            n % 2 == 0,
            i <= n,
            i % 2 == 0,
            forall|k: int| 0 <= k < i as int / 2 ==> #[trigger] pair_ok(b@, k),
        decreases n - i,
    {
        if pair_value(b[i], b[i + 1]).is_none() {
            let ghost at = i as int / 2;
            assert(!pair_ok(b@, at));
            let out: bool = s.is_char_boundary(i + 2);
            proof {
                assert(2 * at + 2 == i + 2);
                if out {
                    assert forall|k: int|
                        0 <= k < b@.len() as int / 2 && !pair_ok(b@, k) && (forall|j: int|
                            0 <= j < k ==> #[trigger] pair_ok(b@, j)) implies #[trigger] is_char_boundary(
                        b@,
                        2 * k + 2,
                    ) by {
                        assert(k == at) by {
                            if k > at {
                                assert(pair_ok(b@, at));
                            } else if k < at {
                                assert(pair_ok(b@, k));
                            }
                        }
                    }
                } else {
                    assert(!is_char_boundary(b@, 2 * at + 2));
                }
            }
            return out;
        }
        assert(pair_ok(b@, i as int / 2));
        i += 2;
    }
    true
}

/// Reads bytes from hexadecimal text.
pub fn decode_hex(s: &str) -> (out: Result<Vec<u8>, String>)
    requires
        pairs_aligned(s@),
    ensures
        match out {
            Ok(v) => {
                &&& encode_utf8(s@).len() % 2 == 0
                &&& all_pairs_ok(encode_utf8(s@))
                &&& v@ == pair_bytes(encode_utf8(s@))
            },
            Err(e) => {
                if encode_utf8(s@).len() % 2 != 0 {
                    e@ == "odd-length hex string"@
                } else {
                    !all_pairs_ok(encode_utf8(s@)) && e@ == "invalid digit found in string"@
                }
            },
        },
{
    let b: &[u8] = s.as_bytes();
    let n: usize = b.len();
    if n % 2 != 0 {
        return Err(String::from_str("odd-length hex string"));
    }
    let mut out: Vec<u8> = Vec::new();
    let mut i: usize = 0;
    while i < n
        invariant
            b@ == encode_utf8(s@),
            n == b@.len(),
            n % 2 == 0,
            i <= n,
            i % 2 == 0,
            out.len() == i / 2,
            forall|k: int| 0 <= k < i as int / 2 ==> #[trigger] pair_ok(b@, k),
            forall|k: int| 0 <= k < i as int / 2 ==> #[trigger] out@[k] == pair_bytes(b@)[k],
        decreases n - i,
    {
        match pair_value(b[i], b[i + 1]) {
            Some(v) => {
                out.push(v);
                assert(pair_ok(b@, i as int / 2));
            },
            None => {
                assert(!pair_ok(b@, i as int / 2));
                return Err(String::from_str("invalid digit found in string"));
            },
        }
        i += 2;
    }
    assert(out@ =~= pair_bytes(b@));
    Ok(out)
}

/// Bytes written in hexadecimal read back as the same bytes.
pub proof fn hex_round_trip(bytes: Seq<u8>)
    ensures
        pairs_aligned(hex_text(bytes)),
        encode_utf8(hex_text(bytes)).len() == 2 * bytes.len(),
        all_pairs_ok(encode_utf8(hex_text(bytes))),
        pair_bytes(encode_utf8(hex_text(bytes))) == bytes,
{
    let s = hex_text(bytes);
    assert forall|i: int| 0 <= i < s.len() implies 0 <= (#[trigger] s[i]) as nat <= 127 by {
        assert(0 <= bytes[i / 2] as int / 16 < 16);
        assert(0 <= bytes[i / 2] as int % 16 < 16);
    }
    assert(is_ascii_chars(s));
    is_ascii_chars_encode_utf8(s);
    let b = encode_utf8(s);
    assert forall|k: int| 0 <= k < b.len() as int / 2 implies #[trigger] pair_ok(b, k) && pair_bytes(
        b,
    )[k] == bytes[k] by {
        let hi = bytes[k] as int / 16;
        let lo = bytes[k] as int % 16;
        assert((2 * k) / 2 == k && (2 * k) % 2 == 0);
        assert((2 * k + 1) / 2 == k && (2 * k + 1) % 2 == 1);
        assert(s[2 * k] == hex_digit(hi));
        assert(s[2 * k + 1] == hex_digit(lo));
        assert(b[2 * k] == s[2 * k] as u8);
        assert(b[2 * k + 1] == s[2 * k + 1] as u8);
        assert(hex_value(hex_digit(hi) as u8) == Some(hi as u8));
        assert(hex_value(hex_digit(lo) as u8) == Some(lo as u8));
    }
    assert(pair_bytes(b) =~= bytes);
}

} // verus!
