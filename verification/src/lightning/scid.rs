//! Short channel ids and their text form `block x transaction x output`.

use vstd::prelude::*;
use vstd::string::*;

use crate::text::{decimal, parse_decimal, split_text};
#[allow(unused_imports)]
use crate::text::{
    all_digits, decimal_round_trip, decimal_text, is_digit, lemma_first_index, parsed_u64,
    split_parts, texts,
};

verus! {

/// The block height, transaction index and output index that a short channel
/// id packs, in this order.
pub open spec fn scid_fields(scid: u64) -> (u64, u64, u64) {
    (scid >> 40, (scid >> 16) & 0xFFFFFF, scid & 0xFFFF)
}

/// The short channel id that packs three numbers. Bits that do not fit are lost.
pub open spec fn packed_scid(block: u64, tx: u64, vout: u64) -> u64 {
    (block << 40) | (tx << 16) | vout
}

/// The text form of a short channel id.
pub open spec fn scid_text(scid: u64) -> Seq<char> {
    let (block, tx, vout) = scid_fields(scid);
    decimal_text(block as nat) + seq!['x'] + decimal_text(tx as nat) + seq!['x'] + decimal_text(
        vout as nat,
    )
}

/// The short channel id that a text denotes: three decimal numbers joined by
/// the letter x.
pub open spec fn parsed_scid(s: Seq<char>) -> Option<u64> {
    let parts = split_parts(s, 'x');
    if parts.len() == 3 && parsed_u64(parts[0]) is Some && parsed_u64(parts[1]) is Some
        && parsed_u64(parts[2]) is Some {
        Some(
            packed_scid(
                parsed_u64(parts[0])->0,
                parsed_u64(parts[1])->0,
                parsed_u64(parts[2])->0,
            ),
        )
    } else {
        None
    }
}

/// Writes a short channel id as text.
pub fn format_scid(scid: u64) -> (out: String)
    ensures
        out@ == scid_text(scid),
{
    let block: u64 = scid >> 40;
    let tx: u64 = (scid >> 16) & 0xFFFFFF;
    let vout: u64 = scid & 0xFFFF;
    proof {
        reveal_strlit("x");
        assert("x"@ =~= seq!['x']);
    }
    let mut out: String = decimal(block);
    out.append("x");
    out.append(decimal(tx).as_str());
    out.append("x");
    out.append(decimal(vout).as_str());
    out
}

/// Reads a short channel id from its text form.
pub fn parse_scid(s: &str) -> (out: Option<u64>)
    ensures
        out == parsed_scid(s@),
{
    let parts: Vec<String> = split_text(s, 'x');
    if parts.len() != 3 {
        return None;
    }
    assert(texts(parts@)[0] == parts@[0]@);
    assert(texts(parts@)[1] == parts@[1]@);
    assert(texts(parts@)[2] == parts@[2]@);
    let block: u64 = match parse_decimal(parts[0].as_str()) {
        Some(n) => n,
        None => {
            return None;
        },
    };
    let tx: u64 = match parse_decimal(parts[1].as_str()) {
        Some(n) => n,
        None => {
            return None;
        },
    };
    let vout: u64 = match parse_decimal(parts[2].as_str()) {
        Some(n) => n,
        None => {
            return None;
        },
    };
    Some((block << 40) | (tx << 16) | vout)
}

proof fn lemma_split_head(a: Seq<char>, b: Seq<char>)
    requires
        all_digits(a),
    ensures
        split_parts(a + seq!['x'] + b, 'x') == seq![a] + split_parts(b, 'x'),
{
    let s = a + seq!['x'] + b;
    assert forall|i: int| 0 <= i < a.len() implies s[i] != 'x' by {
        assert(is_digit(a[i]));
        assert(s[i] == a[i]);
    }
    assert(s[a.len() as int] == 'x');
    lemma_first_index(s, 'x', a.len() as int);
    assert(s.take(a.len() as int) =~= a);
    assert(s.skip(a.len() as int + 1) =~= b);
}

proof fn lemma_split_last(a: Seq<char>)
    requires
        all_digits(a),
    ensures
        split_parts(a, 'x') == seq![a],
{
    assert forall|i: int| 0 <= i < a.len() implies a[i] != 'x' by {
        assert(is_digit(a[i]));
    }
    lemma_first_index(a, 'x', a.len() as int);
}

/// Reading back the text form of a short channel id gives that id.
pub proof fn scid_round_trip(scid: u64)
    ensures
        parsed_scid(scid_text(scid)) == Some(scid),
{
    let (block, tx, vout) = scid_fields(scid);
    let (a, b, c) = (
        decimal_text(block as nat),
        decimal_text(tx as nat),
        decimal_text(vout as nat),
    );
    decimal_round_trip(block);
    decimal_round_trip(tx);
    decimal_round_trip(vout);
    let tail = b + seq!['x'] + c;
    assert(scid_text(scid) =~= a + seq!['x'] + tail);
    lemma_split_head(a, tail);
    lemma_split_head(b, c);
    lemma_split_last(c);
    assert(seq![a] + (seq![b] + seq![c]) =~= seq![a, b, c]);
    assert(((scid >> 40) << 40) | (((scid >> 16) & 0xFFFFFF) << 16) | (scid & 0xFFFF) == scid)
        by (bit_vector);
}

} // verus!
