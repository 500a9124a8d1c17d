//! What numbers, bytes and pages promise.

use vstd::prelude::*;

#[allow(unused_imports)]
use crate::lightning::hex::hex_string;
#[allow(unused_imports)]
use crate::lightning::scid::format_scid;
#[allow(unused_imports)]
use crate::state::page::page;
#[allow(unused_imports)]
use crate::text::{compare_text, decimal_text, text_less};
use crate::text::TextOrder;

verus! {

proof fn lemma_hex_digit(d: int)
    requires
        0 <= d < 16,
    ensures
        crate::lightning::hex::hex_digit(d) == "0123456789abcdef"@[d],
{
    reveal_strlit("0123456789abcdef");
}

/// Bytes are written with two lower-case hexadecimal digits each, the higher one
/// first.
pub proof fn bytes_are_written_in_hexadecimal(bytes: &[u8], text: String, i: int)
    requires
        call_ensures(hex_string, (bytes,), text),
        0 <= i < bytes@.len(),
    ensures
        text@.len() == 2 * bytes@.len(),
        text@[2 * i] == "0123456789abcdef"@[bytes@[i] as int / 16],
        text@[2 * i + 1] == "0123456789abcdef"@[bytes@[i] as int % 16],
{
    lemma_hex_digit(bytes@[i] as int / 16);
    lemma_hex_digit(bytes@[i] as int % 16);
    assert((2 * i) % 2 == 0 && (2 * i) / 2 == i && (2 * i + 1) % 2 == 1 && (2 * i + 1) / 2 == i);
}

/// A short channel id is written as the numbers of its block, its transaction and
/// its output, which it holds in 24, 24 and 16 bits.
pub proof fn short_ids_name_block_transaction_and_output(
    block: u64,
    transaction: u64,
    output: u64,
    text: String,
)
    requires
        block < 0x100_0000,
        transaction < 0x100_0000,
        output < 0x1_0000,
        call_ensures(
            format_scid,
            ((block * 0x100_0000_0000 + transaction * 0x1_0000 + output) as u64,),
            text,
        ),
    ensures
        text@ == decimal_text(block as nat) + "x"@ + decimal_text(transaction as nat) + "x"@
            + decimal_text(output as nat),
{
    let scid = (block * 0x100_0000_0000 + transaction * 0x1_0000 + output) as u64;
    assert(scid >> 40 == scid / 0x100_0000_0000) by (bit_vector);
    assert((scid >> 16) & 0xFFFFFF == scid / 0x1_0000 % 0x100_0000) by (bit_vector);
    assert(scid & 0xFFFF == scid % 0x1_0000) by (bit_vector);
    assert(scid / 0x100_0000_0000 == block);
    assert(scid / 0x1_0000 % 0x100_0000 == transaction);
    assert(scid % 0x1_0000 == output);
    reveal_strlit("x");
    assert("x"@ =~= seq!['x']);
}

/// A page skips `offset` elements and takes up to `limit` of those that follow,
/// in their order.
pub proof fn pages_skip_and_take<T>(s: Seq<T>, offset: int, limit: int, i: int)
    requires
        offset >= 0,
        limit >= 0,
    ensures
        offset >= s.len() ==> page(s, offset, limit).len() == 0,
        offset < s.len() && s.len() - offset <= limit ==> page(s, offset, limit).len() == s.len()
            - offset,
        offset < s.len() && s.len() - offset > limit ==> page(s, offset, limit).len() == limit,
        0 <= i < page(s, offset, limit).len() ==> page(s, offset, limit)[i] == s[offset + i],
{
}

proof fn lemma_text_less(a: Seq<char>, b: Seq<char>, k: int)
    requires
        0 <= k <= a.len(),
        k < b.len(),
        a.take(k) == b.take(k),
        k == a.len() || a[k] < b[k],
    ensures
        text_less(a, b),
    decreases k,
{
    if k > 0 {
        assert(a.take(k)[0] == a[0] && b.take(k)[0] == b[0]);
        assert(a[0] == b[0]);
        assert(a.skip(1).take(k - 1) =~= a.take(k).skip(1));
        assert(b.skip(1).take(k - 1) =~= b.take(k).skip(1));
        lemma_text_less(a.skip(1), b.skip(1), k - 1);
    }
}

/// A text comes before another if it has the smaller character where they first
/// differ, or is the beginning of the other.
pub proof fn texts_compare_at_the_first_difference(
    a: &str,
    b: &str,
    order: TextOrder,
    k: int,
)
    requires
        call_ensures(compare_text, (a, b), order),
        0 <= k <= a@.len(),
        k < b@.len(),
        a@.take(k) == b@.take(k),
        k == a@.len() || a@[k] < b@[k],
    ensures
        order == TextOrder::Less,
{
    lemma_text_less(a@, b@, k);
    if a@ == b@ {
        assert(a@.len() == b@.len());
    }
}

} // verus!
