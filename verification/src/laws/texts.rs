//! How texts are read and written.

use vstd::prelude::*;
#[allow(unused_imports)]
use vstd::utf8::{
    encode_utf8, encode_utf8_valid_utf8, is_ascii_chars, is_ascii_chars_encode_utf8,
    is_char_boundary_iff_is_leading_byte, is_char_boundary_start_end_of_seq,
    is_leading_byte_width_1,
};

use crate::lightning::config::SignerTransport;
#[allow(unused_imports)]
use crate::lightning::config::network_from_name;
#[allow(unused_imports)]
use crate::lightning::hex::{decode_hex, hex_round_trip, hex_string, hex_value, pair_ok};
use crate::lightning::ldk_service::{LdkServiceConfig, LdkServiceInitError, Network};
use crate::lightning::parse::PaymentUri;
#[allow(unused_imports)]
use crate::lightning::parse::{
    has_scheme, param_key, read_uri, splits_char, unreadable_param, uri_parse, uri_query,
    uri_text, UriView,
};
#[allow(unused_imports)]
use crate::lightning::scid::parse_scid;
#[allow(unused_imports)]
use crate::text::{
    all_digits, decimal, digits_value, first_index, is_blank, is_digit, lacks,
    lemma_before_first_index, lemma_first_index, lemma_split_first_part, parse_decimal,
    split_at_first, split_parts, split_text, texts, trimmed_end, trimmed_start, unsigned_part,
};

verus! {

/// A number is written with the digits of its tenth, and then its last digit.
pub proof fn numbers_are_written_digit_by_digit(n: u64, text: String, tenth: String)
    requires
        call_ensures(decimal, (n,), text),
        call_ensures(decimal, (n / 10,), tenth),
    ensures
        n < 10 ==> text@ == seq!["0123456789"@[n as int]],
        n >= 10 ==> text@ == tenth@.push("0123456789"@[n as int % 10]),
{
    reveal_strlit("0123456789");
}

/// A number is read digit by digit, behind a plus sign or without one. A text
/// without digits is none, nor is one with another character or one of a number
/// that is too large.
pub proof fn numbers_are_read_digit_by_digit(
    text: &str,
    n: Option<u64>,
    longer: &str,
    m: Option<u64>,
    c: char,
)
    requires
        call_ensures(parse_decimal, (text,), n),
        call_ensures(parse_decimal, (longer,), m),
        longer@ == text@.push(c),
    ensures
        text@.len() == 0 || text@ == seq!['+'] ==> n is None,
        !('0' <= c <= '9') ==> m is None,
        '0' <= c <= '9' ==> {
            let d = c as u32 - '0' as u32;
            &&& text@.len() == 0 || text@ == seq!['+'] ==> m == Some(d as u64)
            &&& n matches Some(v) ==> (m is Some <==> 10 * v + d <= u64::MAX) && (m matches Some(w)
                ==> w == 10 * v + d)
            &&& n is None && text@.len() > 0 && text@ != seq!['+'] ==> m is None
        },
{
    let a = unsigned_part(text@);
    let b = unsigned_part(longer@);
    if text@.len() == 0 {
        assert(longer@ =~= seq![c]);
        if c == '+' {
            assert(b =~= Seq::<char>::empty());
        } else {
            assert(b[0] == c);
            assert(b.drop_last() =~= Seq::<char>::empty());
            assert(digits_value(b.drop_last()) == 0);
        }
    } else {
        assert(longer@[0] == text@[0]);
        assert(b =~= a.push(c));
        assert(b.drop_last() =~= a);
        assert(b[a.len() as int] == c);
        if all_digits(b) {
            assert forall|i: int| 0 <= i < a.len() implies is_digit(#[trigger] a[i]) by {
                assert(b[i] == a[i]);
            }
        }
        if all_digits(a) && is_digit(c) {
            assert forall|i: int| 0 <= i < b.len() implies is_digit(#[trigger] b[i]) by {
                if i < a.len() {
                    assert(b[i] == a[i]);
                }
            }
        }
        if text@ == seq!['+'] {
            assert(a =~= Seq::<char>::empty());
        } else if a.len() == 0 {
            assert(text@ =~= seq!['+']);
        }
    }
}

/// A text is split at every separator, and only there.
pub proof fn texts_are_split_at_every_separator(
    text: &str,
    c: char,
    parts: Vec<String>,
    head: Seq<char>,
    rest: &str,
    others: Vec<String>,
    i: int,
)
    requires
        call_ensures(split_text, (text, c), parts),
        call_ensures(split_text, (rest, c), others),
        !head.contains(c),
    ensures
        text@ == head ==> parts@.len() == 1 && parts@[0]@ == head,
        text@ == head + seq![c] + rest@ ==> {
            &&& parts@.len() == 1 + others@.len()
            &&& parts@[0]@ == head
            &&& 0 <= i < others@.len() ==> parts@[i + 1]@ == others@[i]@
        },
{
    assert(texts(parts@).len() == parts@.len());
    assert(texts(others@).len() == others@.len());
    assert forall|j: int| 0 <= j < head.len() implies #[trigger] head[j] != c by {
        if head[j] == c {
            assert(head.contains(c));
        }
    }
    if text@ == head {
        lemma_first_index(head, c, head.len() as int);
        assert(texts(parts@)[0] == parts@[0]@);
    }
    if text@ == head + seq![c] + rest@ {
        lemma_split_first_part(head, c, rest@);
        assert(texts(parts@)[0] == parts@[0]@);
        if 0 <= i < others@.len() {
            assert(texts(parts@)[i + 1] == parts@[i + 1]@);
            assert(texts(others@)[i] == others@[i]@);
        }
    }
}

/// A text is cut at its first separator, and stays whole without one.
pub proof fn texts_are_cut_at_the_first_separator(
    text: &str,
    c: char,
    out: (String, Option<String>),
)
    requires
        call_ensures(split_at_first, (text, c), out),
    ensures
        !out.0@.contains(c),
        out.1 matches Some(rest) ==> text@ == out.0@ + seq![c] + rest@,
        out.1 is None ==> text@ == out.0@,
{
    lemma_before_first_index(text@, c);
    let k = first_index(text@, c);
    if out.0@.contains(c) {
        let i = choose|i: int| 0 <= i < out.0@.len() && out.0@[i] == c;
        assert(text@.take(k)[i] != c);
    }
    lemma_found(text@, c);
    if k < text@.len() {
        assert(text@ =~= text@.take(k) + seq![c] + text@.skip(k + 1));
    } else {
        assert(text@.take(k) =~= text@);
    }
}

proof fn lemma_found(s: Seq<char>, c: char)
    ensures
        0 <= first_index(s, c) <= s.len(),
        first_index(s, c) < s.len() ==> s[first_index(s, c)] == c,
    decreases s.len(),
{
    if s.len() > 0 && s[0] != c {
        lemma_found(s.skip(1), c);
    }
}

/// A text of spaces, tabs and ends of lines is blank. One with any other
/// character of ASCII that can be seen is not.
pub proof fn white_space_is_blank(text: &str, out: bool)
    requires
        call_ensures(is_blank, (text,), out),
    ensures
        (forall|i: int|
            0 <= i < text@.len() ==> #[trigger] text@[i] == ' ' || text@[i] == '\t' || text@[i]
                == '\n' || text@[i] == '\r') ==> out,
        (exists|i: int| 0 <= i < text@.len() && '!' <= #[trigger] text@[i] <= '~') ==> !out,
{
}

/// The character is the hexadecimal digit `d`, in lower or upper case.
pub open spec fn is_hex_digit(c: char, d: int) -> bool {
    0 <= d < 16 && (c == "0123456789abcdef"@[d] || c == "0123456789ABCDEF"@[d])
}

/// Bytes that were written in hexadecimal are read back as they were.
pub proof fn written_bytes_are_read_back(
    bytes: &[u8],
    text: String,
    read: &str,
    out: Result<Vec<u8>, String>,
)
    requires
        call_ensures(hex_string, (bytes,), text),
        read@ == text@,
        call_ensures(decode_hex, (read,), out),
    ensures
        out matches Ok(v) && v@ == bytes@,
{
    hex_round_trip(bytes@);
}

proof fn lemma_hex_value(c: char, d: int)
    requires
        '\0' <= c <= '\u{7f}',
        0 <= d < 16,
    ensures
        hex_value(c as u8) == Some(d as u8) <==> is_hex_digit(c, d),
{
    reveal_strlit("0123456789abcdef");
    reveal_strlit("0123456789ABCDEF");
}

/// Two digits are read as the byte with the first for its upper half and the
/// second for its lower half; a plus sign in place of the first counts as zero.
/// Anything else of ASCII is refused, and so is an odd number of characters.
pub proof fn pairs_of_digits_are_read_as_bytes(
    text: &str,
    out: Result<Vec<u8>, String>,
    i: int,
    h: int,
    l: int,
)
    requires
        call_ensures(decode_hex, (text,), out),
        is_ascii_chars(text@),
    ensures
        text@.len() % 2 != 0 ==> out is Err,
        out matches Ok(v) ==> 2 * v@.len() == text@.len(),
        out matches Ok(v) ==> (0 <= i < v@.len() && is_hex_digit(text@[2 * i], h) && is_hex_digit(
            text@[2 * i + 1],
            l,
        ) ==> v@[i] == 16 * h + l),
        out matches Ok(v) ==> (0 <= i < v@.len() && text@[2 * i] == '+' && is_hex_digit(
            text@[2 * i + 1],
            l,
        ) ==> v@[i] == l),
        out is Err && text@.len() % 2 == 0 ==> exists|k: int|
            0 <= k < text@.len() / 2 && !(#[trigger] reads_as_byte(text@, k)),
        out is Ok && 0 <= i < text@.len() / 2 ==> reads_as_byte(text@, i),
{
    let b = encode_utf8(text@);
    is_ascii_chars_encode_utf8(text@);
    assert(b.len() == text@.len());
    if out is Ok && 0 <= i < text@.len() as int / 2 {
        assert(pair_ok(b, i));
        assert(b[2 * i] == text@[2 * i] as u8);
        assert(b[2 * i + 1] == text@[2 * i + 1] as u8);
        if 0 <= h < 16 {
            lemma_hex_value(text@[2 * i], h);
        }
        if 0 <= l < 16 {
            lemma_hex_value(text@[2 * i + 1], l);
        }
        lemma_reads_as_byte(text@, i);
        assert(hex_value(43) is None);
    }
    if out is Err && text@.len() % 2 == 0 {
        let k = choose|k: int| 0 <= k < b.len() as int / 2 && !(#[trigger] pair_ok(b, k));
        lemma_reads_as_byte(text@, k);
    }
}

/// The `k`th pair of characters stands for a byte.
pub open spec fn reads_as_byte(text: Seq<char>, k: int) -> bool {
    &&& text[2 * k] == '+' || is_some_hex_digit(text[2 * k])
    &&& is_some_hex_digit(text[2 * k + 1])
}

/// The character is a hexadecimal digit.
pub open spec fn is_some_hex_digit(c: char) -> bool {
    exists|d: int| #[trigger] is_hex_digit(c, d)
}

proof fn lemma_reads_as_byte(text: Seq<char>, k: int)
    requires
        is_ascii_chars(text),
        text.len() % 2 == 0,
        0 <= k < text.len() as int / 2,
    ensures
        reads_as_byte(text, k) <==> pair_ok(encode_utf8(text), k),
{
    let b = encode_utf8(text);
    is_ascii_chars_encode_utf8(text);
    assert(b[2 * k] == text[2 * k] as u8);
    assert(b[2 * k + 1] == text[2 * k + 1] as u8);
    lemma_some_hex_value(text[2 * k]);
    lemma_some_hex_value(text[2 * k + 1]);
}

proof fn lemma_some_hex_value(c: char)
    requires
        '\0' <= c <= '\u{7f}',
    ensures
        hex_value(c as u8) is Some <==> is_some_hex_digit(c),
{
    if hex_value(c as u8) is Some {
        let d = hex_value(c as u8)->0 as int;
        lemma_hex_value(c, d);
        assert(is_hex_digit(c, d));
    }
    if is_some_hex_digit(c) {
        let d = choose|d: int| #[trigger] is_hex_digit(c, d);
        lemma_hex_value(c, d);
    }
}

/// A short channel id is read from three numbers with the letter x between them:
/// the block, the transaction in it and the output of that.
pub proof fn short_ids_are_read_from_three_numbers(
    text: &str,
    id: Option<u64>,
    first: &str,
    block: Option<u64>,
    second: &str,
    transaction: Option<u64>,
    third: &str,
    output: Option<u64>,
)
    requires
        call_ensures(parse_scid, (text,), id),
        call_ensures(parse_decimal, (first,), block),
        call_ensures(parse_decimal, (second,), transaction),
        call_ensures(parse_decimal, (third,), output),
        lacks(first@, 'x'),
        lacks(second@, 'x'),
        lacks(third@, 'x'),
        text@ == first@ + seq!['x'] + (second@ + seq!['x'] + third@),
    ensures
        id is Some <==> block is Some && transaction is Some && output is Some,
        id is Some && block->0 < 0x100_0000 && transaction->0 < 0x100_0000 && output->0 < 0x1_0000
            ==> id->0 == block->0 * 0x100_0000_0000 + transaction->0 * 0x1_0000 + output->0,
{
    let rest = second@ + seq!['x'] + third@;
    lemma_split_first_part(first@, 'x', rest);
    lemma_split_first_part(second@, 'x', third@);
    lemma_first_index(third@, 'x', third@.len() as int);
    assert(split_parts(third@, 'x') =~= seq![third@]);
    let parts = split_parts(text@, 'x');
    assert(parts =~= seq![first@, second@, third@]);
    if id is Some && block->0 < 0x100_0000 && transaction->0 < 0x100_0000 && output->0
        < 0x1_0000 {
        let b = block->0;
        let t = transaction->0;
        let o = output->0;
        assert((b << 40) | (t << 16) | o == b * 0x100_0000_0000 + t * 0x1_0000 + o)
            by (bit_vector)
            requires
                b < 0x100_0000,
                t < 0x100_0000,
                o < 0x1_0000,
        ;
    }
}

/// A network goes by its name, the main one by either of two.
pub proof fn networks_go_by_their_names(name: &str, out: Result<Network, LdkServiceInitError>)
    requires
        call_ensures(network_from_name, (name,), out),
    ensures
        out matches Ok(n) && n is Regtest <==> name@ == "regtest"@,
        out matches Ok(n) && n is Testnet <==> name@ == "testnet"@,
        out matches Ok(n) && n is Signet <==> name@ == "signet"@,
        out matches Ok(n) && n is Bitcoin <==> name@ == "bitcoin"@ || name@ == "mainnet"@,
        out matches Err(e) ==> (e matches LdkServiceInitError::InvalidNetwork { network }
            && network@ == name@),
{
    reveal_strlit("regtest");
    reveal_strlit("testnet");
    reveal_strlit("signet");
    reveal_strlit("bitcoin");
    reveal_strlit("mainnet");
    assert("regtest"@[0] == 'r' && "testnet"@[0] == 't' && "signet"@[0] == 's' && "bitcoin"@[0]
        == 'b' && "mainnet"@[0] == 'm');
}

/// The signer is in the same process unless it is to be reached over Nostr, for
/// which the relay and both keys are needed.
pub proof fn signers_are_reached_as_configured(
    config: LdkServiceConfig,
    out: Result<SignerTransport, LdkServiceInitError>,
)
    requires
        call_ensures(LdkServiceConfig::signer, (&config,), out),
    ensures
        config.signer_transport@ != "nostr"@ ==> (out matches Ok(t) && t is Embedded),
        config.signer_transport@ == "nostr"@ ==> {
            &&& out is Ok <==> config.signer_relay is Some && config.signer_nsec is Some
                && config.signer_pubkey is Some
            &&& out matches Ok(t) ==> (t matches SignerTransport::Nostr {
                relay,
                nsec,
                signer_pubkey,
            } && relay@ == config.signer_relay->0@ && nsec@ == config.signer_nsec->0@
                && signer_pubkey@ == config.signer_pubkey->0@)
        },
        out matches Err(e) ==> e is InvalidConfig,
{
}

proof fn lemma_ascii_boundary(s: Seq<char>, n: int)
    requires
        is_ascii_chars(s),
        n >= 0,
    ensures
        !splits_char(s, n),
{
    let b = encode_utf8(s);
    is_ascii_chars_encode_utf8(s);
    encode_utf8_valid_utf8(s);
    is_char_boundary_start_end_of_seq(b);
    if n < b.len() {
        let byte = b[n];
        assert(byte == s[n] as u8);
        is_char_boundary_iff_is_leading_byte(b, n);
        assert(is_leading_byte_width_1(byte));
    }
}

proof fn lemma_trimmed_is_ascii(s: Seq<char>)
    requires
        is_ascii_chars(s),
    ensures
        is_ascii_chars(trimmed_start(s)),
        is_ascii_chars(trimmed_end(s)),
    decreases s.len(),
{
    if s.len() > 0 {
        assert forall|i: int| 0 <= i < s.skip(1).len() implies '\0' <= #[trigger] s.skip(1)[i]
            <= '\u{7f}' by {
            assert(s.skip(1)[i] == s[i + 1]);
        }
        assert forall|i: int| 0 <= i < s.drop_last().len() implies '\0'
            <= #[trigger] s.drop_last()[i] <= '\u{7f}' by {
            assert(s.drop_last()[i] == s[i]);
        }
        lemma_trimmed_is_ascii(s.skip(1));
        lemma_trimmed_is_ascii(s.drop_last());
    }
}

proof fn lemma_skipped_is_ascii(s: Seq<char>, n: int)
    requires
        is_ascii_chars(s),
        0 <= n <= s.len(),
    ensures
        is_ascii_chars(s.skip(n)),
        is_ascii_chars(s.take(n)),
{
    assert forall|i: int| 0 <= i < s.skip(n).len() implies '\0' <= #[trigger] s.skip(n)[i]
        <= '\u{7f}' by {
        assert(s.skip(n)[i] == s[i + n]);
    }
    assert forall|i: int| 0 <= i < s.take(n).len() implies '\0' <= #[trigger] s.take(n)[i]
        <= '\u{7f}' by {
        assert(s.take(n)[i] == s[i]);
    }
}

proof fn lemma_parts_are_ascii(s: Seq<char>, c: char, k: int)
    requires
        is_ascii_chars(s),
        0 <= k < split_parts(s, c).len(),
    ensures
        is_ascii_chars(split_parts(s, c)[k]),
    decreases s.len(),
{
    lemma_found(s, c);
    let j = first_index(s, c);
    if j < s.len() {
        lemma_skipped_is_ascii(s, j);
        lemma_skipped_is_ascii(s, j + 1);
        if k > 0 {
            lemma_parts_are_ascii(s.skip(j + 1), c, k - 1);
            assert(split_parts(s, c)[k] == split_parts(s.skip(j + 1), c)[k - 1]);
        }
    }
}

/// What is read of a payment URI is what bip321 reads of it, and where the URI is
/// in ASCII nothing else is refused.
pub proof fn payment_uris_are_read_as_they_stand(text: &str, out: Result<PaymentUri, String>)
    requires
        call_ensures(read_uri, (text,), out),
    ensures
        out matches Ok(uri) ==> uri_parse(text@) == Ok::<UriView, Seq<char>>(uri@),
        is_ascii_chars(text@) ==> (out matches Err(e) ==> uri_parse(text@) == Err::<
            UriView,
            Seq<char>,
        >(e@)),
{
    if is_ascii_chars(text@) {
        lemma_trimmed_is_ascii(text@);
        lemma_trimmed_is_ascii(trimmed_start(text@));
        let t = uri_text(text@);
        lemma_ascii_boundary(t, 8);
        if has_scheme(t) {
            let body = t.skip(8);
            lemma_skipped_is_ascii(t, 8);
            lemma_found(body, '?');
            let mark = first_index(body, '?');
            if mark < body.len() {
                lemma_skipped_is_ascii(body, mark + 1);
            }
            let query = uri_query(t);
            assert(is_ascii_chars(query));
            assert forall|k: int| 0 <= k < split_parts(query, '&').len() implies !unreadable_param(
                #[trigger] split_parts(query, '&')[k],
            ) by {
                let param = split_parts(query, '&')[k];
                lemma_parts_are_ascii(query, '&', k);
                lemma_found(param, '=');
                lemma_skipped_is_ascii(param, first_index(param, '='));
                lemma_ascii_boundary(param_key(param), 4);
            }
        }
    }
}

} // verus!
