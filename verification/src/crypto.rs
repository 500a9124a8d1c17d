//! Encryption of the messages that clients and the service exchange.

use nwc::nostr::nips::{nip04, nip44};
use nwc::nostr::{Keys, PublicKey, SecretKey};
use vstd::prelude::*;

#[allow(unused_imports)]
use crate::lightning::hex::{hex_text, hex_value};
use crate::lightning::hex::hex_string;
use crate::text::{join, same_text};
#[allow(unused_imports)]
use crate::text::{opt_str, texts};

verus! {

/// The value of a hexadecimal digit of either case.
pub open spec fn digit_of(c: char) -> Option<u8> {
    if c as u32 >= 128 {
        None
    } else {
        hex_value(c as u8)
    }
}

/// The text writes 32 bytes in hexadecimal.
pub open spec fn is_key_text(text: Seq<char>) -> bool {
    text.len() == 64 && forall|i: int| 0 <= i < 64 ==> digit_of(#[trigger] text[i]) is Some
}

/// The bytes that such a text writes.
pub open spec fn key_text_bytes(text: Seq<char>) -> Seq<u8> {
    Seq::new(32, |k: int| (16 * digit_of(text[2 * k])->0 + digit_of(text[2 * k + 1])->0) as u8)
}

/// The message of the error of nostr's `PublicKey::from_hex` on a text that is
/// no key.
pub uninterp spec fn key_message(text: Seq<char>) -> Seq<char>;

/// The key that a text stands for, or why it stands for none.
pub open spec fn key_parse(text: Seq<char>) -> Result<Seq<u8>, Seq<char>> {
    if is_key_text(text) {
        Ok(key_text_bytes(text))
    } else {
        Err(key_message(text))
    }
}

/// Calls nostr's `PublicKey::from_hex`. A text of 64 hexadecimal digits stands for
/// the 32 bytes that it writes; any other gives an error, whose message depends
/// on the text alone.
#[verifier::external_body]
pub(crate) fn parse_key(text: &str) -> (out: Result<[u8; 32], String>)
    ensures
        match out {
            Ok(key) => key_parse(text@) == Ok::<Seq<u8>, Seq<char>>(key@),
            Err(message) => !is_key_text(text@) && message@ == key_message(text@),
        },
{
    match PublicKey::from_hex(text) {
        Ok(key) => Ok(key.to_bytes()),
        Err(e) => Err(e.to_string()),
    }
}

/// The text of a key stands for the key.
pub proof fn key_text_round_trip(key: Seq<u8>)
    requires
        key.len() == 32,
    ensures
        key_parse(hex_text(key)) == Ok::<Seq<u8>, Seq<char>>(key),
{
    let text = hex_text(key);
    assert forall|i: int| 0 <= i < 64 implies digit_of(#[trigger] text[i]) == Some(
        (if i % 2 == 0 {
            key[i / 2] as int / 16
        } else {
            key[i / 2] as int % 16
        }) as u8,
    ) by {
        assert(0 <= key[i / 2] as int / 16 < 16);
        assert(0 <= key[i / 2] as int % 16 < 16);
    }
    assert forall|k: int| 0 <= k < 32 implies key_text_bytes(text)[k] == key[k] by {
        assert((2 * k) / 2 == k && (2 * k) % 2 == 0);
        assert((2 * k + 1) / 2 == k && (2 * k + 1) % 2 == 1);
        assert(digit_of(text[2 * k]) == Some((key[k] as int / 16) as u8));
        assert(digit_of(text[2 * k + 1]) == Some((key[k] as int % 16) as u8));
    }
    assert(key_text_bytes(text) =~= key);
}

/// The public key that belongs to a secret key, or why the bytes are no secret
/// key.
pub uninterp spec fn public_key(secret: Seq<u8>) -> Result<Seq<u8>, Seq<char>>;

/// Calls nostr's `Keys::new` on the secret key that the bytes stand for, and takes
/// its public key. The result depends on the bytes alone: the public key, or the
/// message of the error of `SecretKey::from_slice`.
#[verifier::external_body]
fn public_key_of(secret: &[u8; 32]) -> (out: Result<[u8; 32], String>)
    ensures
        match out {
            Ok(key) => public_key(secret@) == Ok::<Seq<u8>, Seq<char>>(key@),
            Err(e) => public_key(secret@) == Err::<Seq<u8>, Seq<char>>(e@),
        },
{
    match SecretKey::from_slice(secret) {
        Ok(key) => Ok(Keys::new(key).public_key().to_bytes()),
        Err(e) => Err(e.to_string()),
    }
}

/// The text of the public key that belongs to a secret key.
pub fn public_key_text(secret_key: &[u8; 32]) -> (out: Result<String, String>)
    ensures
        match out {
            Ok(text) => public_key(secret_key@) is Ok && text@ == hex_text(
                public_key(secret_key@)->Ok_0,
            ),
            Err(e) => public_key(secret_key@) == Err::<Seq<u8>, Seq<char>>(e@),
        },
{
    match public_key_of(secret_key) {
        Ok(key) => Ok(hex_string(&key)),
        Err(e) => Err(e),
    }
}

/// Two pairs of keys are those of the two sides of a conversation: each side has
/// its own secret key and the public key of the other.
pub open spec fn other_side(
    secret: Seq<u8>,
    pubkey: Seq<u8>,
    their_secret: Seq<u8>,
    their_pubkey: Seq<u8>,
) -> bool {
    public_key(secret) == Ok::<Seq<u8>, Seq<char>>(their_pubkey) && public_key(their_secret)
        == Ok::<Seq<u8>, Seq<char>>(pubkey)
}

/// What nostr's `nip04::decrypt` makes of a message: its content, or the
/// message of the error.
pub uninterp spec fn nip04_open(secret: Seq<u8>, pubkey: Seq<u8>, message: Seq<char>) -> Result<
    Seq<char>,
    Seq<char>,
>;

/// Calls nostr's `nip04::decrypt` with the keys that the bytes stand for. The
/// result depends on the keys and the message alone: the content, or the message
/// of the error, which may also be that the bytes stand for no key.
#[verifier::external_body]
fn nip04_decrypt(secret: &[u8; 32], pubkey: &[u8; 32], message: &str) -> (out: Result<
    String,
    String,
>)
    ensures
        match out {
            Ok(content) => nip04_open(secret@, pubkey@, message@) == Ok::<Seq<char>, Seq<char>>(
                content@,
            ),
            Err(e) => nip04_open(secret@, pubkey@, message@) == Err::<Seq<char>, Seq<char>>(e@),
        },
{
    let secret_key = match SecretKey::from_slice(secret) {
        Ok(key) => key,
        Err(e) => return Err(e.to_string()),
    };
    match nip04::decrypt(&secret_key, &PublicKey::from_byte_array(*pubkey), message) {
        Ok(content) => Ok(content),
        Err(e) => Err(e.to_string()),
    }
}

/// Why nostr's `nip04::encrypt` fails with the given keys, if it does.
pub uninterp spec fn nip04_error(secret: Seq<u8>, pubkey: Seq<u8>) -> Option<Seq<char>>;

/// Calls nostr's `nip04::encrypt` with the keys that the bytes stand for. What
/// comes out rests on chance, but `nip04::decrypt` makes the content of it
/// again, with the same keys and with those of the other side. Whether it fails,
/// and how, depends on the keys alone.
#[verifier::external_body]
fn nip04_encrypt(secret: &[u8; 32], pubkey: &[u8; 32], content: &str) -> (out: Result<
    String,
    String,
>)
    ensures
        match out {
            Ok(message) => nip04_error(secret@, pubkey@) is None && nip04_open(
                secret@,
                pubkey@,
                message@,
            ) == Ok::<Seq<char>, Seq<char>>(content@) && forall|theirs: Seq<u8>, ours: Seq<u8>|
                other_side(secret@, pubkey@, theirs, ours) ==> #[trigger] nip04_open(
                    theirs,
                    ours,
                    message@,
                ) == Ok::<Seq<char>, Seq<char>>(content@),
            Err(e) => nip04_error(secret@, pubkey@) == Some(e@),
        },
{
    let secret_key = match SecretKey::from_slice(secret) {
        Ok(key) => key,
        Err(e) => return Err(e.to_string()),
    };
    match nip04::encrypt(&secret_key, &PublicKey::from_byte_array(*pubkey), content) {
        Ok(message) => Ok(message),
        Err(e) => Err(e.to_string()),
    }
}

/// What nostr's `nip44::decrypt` makes of a message: its content, or the
/// message of the error.
pub uninterp spec fn nip44_open(secret: Seq<u8>, pubkey: Seq<u8>, message: Seq<char>) -> Result<
    Seq<char>,
    Seq<char>,
>;

/// Calls nostr's `nip44::decrypt` with the keys that the bytes stand for. The
/// result depends on the keys and the message alone: the content, or the message
/// of the error, which may also be that the bytes stand for no key.
#[verifier::external_body]
fn nip44_decrypt(secret: &[u8; 32], pubkey: &[u8; 32], message: &str) -> (out: Result<
    String,
    String,
>)
    ensures
        match out {
            Ok(content) => nip44_open(secret@, pubkey@, message@) == Ok::<Seq<char>, Seq<char>>(
                content@,
            ),
            Err(e) => nip44_open(secret@, pubkey@, message@) == Err::<Seq<char>, Seq<char>>(e@),
        },
{
    let secret_key = match SecretKey::from_slice(secret) {
        Ok(key) => key,
        Err(e) => return Err(e.to_string()),
    };
    match nip44::decrypt(&secret_key, &PublicKey::from_byte_array(*pubkey), message) {
        Ok(content) => Ok(content),
        Err(e) => Err(e.to_string()),
    }
}

/// Why nostr's `nip44::encrypt` fails with the given keys and content, if it
/// does.
pub uninterp spec fn nip44_error(secret: Seq<u8>, pubkey: Seq<u8>, content: Seq<char>) -> Option<
    Seq<char>,
>;

/// Calls nostr's `nip44::encrypt`, in its second version, with the keys that the
/// bytes stand for. What comes out rests on chance, but `nip44::decrypt` makes
/// the content of it again, with the same keys and with those of the other side.
/// Whether it fails, and how, depends on the keys and the content alone.
#[verifier::external_body]
fn nip44_encrypt(secret: &[u8; 32], pubkey: &[u8; 32], content: &str) -> (out: Result<
    String,
    String,
>)
    ensures
        match out {
            Ok(message) => nip44_error(secret@, pubkey@, content@) is None && nip44_open(
                secret@,
                pubkey@,
                message@,
            ) == Ok::<Seq<char>, Seq<char>>(content@) && forall|theirs: Seq<u8>, ours: Seq<u8>|
                other_side(secret@, pubkey@, theirs, ours) ==> #[trigger] nip44_open(
                    theirs,
                    ours,
                    message@,
                ) == Ok::<Seq<char>, Seq<char>>(content@),
            Err(e) => nip44_error(secret@, pubkey@, content@) == Some(e@),
        },
{
    let secret_key = match SecretKey::from_slice(secret) {
        Ok(key) => key,
        Err(e) => return Err(e.to_string()),
    };
    let public_key = PublicKey::from_byte_array(*pubkey);
    match nip44::encrypt(&secret_key, &public_key, content, nip44::Version::V2) {
        Ok(message) => Ok(message),
        Err(e) => Err(e.to_string()),
    }
}

/// The tags of an event, each a list of texts.
pub open spec fn tag_views(tags: Seq<Vec<String>>) -> Seq<Seq<Seq<char>>> {
    tags.map_values(|t: Vec<String>| texts(t@))
}

/// The value of the first tag that has the given name and a value.
pub open spec fn tagged(tags: Seq<Seq<Seq<char>>>, name: Seq<char>) -> Option<Seq<char>>
    decreases tags.len(),
{
    if tags.len() == 0 {
        None
    } else if tags[0].len() >= 2 && tags[0][0] == name {
        Some(tags[0][1])
    } else {
        tagged(tags.skip(1), name)
    }
}

/// The value of the first tag that has the given name and a value.
pub fn tag_value<'a>(tags: &'a Vec<Vec<String>>, name: &str) -> (out: Option<&'a str>)
    ensures
        opt_str(out) == tagged(tag_views(tags@), name@),
{
    let ghost all = tag_views(tags@);
    let mut i: usize = 0;
    assert(all.skip(0) =~= all);
    while i < tags.len()
        invariant
            all == tag_views(tags@),
            i <= tags.len(),
            tagged(all, name@) == tagged(all.skip(i as int), name@),
        decreases tags.len() - i,
    {
        let tag: &Vec<String> = &tags[i];
        proof {
            assert(all.skip(i as int)[0] == texts(tag@));
            assert(all.skip(i as int).skip(1) =~= all.skip(i + 1));
        }
        if tag.len() >= 2 && same_text(tag[0].as_str(), name) {
            assert(texts(tag@)[0] == tag@[0]@);
            assert(texts(tag@)[1] == tag@[1]@);
            return Some(tag[1].as_str());
        }
        assert(tag@.len() >= 2 ==> texts(tag@)[0] == tag@[0]@);
        i += 1;
    }
    None
}

/// The encryption scheme that an event names, or the old one if it names none.
pub open spec fn scheme_of(tags: Seq<Seq<Seq<char>>>) -> Seq<char> {
    match tagged(tags, "encryption"@) {
        Some(scheme) => scheme,
        None => "nip04"@,
    }
}

/// The encryption scheme that an event names, or the old one if it names none.
pub fn get_encryption_scheme(tags: &Vec<Vec<String>>) -> (out: &str)
    ensures
        out@ == scheme_of(tag_views(tags@)),
{
    match tag_value(tags, "encryption") {
        Some(scheme) => scheme,
        None => "nip04",
    }
}

/// The message for a scheme that is not supported.
pub open spec fn unsupported(scheme: Seq<char>) -> Seq<char> {
    "unsupported encryption: "@ + scheme
}

/// The scheme is one of the two that are supported.
pub open spec fn is_supported(scheme: Seq<char>) -> bool {
    scheme == "nip44_v2"@ || scheme == "nip04"@
}

/// What a message under a scheme opens to.
pub open spec fn opened(
    secret: Seq<u8>,
    pubkey: Seq<u8>,
    message: Seq<char>,
    scheme: Seq<char>,
) -> Result<Seq<char>, Seq<char>> {
    if scheme == "nip44_v2"@ {
        nip44_open(secret, pubkey, message)
    } else if scheme == "nip04"@ {
        nip04_open(secret, pubkey, message)
    } else {
        Err(unsupported(scheme))
    }
}

/// Why a content cannot be sealed under a scheme, if it cannot.
pub open spec fn seal_error(
    secret: Seq<u8>,
    pubkey: Seq<u8>,
    content: Seq<char>,
    scheme: Seq<char>,
) -> Option<Seq<char>> {
    if scheme == "nip44_v2"@ {
        nip44_error(secret, pubkey, content)
    } else if scheme == "nip04"@ {
        nip04_error(secret, pubkey)
    } else {
        Some(unsupported(scheme))
    }
}

/// Decrypts a message.
pub fn decrypt_content(
    secret_key: &[u8; 32],
    pubkey: &[u8; 32],
    content: &str,
    scheme: &str,
) -> (out: Result<String, String>)
    ensures
        match out {
            Ok(text) => opened(secret_key@, pubkey@, content@, scheme@) == Ok::<
                Seq<char>,
                Seq<char>,
            >(text@),
            Err(e) => opened(secret_key@, pubkey@, content@, scheme@) == Err::<
                Seq<char>,
                Seq<char>,
            >(e@),
        },
{
    if same_text(scheme, "nip44_v2") {
        nip44_decrypt(secret_key, pubkey, content)
    } else if same_text(scheme, "nip04") {
        nip04_decrypt(secret_key, pubkey, content)
    } else {
        Err(join("unsupported encryption: ", scheme))
    }
}

/// A message opens to a content under a scheme, for the side that sealed it and
/// for the other side.
pub open spec fn opens_to(
    secret: Seq<u8>,
    pubkey: Seq<u8>,
    message: Seq<char>,
    scheme: Seq<char>,
    content: Seq<char>,
) -> bool {
    &&& opened(secret, pubkey, message, scheme) == Ok::<Seq<char>, Seq<char>>(content)
    &&& forall|theirs: Seq<u8>, ours: Seq<u8>| #[trigger]
        other_side(secret, pubkey, theirs, ours) ==> opened(theirs, ours, message, scheme) == Ok::<
            Seq<char>,
            Seq<char>,
        >(content)
}

/// Encrypts a content. What comes out decrypts to the content again under the
/// same scheme, with the same keys and with those of the other side.
pub fn encrypt_content(
    secret_key: &[u8; 32],
    pubkey: &[u8; 32],
    content: &str,
    scheme: &str,
) -> (out: Result<String, String>)
    ensures
        match out {
            Ok(message) => seal_error(secret_key@, pubkey@, content@, scheme@) is None && opens_to(
                secret_key@,
                pubkey@,
                message@,
                scheme@,
                content@,
            ),
            Err(e) => seal_error(secret_key@, pubkey@, content@, scheme@) == Some(e@),
        },
{
    if same_text(scheme, "nip44_v2") {
        nip44_encrypt(secret_key, pubkey, content)
    } else if same_text(scheme, "nip04") {
        nip04_encrypt(secret_key, pubkey, content)
    } else {
        Err(join("unsupported encryption: ", scheme))
    }
}

} // verus!
