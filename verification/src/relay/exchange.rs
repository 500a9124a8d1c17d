//! Requests as they come in over the relay, and their answers.

use vstd::prelude::*;

use crate::control::messages::{control_failed, ControlResponse};
#[allow(unused_imports)]
use crate::control::messages::control_failure;
use crate::crypto::{decrypt_content, encrypt_content, get_encryption_scheme};
#[allow(unused_imports)]
use crate::crypto::{
    is_supported, opened, opens_to, other_side, scheme_of, seal_error, tag_views, tagged,
    unsupported,
};
use crate::lightning::hex::hex_string;
#[allow(unused_imports)]
use crate::lightning::hex::hex_text;
use crate::nip47::{failed, ErrorCode, Method, NIP47Error, Response};
#[allow(unused_imports)]
use crate::nip47::failure;
#[allow(unused_imports)]
use crate::relay::event::lemma_tags_push;
use crate::relay::event::{tag, EventDraft, WALLET_RESPONSE_KIND};
use crate::text::{copy_text, join, same_text};
use crate::CONTROL_RESPONSE_KIND;

verus! {

/// What becomes of a request that came in: its text is to be carried out, it is
/// answered at once, or it is dropped because it cannot be read.
#[derive(Debug)]
pub enum Intake<A> {
    CarryOut { payload: String, scheme: String },
    Answer { answer: A, scheme: String },
    Drop { reason: String },
}

/// The answer to a wallet request under a scheme that is not supported.
pub open spec fn unsupported_wallet_answer(scheme: Seq<char>) -> crate::nip47::ResponseView {
    failure(
        Method::GetInfo,
        NIP47Error { code: ErrorCode::UnsupportedEncryption, message: unsupported(scheme) },
    )
}

/// The answer to a control request under a scheme that is not supported.
pub open spec fn unsupported_control_answer(scheme: Seq<char>) ->
    crate::control::messages::ControlResponseView {
    control_failure("unknown"@, "UNSUPPORTED_ENCRYPTION"@, unsupported(scheme))
}

/// What is to be done with a request, given what answers one under a scheme
/// that is not supported: that answer goes out under the older scheme; any other
/// request is answered under its own scheme.
pub open spec fn taken_in<A: View>(
    out: Intake<A>,
    secret: Seq<u8>,
    sender: Seq<u8>,
    tags: Seq<Seq<Seq<char>>>,
    content: Seq<char>,
    unsupported_answer: A::V,
) -> bool {
    let scheme = scheme_of(tags);
    if !is_supported(scheme) {
        out matches Intake::Answer { answer, scheme: used } && answer@ == unsupported_answer
            && used@ == "nip04"@
    } else {
        match opened(secret, sender, content, scheme) {
            Ok(text) => out matches Intake::CarryOut { payload, scheme: used } && payload@ == text
                && used@ == scheme,
            Err(e) => out matches Intake::Drop { reason } && reason@ == e,
        }
    }
}

/// Takes in a wallet request.
pub fn handle_nwc_request(
    secret_key: &[u8; 32],
    sender_pubkey: &[u8; 32],
    tags: &Vec<Vec<String>>,
    content: &str,
) -> (out: Intake<Response>)
    ensures
        taken_in(
            out,
            secret_key@,
            sender_pubkey@,
            tag_views(tags@),
            content@,
            unsupported_wallet_answer(scheme_of(tag_views(tags@))),
        ),
{
    let scheme: &str = get_encryption_scheme(tags);
    if !same_text(scheme, "nip04") && !same_text(scheme, "nip44_v2") {
        return Intake::Answer {
            answer: failed(
                &Method::GetInfo,
                NIP47Error {
                    code: ErrorCode::UnsupportedEncryption,
                    message: join("unsupported encryption: ", scheme),
                },
            ),
            scheme: copy_text("nip04"),
        };
    }
    match decrypt_content(secret_key, sender_pubkey, content, scheme) {
        Ok(payload) => Intake::CarryOut { payload, scheme: copy_text(scheme) },
        Err(reason) => Intake::Drop { reason },
    }
}

/// Takes in a control request.
pub fn handle_control_request(
    secret_key: &[u8; 32],
    sender_pubkey: &[u8; 32],
    tags: &Vec<Vec<String>>,
    content: &str,
) -> (out: Intake<ControlResponse>)
    ensures
        taken_in(
            out,
            secret_key@,
            sender_pubkey@,
            tag_views(tags@),
            content@,
            unsupported_control_answer(scheme_of(tag_views(tags@))),
        ),
{
    let scheme: &str = get_encryption_scheme(tags);
    if !same_text(scheme, "nip04") && !same_text(scheme, "nip44_v2") {
        return Intake::Answer {
            answer: control_failed(
                "unknown",
                "UNSUPPORTED_ENCRYPTION",
                join("unsupported encryption: ", scheme).as_str(),
            ),
            scheme: copy_text("nip04"),
        };
    }
    match decrypt_content(secret_key, sender_pubkey, content, scheme) {
        Ok(payload) => Intake::CarryOut { payload, scheme: copy_text(scheme) },
        Err(reason) => Intake::Drop { reason },
    }
}

/// The tags of an answer: for whom it is, what it answers, and its scheme unless
/// that is the older one.
pub open spec fn reply_tags(sender: Seq<u8>, event_id: Seq<char>, scheme: Seq<char>) -> Seq<
    Seq<Seq<char>>,
> {
    let always = seq![seq!["p"@, hex_text(sender)], seq!["e"@, event_id]];
    if scheme == "nip04"@ {
        always
    } else {
        always.push(seq!["encryption"@, scheme])
    }
}

/// An event answers a request: it has the given kind, is for the sender of the
/// request, names it, and opens to the answer's text under the given scheme.
pub open spec fn replies(
    event: EventDraft<Seq<char>, Seq<Seq<Seq<char>>>>,
    kind: u16,
    secret: Seq<u8>,
    sender: Seq<u8>,
    event_id: Seq<char>,
    payload: Seq<char>,
    scheme: Seq<char>,
) -> bool {
    &&& event.kind == kind
    &&& event.tags == reply_tags(sender, event_id, scheme)
    &&& opens_to(secret, sender, event.content, scheme, payload)
}

/// The event that answers a request.
fn reply(
    kind: u16,
    secret_key: &[u8; 32],
    sender_pubkey: &[u8; 32],
    event_id: &str,
    payload: &str,
    scheme: &str,
) -> (out: Result<EventDraft, String>)
    ensures
        match out {
            Ok(event) => seal_error(secret_key@, sender_pubkey@, payload@, scheme@) is None
                && replies(
                event@,
                kind,
                secret_key@,
                sender_pubkey@,
                event_id@,
                payload@,
                scheme@,
            ),
            Err(e) => seal_error(secret_key@, sender_pubkey@, payload@, scheme@) == Some(e@),
        },
{
    let content: String = encrypt_content(secret_key, sender_pubkey, payload, scheme)?;
    let mut tags: Vec<Vec<String>> = Vec::new();
    let ghost empty = tags@;
    let to: Vec<String> = tag(copy_text("p"), hex_string(sender_pubkey));
    let of: Vec<String> = tag(copy_text("e"), copy_text(event_id));
    tags.push(to);
    tags.push(of);
    proof {
        lemma_tags_push(empty, to);
        lemma_tags_push(empty.push(to), of);
        assert(tag_views(tags@) =~= seq![
            seq!["p"@, hex_text(sender_pubkey@)],
            seq!["e"@, event_id@],
        ]);
    }
    if !same_text(scheme, "nip04") {
        let under: Vec<String> = tag(copy_text("encryption"), copy_text(scheme));
        proof {
            lemma_tags_push(tags@, under);
        }
        tags.push(under);
    }
    Ok(EventDraft { kind, content, tags })
}

/// The event that carries the answer to a wallet request.
pub fn reply_to_wallet_request(
    secret_key: &[u8; 32],
    sender_pubkey: &[u8; 32],
    event_id: &str,
    payload: &str,
    scheme: &str,
) -> (out: Result<EventDraft, String>)
    ensures
        match out {
            Ok(event) => seal_error(secret_key@, sender_pubkey@, payload@, scheme@) is None
                && replies(
                event@,
                WALLET_RESPONSE_KIND,
                secret_key@,
                sender_pubkey@,
                event_id@,
                payload@,
                scheme@,
            ),
            Err(e) => seal_error(secret_key@, sender_pubkey@, payload@, scheme@) == Some(e@),
        },
{
    reply(WALLET_RESPONSE_KIND, secret_key, sender_pubkey, event_id, payload, scheme)
}

/// The event that carries the answer to a control request.
pub fn reply_to_control_request(
    secret_key: &[u8; 32],
    sender_pubkey: &[u8; 32],
    event_id: &str,
    payload: &str,
    scheme: &str,
) -> (out: Result<EventDraft, String>)
    ensures
        match out {
            Ok(event) => seal_error(secret_key@, sender_pubkey@, payload@, scheme@) is None
                && replies(
                event@,
                CONTROL_RESPONSE_KIND,
                secret_key@,
                sender_pubkey@,
                event_id@,
                payload@,
                scheme@,
            ),
            Err(e) => seal_error(secret_key@, sender_pubkey@, payload@, scheme@) == Some(e@),
        },
{
    reply(CONTROL_RESPONSE_KIND, secret_key, sender_pubkey, event_id, payload, scheme)
}

/// Who reads the tags of an answer as the service reads those of a request finds
/// the scheme under which the answer opens.
pub proof fn replies_name_their_scheme(sender: Seq<u8>, event_id: Seq<char>, scheme: Seq<char>)
    ensures
        scheme_of(reply_tags(sender, event_id, scheme)) == scheme,
{
    reveal_strlit("p");
    reveal_strlit("e");
    reveal_strlit("encryption");
    assert("p"@.len() == 1 && "e"@.len() == 1 && "encryption"@.len() == 10);
    let tags = reply_tags(sender, event_id, scheme);
    assert(tags[0] == seq!["p"@, hex_text(sender)]);
    assert(tags.skip(1)[0] == seq!["e"@, event_id]);
    assert(tagged(tags, "encryption"@) == tagged(tags.skip(1), "encryption"@));
    assert(tagged(tags.skip(1), "encryption"@) == tagged(tags.skip(1).skip(1), "encryption"@));
    if scheme != "nip04"@ {
        assert(tags.skip(1).skip(1)[0] == seq!["encryption"@, scheme]);
    } else {
        assert(tags.skip(1).skip(1).len() == 0);
    }
}

/// A client that reads an answer with its own secret key, under the scheme that
/// the answer's tags name, reads what the service wrote.
pub proof fn clients_read_their_answers(
    event: EventDraft<Seq<char>, Seq<Seq<Seq<char>>>>,
    kind: u16,
    secret: Seq<u8>,
    client: Seq<u8>,
    event_id: Seq<char>,
    payload: Seq<char>,
    scheme: Seq<char>,
    client_secret: Seq<u8>,
    service: Seq<u8>,
)
    requires
        replies(event, kind, secret, client, event_id, payload, scheme),
        other_side(secret, client, client_secret, service),
    ensures
        opened(client_secret, service, event.content, scheme_of(event.tags)) == Ok::<
            Seq<char>,
            Seq<char>,
        >(payload),
{
    replies_name_their_scheme(client, event_id, scheme);
}

/// The service reads what a client sealed for it, whatever the supported scheme,
/// if the request names the scheme.
pub proof fn requests_are_read<A: View>(
    out: Intake<A>,
    secret: Seq<u8>,
    client: Seq<u8>,
    tags: Seq<Seq<Seq<char>>>,
    content: Seq<char>,
    unsupported_answer: A::V,
    client_secret: Seq<u8>,
    service: Seq<u8>,
    payload: Seq<char>,
)
    requires
        other_side(client_secret, service, secret, client),
        is_supported(scheme_of(tags)),
        opens_to(client_secret, service, content, scheme_of(tags), payload),
        taken_in(out, secret, client, tags, content, unsupported_answer),
    ensures
        out matches Intake::CarryOut { payload: read, scheme } && read@ == payload && scheme@
            == scheme_of(tags),
{
}

} // verus!
