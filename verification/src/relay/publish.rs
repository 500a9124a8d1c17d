//! Notifications on their way to the subscribers.

use vstd::prelude::*;
#[allow(unused_imports)]
use vstd::arithmetic::div_mod::lemma_fundamental_div_mod_converse;

#[allow(unused_imports)]
use crate::control::request::node_notifications;
use crate::crypto::{encrypt_content, parse_key};
#[allow(unused_imports)]
use crate::crypto::{key_parse, opens_to, seal_error, tag_views};
use crate::lightning::hex::hex_string;
#[allow(unused_imports)]
use crate::lightning::hex::hex_text;
#[allow(unused_imports)]
use crate::lightning::node::ChannelDetails;
#[allow(unused_imports)]
use crate::relay::event::lemma_tags_push;
use crate::relay::event::{
    tag, EventDraft, NNC_NOTIFICATION_KIND, NWC_NOTIFICATION_KIND_NIP04,
    NWC_NOTIFICATION_KIND_NIP44,
};
#[allow(unused_imports)]
use crate::relay::notices::{
    nnc_notification_type, notice_of, notification_type, NodeEvent, Notice,
};
use crate::state::subscription_store::{get_subscribers, SubscriptionStore};
#[allow(unused_imports)]
use crate::state::subscription_store::subscribed;
use crate::text::copy_text;
#[allow(unused_imports)]
use crate::text::texts;
#[allow(unused_imports)]
use crate::views::views;
#[allow(unused_imports)]
use crate::wallet::execute::wallet_notifications;

verus! {

/// A form in which a notification goes out: the kind of the event and the
/// encryption scheme.
#[derive(Debug)]
pub struct Form<S = String> {
    pub kind: u16,
    pub scheme: S,
}

impl View for Form {
    type V = Form<Seq<char>>;

    open spec fn view(&self) -> Form<Seq<char>> {
        Form { kind: self.kind, scheme: self.scheme@ }
    }
}

/// Wallet notifications go out under both schemes, each with a kind of its own.
pub open spec fn wallet_forms() -> Seq<Form<Seq<char>>> {
    seq![
        Form { kind: NWC_NOTIFICATION_KIND_NIP04, scheme: "nip04"@ },
        Form { kind: NWC_NOTIFICATION_KIND_NIP44, scheme: "nip44_v2"@ },
    ]
}

/// Notifications of the node go out under the newer scheme only.
pub open spec fn node_forms() -> Seq<Form<Seq<char>>> {
    seq![Form { kind: NNC_NOTIFICATION_KIND, scheme: "nip44_v2"@ }]
}

/// Why a notification cannot go to a client in a form, if it cannot.
pub open spec fn delivery_error(
    secret: Seq<u8>,
    client: Seq<char>,
    payload: Seq<char>,
    form: Form<Seq<char>>,
) -> Option<Seq<char>> {
    match key_parse(client) {
        Err(m) => Some(m),
        Ok(key) => seal_error(secret, key, payload, form.scheme),
    }
}

/// An event tells a client of something: it has the kind of the form, is for the
/// client, and opens to the text under the scheme of the form.
pub open spec fn delivers(
    event: EventDraft<Seq<char>, Seq<Seq<Seq<char>>>>,
    secret: Seq<u8>,
    client: Seq<char>,
    payload: Seq<char>,
    form: Form<Seq<char>>,
) -> bool {
    match key_parse(client) {
        Err(_) => false,
        Ok(key) => {
            &&& event.kind == form.kind
            &&& event.tags == seq![seq!["p"@, hex_text(key)]]
            &&& opens_to(secret, key, event.content, form.scheme, payload)
        },
    }
}

/// The events that tell the subscribers of something, and what kept them from
/// being all.
#[derive(Debug)]
pub struct Publication {
    pub events: Vec<EventDraft>,
    pub error: Option<String>,
}

/// The event at place `j` tells the client whose turn it is in the form whose
/// turn it is.
pub open spec fn delivers_in_turn(
    event: EventDraft,
    j: int,
    secret: Seq<u8>,
    clients: Seq<Seq<char>>,
    payload: Seq<char>,
    forms: Seq<Form<Seq<char>>>,
) -> bool {
    let client = clients[j / (forms.len() as int)];
    let form = forms[j % (forms.len() as int)];
    delivery_error(secret, client, payload, form) is None && delivers(
        event@,
        secret,
        client,
        payload,
        form,
    )
}

/// Each event tells the client whose turn it is in the form whose turn it is.
pub open spec fn delivered(
    events: Seq<EventDraft>,
    secret: Seq<u8>,
    clients: Seq<Seq<char>>,
    payload: Seq<char>,
    forms: Seq<Form<Seq<char>>>,
) -> bool {
    forall|j: int|
        0 <= j < events.len() ==> delivers_in_turn(
            #[trigger] events[j],
            j,
            secret,
            clients,
            payload,
            forms,
        )
}

/// The events go to the clients one after the other, to each in every form, up
/// to the first that cannot go out; the error is why it cannot.
pub open spec fn announced(
    out: Publication,
    secret: Seq<u8>,
    clients: Seq<Seq<char>>,
    payload: Seq<char>,
    forms: Seq<Form<Seq<char>>>,
) -> bool {
    let n = out.events@.len();
    let k = forms.len() as int;
    &&& n <= clients.len() * forms.len()
    &&& delivered(out.events@, secret, clients, payload, forms)
    &&& if n < clients.len() * forms.len() {
        &&& out.error is Some
        &&& delivery_error(secret, clients[n as int / k], payload, forms[n as int % k]) == Some(
            out.error->0@,
        )
    } else {
        out.error is None
    }
}

/// The event that tells a client of something in one form.
fn deliver(secret_key: &[u8; 32], client: &str, payload: &str, form: &Form) -> (out: Result<
    EventDraft,
    String,
>)
    ensures
        match out {
            Ok(event) => delivery_error(secret_key@, client@, payload@, form@) is None && delivers(
                event@,
                secret_key@,
                client@,
                payload@,
                form@,
            ),
            Err(e) => delivery_error(secret_key@, client@, payload@, form@) == Some(e@),
        },
{
    let key: [u8; 32] = parse_key(client)?;
    let content: String = encrypt_content(secret_key, &key, payload, form.scheme.as_str())?;
    let mut tags: Vec<Vec<String>> = Vec::new();
    let ghost empty = tags@;
    let to: Vec<String> = tag(copy_text("p"), hex_string(&key));
    tags.push(to);
    proof {
        lemma_tags_push(empty, to);
        assert(tag_views(tags@) =~= seq![seq!["p"@, hex_text(key@)]]);
    }
    Ok(EventDraft { kind: form.kind, content, tags })
}

proof fn lemma_delivered_push(
    events: Seq<EventDraft>,
    event: EventDraft,
    secret: Seq<u8>,
    clients: Seq<Seq<char>>,
    payload: Seq<char>,
    forms: Seq<Form<Seq<char>>>,
    c: int,
    f: int,
)
    requires
        delivered(events, secret, clients, payload, forms),
        0 <= f < forms.len(),
        events.len() == c * forms.len() + f,
        delivery_error(secret, clients[c], payload, forms[f]) is None,
        delivers(event@, secret, clients[c], payload, forms[f]),
    ensures
        delivered(events.push(event), secret, clients, payload, forms),
{
    let k = forms.len() as int;
    lemma_fundamental_div_mod_converse(c * k + f, k, c, f);
    let all = events.push(event);
    assert forall|j: int| 0 <= j < all.len() implies delivers_in_turn(
        #[trigger] all[j],
        j,
        secret,
        clients,
        payload,
        forms,
    ) by {
        if j < events.len() {
            assert(all[j] == events[j]);
        }
    }
}

/// The events that tell the given clients of something in the given forms.
pub fn announce(
    secret_key: &[u8; 32],
    clients: &Vec<String>,
    payload: &str,
    forms: &Vec<Form>,
) -> (out: Publication)
    ensures
        announced(out, secret_key@, texts(clients@), payload@, views(forms@)),
{
    let mut events: Vec<EventDraft> = Vec::new();
    let k: usize = forms.len();
    let mut i: usize = 0;
    assert(0 * k == 0) by (nonlinear_arith);
    while i < clients.len()
        invariant
            k == forms.len(),
            i <= clients.len(),
            events@.len() == i * k,
            delivered(events@, secret_key@, texts(clients@), payload@, views(forms@)),
        decreases clients.len() - i,
    {
        let mut f: usize = 0;
        while f < k
            invariant
                k == forms.len(),
                i < clients.len(),
                f <= k,
                events@.len() == i * k + f,
                delivered(events@, secret_key@, texts(clients@), payload@, views(forms@)),
            decreases k - f,
        {
            proof {
                lemma_fundamental_div_mod_converse(
                    i * k + f,
                    k as int,
                    i as int,
                    f as int,
                );
                assert(i * k + f < clients.len() * k) by (nonlinear_arith)
                    requires
                        i < clients.len(),
                        f < k,
                ;
                assert(texts(clients@)[i as int] == clients@[i as int]@);
                assert(views(forms@)[f as int] == forms@[f as int]@);
            }
            match deliver(secret_key, clients[i].as_str(), payload, &forms[f]) {
                Ok(event) => {
                    proof {
                        lemma_delivered_push(
                            events@,
                            event,
                            secret_key@,
                            texts(clients@),
                            payload@,
                            views(forms@),
                            i as int,
                            f as int,
                        );
                    }
                    events.push(event);
                },
                Err(error) => {
                    return Publication { events, error: Some(error) };
                },
            }
            f += 1;
        }
        assert(i * k + k == (i + 1) * k) by (nonlinear_arith);
        i += 1;
    }
    Publication { events, error: None }
}

/// The clients that subscribed to a type, each once, in some order.
pub open spec fn are_subscribers(
    clients: Seq<Seq<char>>,
    subscriptions: Map<Seq<char>, Set<Seq<char>>>,
    kind: Seq<char>,
) -> bool {
    &&& clients.no_duplicates()
    &&& forall|c: Seq<char>| #[trigger] clients.contains(c) <==> subscribed(subscriptions, c, kind)
}

/// The events that tell the subscribers of a wallet notification.
pub fn publish_nwc_notification(
    secret_key: &[u8; 32],
    subscriptions: &SubscriptionStore,
    notification_type: &str,
    payload: &str,
) -> (out: Publication)
    requires
        subscriptions.wf(),
    ensures
        exists|clients: Seq<Seq<char>>| #[trigger]
            are_subscribers(clients, subscriptions@, notification_type@) && announced(
                out,
                secret_key@,
                clients,
                payload@,
                wallet_forms(),
            ),
{
    let mut forms: Vec<Form> = Vec::new();
    forms.push(Form { kind: NWC_NOTIFICATION_KIND_NIP04, scheme: copy_text("nip04") });
    forms.push(Form { kind: NWC_NOTIFICATION_KIND_NIP44, scheme: copy_text("nip44_v2") });
    assert(views(forms@) =~= wallet_forms());
    let clients: Vec<String> = get_subscribers(subscriptions, notification_type);
    assert(are_subscribers(texts(clients@), subscriptions@, notification_type@));
    announce(secret_key, &clients, payload, &forms)
}

/// The events that tell the subscribers of a notification of the node.
pub fn publish_nnc_notification(
    secret_key: &[u8; 32],
    subscriptions: &SubscriptionStore,
    notification_type: &str,
    payload: &str,
) -> (out: Publication)
    requires
        subscriptions.wf(),
    ensures
        exists|clients: Seq<Seq<char>>| #[trigger]
            are_subscribers(clients, subscriptions@, notification_type@) && announced(
                out,
                secret_key@,
                clients,
                payload@,
                node_forms(),
            ),
{
    let mut forms: Vec<Form> = Vec::new();
    forms.push(Form { kind: NNC_NOTIFICATION_KIND, scheme: copy_text("nip44_v2") });
    assert(views(forms@) =~= node_forms());
    let clients: Vec<String> = get_subscribers(subscriptions, notification_type);
    assert(are_subscribers(texts(clients@), subscriptions@, notification_type@));
    announce(secret_key, &clients, payload, &forms)
}

/// Every subscriber is told in every form, provided that nothing keeps any of
/// the events from going out.
pub proof fn every_subscriber_is_told(
    out: Publication,
    secret: Seq<u8>,
    clients: Seq<Seq<char>>,
    payload: Seq<char>,
    forms: Seq<Form<Seq<char>>>,
    c: int,
    f: int,
)
    requires
        announced(out, secret, clients, payload, forms),
        forall|i: int, g: int|
            0 <= i < clients.len() && 0 <= g < forms.len() ==> #[trigger] delivery_error(
                secret,
                clients[i],
                payload,
                forms[g],
            ) is None,
        0 <= c < clients.len(),
        0 <= f < forms.len(),
    ensures
        out.error is None,
        exists|j: int|
            0 <= j < out.events@.len() && delivers(
                (#[trigger] out.events@[j])@,
                secret,
                clients[c],
                payload,
                forms[f],
            ),
{
    let n = out.events@.len() as int;
    let k = forms.len() as int;
    if n < clients.len() * forms.len() {
        assert(0 <= n / k < clients.len() && 0 <= n % k < k) by (nonlinear_arith)
            requires
                0 <= n < clients.len() * k,
                0 < k,
        ;
        assert(delivery_error(secret, clients[n / k], payload, forms[n % k]) is None);
    }
    let j = c * k + f;
    assert(0 <= j < clients.len() * k) by (nonlinear_arith)
        requires
            0 <= c < clients.len(),
            0 <= f < k,
            j == c * k + f,
    ;
    lemma_fundamental_div_mod_converse(j, k, c, f);
    assert(delivers_in_turn(out.events@[j], j, secret, clients, payload, forms));
    assert(delivers(out.events@[j]@, secret, clients[c], payload, forms[f]));
}

/// Nobody is told but subscribers.
pub proof fn only_subscribers_are_told(
    out: Publication,
    secret: Seq<u8>,
    clients: Seq<Seq<char>>,
    payload: Seq<char>,
    forms: Seq<Form<Seq<char>>>,
    j: int,
)
    requires
        announced(out, secret, clients, payload, forms),
        0 <= j < out.events@.len(),
    ensures
        exists|c: int|
            0 <= c < clients.len() && key_parse(#[trigger] clients[c]) is Ok && out.events@[j]@.tags
                == seq![seq!["p"@, hex_text(key_parse(clients[c])->Ok_0)]],
{
    let k = forms.len() as int;
    let total = clients.len() * k;
    assert(k > 0 && 0 <= j / k < clients.len()) by (nonlinear_arith)
        requires
            0 <= j < total,
            total == clients.len() * k,
            k >= 0,
    ;
    let c = j / k;
    assert(delivers_in_turn(out.events@[j], j, secret, clients, payload, forms));
    assert(delivers(out.events@[j]@, secret, clients[c], payload, forms[j % k]));
    assert(key_parse(clients[c]) is Ok);
}

/// Whatever is told of an event of the node is of a type that clients can
/// subscribe to.
pub proof fn notices_can_be_subscribed_to(
    event: NodeEvent,
    channels: Seq<ChannelDetails>,
    now: u64,
)
    ensures
        match notice_of(event, channels, now) {
            Notice::Wallet(n) => wallet_notifications().contains(notification_type(n)),
            Notice::Node(n) => node_notifications().contains(nnc_notification_type(n)),
            _ => true,
        },
{
    assert(wallet_notifications()[0] == "payment_received"@);
    assert(wallet_notifications()[1] == "payment_sent"@);
    assert(wallet_notifications()[2] == "hold_invoice_accepted"@);
    assert(node_notifications()[0] == "channel_opened"@);
    assert(node_notifications()[1] == "channel_closed"@);
}

} // verus!
