//! What the service tells of itself, and what it makes of the events that come
//! in.

use vstd::prelude::*;

#[allow(unused_imports)]
use crate::control::messages::control_names;
#[allow(unused_imports)]
use crate::control::request::node_notifications;
#[allow(unused_imports)]
use crate::crypto::tag_views;
#[allow(unused_imports)]
use crate::nip47::method_name;
use crate::nip47::Method;
#[allow(unused_imports)]
use crate::relay::event::lemma_tags_push;
use crate::relay::event::{tag, EventDraft, GRANT_KIND, WALLET_INFO_KIND, WALLET_REQUEST_KIND};
use crate::text::{chars_of, copy_text, join, to_lowercase};
#[allow(unused_imports)]
use crate::text::{ascii_lower, ascii_text, lower_text, opt_str};
#[allow(unused_imports)]
use crate::views::views;
#[allow(unused_imports)]
use crate::wallet::execute::wallet_notifications;
#[allow(unused_imports)]
use crate::wallet::info::supported;
use crate::wallet::info::supported_methods;
use crate::{CONTROL_INFO_KIND, CONTROL_REQUEST_KIND};

verus! {

/// The words in one text, with a space between each two.
pub open spec fn spaced(words: Seq<Seq<char>>) -> Seq<char>
    decreases words.len(),
{
    if words.len() == 0 {
        Seq::empty()
    } else if words.len() == 1 {
        words[0]
    } else {
        spaced(words.drop_last()) + " "@ + words.last()
    }
}

/// The words in one text, with a space between each two.
fn join_words(words: &Vec<&str>) -> (out: String)
    ensures
        out@ == spaced(words@.map_values(|w: &str| w@)),
{
    let ghost all = words@.map_values(|w: &str| w@);
    let mut out: String = copy_text("");
    let mut i: usize = 0;
    proof {
        reveal_strlit("");
        assert(""@ =~= Seq::<char>::empty());
        assert(all.take(0).len() == 0);
    }
    while i < words.len()
        invariant
            all == words@.map_values(|w: &str| w@),
            i <= words.len(),
            out@ == spaced(all.take(i as int)),
        decreases words.len() - i,
    {
        proof {
            assert(all.take(i + 1).drop_last() =~= all.take(i as int));
            assert(all.take(i + 1).last() == words@[i as int]@);
        }
        if i == 0 {
            out = copy_text(words[0]);
        } else {
            out = join(join(out.as_str(), " ").as_str(), words[i]);
        }
        i += 1;
    }
    assert(all.take(i as int) =~= all);
    out
}

/// The encryption schemes that clients may use, the preferred one first.
pub open spec fn encryption_schemes() -> Seq<Seq<char>> {
    seq!["nip44_v2"@, "nip04"@]
}

/// The tags of an event by which the service tells of itself.
pub open spec fn info_tags(notifications: Seq<Seq<char>>) -> Seq<Seq<Seq<char>>> {
    seq![
        seq!["encryption"@, spaced(encryption_schemes())],
        seq!["notifications"@, spaced(notifications)],
    ]
}

/// The names of the methods of the wallet.
pub open spec fn wallet_method_names() -> Seq<Seq<char>> {
    supported().map_values(|m: Method<Seq<char>>| method_name(m))
}

/// The event that tells what the wallet can do.
pub open spec fn wallet_info() -> EventDraft<Seq<char>, Seq<Seq<Seq<char>>>> {
    EventDraft {
        kind: WALLET_INFO_KIND,
        content: spaced(wallet_method_names()),
        tags: info_tags(wallet_notifications()),
    }
}

/// The event that tells what can be asked of the node.
pub open spec fn control_info() -> EventDraft<Seq<char>, Seq<Seq<Seq<char>>>> {
    EventDraft {
        kind: CONTROL_INFO_KIND,
        content: spaced(control_names()),
        tags: info_tags(node_notifications()),
    }
}

fn tags_of_info(notifications: &Vec<&str>) -> (out: Vec<Vec<String>>)
    ensures
        tag_views(out@) == info_tags(notifications@.map_values(|w: &str| w@)),
{
    let schemes: Vec<&str> = vec!["nip44_v2", "nip04"];
    let mut out: Vec<Vec<String>> = Vec::new();
    let ghost empty = out@;
    let encryption: Vec<String> = tag(copy_text("encryption"), join_words(&schemes));
    let told: Vec<String> = tag(copy_text("notifications"), join_words(notifications));
    out.push(encryption);
    out.push(told);
    proof {
        assert(schemes@.map_values(|w: &str| w@) =~= encryption_schemes());
        lemma_tags_push(empty, encryption);
        lemma_tags_push(empty.push(encryption), told);
        assert(tag_views(out@) =~= info_tags(notifications@.map_values(|w: &str| w@)));
    }
    out
}

/// The event that tells what the wallet can do.
pub fn wallet_info_event() -> (out: EventDraft)
    ensures
        out@ == wallet_info(),
{
    let methods: Vec<Method> = supported_methods();
    let mut names: Vec<&str> = Vec::new();
    let mut i: usize = 0;
    while i < methods.len()
        invariant
            i <= methods.len(),
            names.len() == i,
            forall|k: int|
                0 <= k < i ==> (#[trigger] names@[k])@ == method_name(methods@[k]@),
        decreases methods.len() - i,
    {
        names.push(methods[i].as_str());
        i += 1;
    }
    let notifications: Vec<&str> = vec![
        "payment_received",
        "payment_sent",
        "hold_invoice_accepted",
    ];
    proof {
        assert forall|k: int| 0 <= k < names.len() implies names@.map_values(|w: &str| w@)[k]
            == wallet_method_names()[k] by {
            assert(views(methods@)[k] == methods@[k]@);
        }
        assert(views(methods@).len() == names@.len());
        assert(names@.map_values(|w: &str| w@) =~= wallet_method_names());
        assert(notifications@.map_values(|w: &str| w@) =~= wallet_notifications());
    }
    EventDraft {
        kind: WALLET_INFO_KIND,
        content: join_words(&names),
        tags: tags_of_info(&notifications),
    }
}

/// The event that tells what can be asked of the node.
pub fn control_info_event() -> (out: EventDraft)
    ensures
        out@ == control_info(),
{
    let names: Vec<&str> = vec![
        "connect_peer",
        "open_channel",
        "close_channel",
        "list_channels",
        "list_peers",
        "disconnect_peer",
        "subscribe_notifications",
        "get_channel_fees",
        "set_channel_fees",
        "list_network_nodes",
        "get_network_node",
        "get_network_stats",
        "get_network_channel",
        "get_forwarding_history",
        "get_pending_htlcs",
        "estimate_route_fee",
        "query_routes",
    ];
    let notifications: Vec<&str> = vec!["channel_opened", "channel_closed"];
    assert(names@.map_values(|w: &str| w@) =~= control_names());
    assert(notifications@.map_values(|w: &str| w@) =~= node_notifications());
    EventDraft {
        kind: CONTROL_INFO_KIND,
        content: join_words(&names),
        tags: tags_of_info(&notifications),
    }
}

/// What an event that came in asks for, by its kind.
#[derive(Debug, Clone, Copy, PartialEq, Eq, Structural)]
pub enum Incoming {
    WalletRequest,
    ControlRequest,
    Grant,
    Another,
}

/// What an event that came in asks for, by its kind.
pub fn incoming(kind: u16) -> (out: Incoming)
    ensures
        (out == Incoming::WalletRequest) == (kind == WALLET_REQUEST_KIND),
        (out == Incoming::ControlRequest) == (kind == CONTROL_REQUEST_KIND),
        (out == Incoming::Grant) == (kind == GRANT_KIND),
{
    if kind == WALLET_REQUEST_KIND {
        Incoming::WalletRequest
    } else if kind == CONTROL_REQUEST_KIND {
        Incoming::ControlRequest
    } else if kind == GRANT_KIND {
        Incoming::Grant
    } else {
        Incoming::Another
    }
}

/// The word stands somewhere in the text.
pub open spec fn occurs(word: Seq<char>, text: Seq<char>) -> bool {
    exists|i: int|
        0 <= i <= text.len() - word.len() && #[trigger] text.subrange(i, i + word.len()) == word
}

/// Whether a note whose text, in lower case, is the given one says hello.
pub fn says_hello(lower: &str) -> (out: bool)
    ensures
        out == occurs("hello"@, lower@),
{
    proof {
        reveal_strlit("hello");
    }
    let ghost word = "hello"@;
    assert(word.len() == 5 && word[0] == 'h' && word[1] == 'e' && word[2] == 'l' && word[3] == 'l'
        && word[4] == 'o');
    let text: Vec<char> = chars_of(lower);
    let mut i: usize = 0;
    while i < text.len() && text.len() - i >= 5
        invariant
            text@ == lower@,
            i <= text.len(),
            word == "hello"@,
            word.len() == 5 && word[0] == 'h' && word[1] == 'e' && word[2] == 'l' && word[3]
                == 'l' && word[4] == 'o',
            forall|k: int|
                0 <= k < i && k + 5 <= text.len() ==> #[trigger] lower@.subrange(k, k + 5) != word,
        decreases text.len() - i,
    {
        let ghost part = lower@.subrange(i as int, i + 5);
        if text[i] == 'h' && text[i + 1] == 'e' && text[i + 2] == 'l' && text[i + 3] == 'l'
            && text[i + 4] == 'o' {
            assert(part =~= word);
            return true;
        }
        assert(part[0] == text@[i as int] && part[1] == text@[i + 1] && part[2] == text@[i + 2]
            && part[3] == text@[i + 3] && part[4] == text@[i + 4]);
        i += 1;
    }
    false
}

/// What is said to a note: hi to one that says hello in whatever case, nothing
/// to any other.
pub fn greeting(content: &str) -> (out: Option<&'static str>)
    ensures
        opt_str(out) == (if occurs("hello"@, lower_text(content@)) {
            Some("Hi"@)
        } else {
            None
        }),
        ascii_text(content@) ==> (out is Some) == occurs(
            "hello"@,
            content@.map_values(|c: char| ascii_lower(c)),
        ),
{
    if says_hello(to_lowercase(content).as_str()) {
        Some("Hi")
    } else {
        None
    }
}

} // verus!
