//! What the wallet can do, and what a client may ask of it.

use vstd::prelude::*;

#[allow(unused_imports)]
use crate::access::{all_methods, listed_rule};
use crate::access::{find_rule, MethodAccessRule, UsageProfile};
use crate::nip47::Method;
use crate::text::copy_text;
#[allow(unused_imports)]
use crate::views::{lemma_views_push, views};

verus! {

/// The methods that the wallet supports.
pub open spec fn supported() -> Seq<Method<Seq<char>>> {
    seq![
        Method::GetInfo,
        Method::GetBalance,
        Method::PayInvoice,
        Method::PayKeysend,
        Method::MakeInvoice,
        Method::LookupInvoice,
        Method::ListTransactions,
        Method::MakeHoldInvoice,
        Method::CancelHoldInvoice,
        Method::SettleHoldInvoice,
        Method::PayOnchain,
        Method::MakeNewAddress,
        Method::PayOffer,
        Method::MakeOffer,
        Method::LookupOffer,
        Method::LookupAddress,
        Method::PayBip321,
        Method::SubscribeNotifications,
        Method::ListOffers,
        Method::DisableOffer,
        Method::ListAddresses,
        Method::ListInvoices,
    ]
}

/// The methods that the wallet supports.
pub fn supported_methods() -> (out: Vec<Method>)
    ensures
        views(out@) == supported(),
{
    let out: Vec<Method> = vec![
        Method::GetInfo,
        Method::GetBalance,
        Method::PayInvoice,
        Method::PayKeysend,
        Method::MakeInvoice,
        Method::LookupInvoice,
        Method::ListTransactions,
        Method::MakeHoldInvoice,
        Method::CancelHoldInvoice,
        Method::SettleHoldInvoice,
        Method::PayOnchain,
        Method::MakeNewAddress,
        Method::PayOffer,
        Method::MakeOffer,
        Method::LookupOffer,
        Method::LookupAddress,
        Method::PayBip321,
        Method::SubscribeNotifications,
        Method::ListOffers,
        Method::DisableOffer,
        Method::ListAddresses,
        Method::ListInvoices,
    ];
    assert(views(out@) =~= supported());
    out
}

/// The methods among the given ones that the rules list.
pub open spec fn listed_methods<R>(
    methods: Seq<Method<Seq<char>>>,
    rules: Seq<(Method, MethodAccessRule<R>)>,
) -> Seq<Method<Seq<char>>>
    decreases methods.len(),
{
    if methods.len() == 0 {
        Seq::empty()
    } else {
        let before = listed_methods(methods.drop_last(), rules);
        if listed_rule(rules, methods.last()) is Some {
            before.push(methods.last())
        } else {
            before
        }
    }
}

/// The methods that a client may call: none without a profile, all if the
/// profile lists none or the key for all, and else those that it lists.
pub open spec fn allowed<R>(profile: Option<UsageProfile<R>>) -> Seq<Method<Seq<char>>> {
    match profile {
        None => Seq::empty(),
        Some(profile) => match profile.methods {
            None => supported(),
            Some(rules) => if listed_rule(rules@, all_methods()) is Some {
                supported()
            } else {
                listed_methods(supported(), rules@)
            },
        },
    }
}

/// The methods that a client may call.
pub fn allowed_methods_for<R>(profile: Option<&UsageProfile<R>>) -> (out: Vec<Method>)
    ensures
        views(out@) == allowed(
            match profile {
                Some(p) => Some(*p),
                None => None,
            },
        ),
{
    let none: Vec<Method> = Vec::new();
    assert(views(none@) =~= Seq::empty());
    let profile: &UsageProfile<R> = match profile {
        Some(p) => p,
        None => {
            return none;
        },
    };
    let rules: &Vec<(Method, MethodAccessRule<R>)> = match &profile.methods {
        Some(r) => r,
        None => {
            return supported_methods();
        },
    };
    let all: Method = Method::Unknown(copy_text("ALL"));
    if find_rule(rules, &all).is_some() {
        return supported_methods();
    }
    let methods: Vec<Method> = supported_methods();
    let ghost names = views(methods@);
    let mut out: Vec<Method> = none;
    let mut i: usize = 0;
    assert(names.take(0) =~= Seq::empty());
    while i < methods.len()
        invariant
            names == views(methods@),
            i <= methods.len(),
            views(out@) == listed_methods(names.take(i as int), rules@),
        decreases methods.len() - i,
    {
        proof {
            assert(names.take(i + 1).drop_last() =~= names.take(i as int));
            assert(names.take(i + 1).last() == methods@[i as int]@);
        }
        if find_rule(rules, &methods[i]).is_some() {
            let method: Method = methods[i].copy();
            proof {
                lemma_views_push(out@, method);
            }
            out.push(method);
        }
        i += 1;
    }
    assert(names.take(i as int) =~= names);
    out
}

proof fn lemma_listed_methods<R>(
    methods: Seq<Method<Seq<char>>>,
    rules: Seq<(Method, MethodAccessRule<R>)>,
    m: Method<Seq<char>>,
)
    ensures
        listed_methods(methods, rules).contains(m) <==> methods.contains(m) && listed_rule(rules, m)
            is Some,
    decreases methods.len(),
{
    if methods.len() > 0 {
        let front = methods.drop_last();
        lemma_listed_methods(front, rules, m);
        let before = listed_methods(front, rules);
        let after = listed_methods(methods, rules);
        if before.contains(m) {
            let i = choose|i: int| 0 <= i < before.len() && before[i] == m;
            assert(after[i] == m);
        }
        if front.contains(m) {
            let i = choose|i: int| 0 <= i < front.len() && front[i] == m;
            assert(methods[i] == m);
        }
        if methods.last() == m && listed_rule(rules, m) is Some {
            assert(after[after.len() - 1] == m);
            assert(methods[methods.len() - 1] == m);
        }
        if after.contains(m) && !before.contains(m) {
            let i = choose|i: int| 0 <= i < after.len() && after[i] == m;
            assert(i == before.len());
        }
        if methods.contains(m) && !front.contains(m) {
            let i = choose|i: int| 0 <= i < methods.len() && methods[i] == m;
            assert(i == methods.len() - 1) by {
                if i < methods.len() - 1 {
                    assert(front[i] == m);
                }
            }
        }
    }
}

/// A client is told that it may call a method exactly if the wallet supports
/// the method and the client's profile does not keep it from it.
pub proof fn told_methods_are_the_permitted_ones<R>(
    profile: UsageProfile<R>,
    m: Method<Seq<char>>,
)
    ensures
        allowed(Some(profile)).contains(m) <==> supported().contains(m)
            && crate::access::method_rule(profile, m) is Ok,
{
    match profile.methods {
        None => {},
        Some(rules) => {
            lemma_listed_methods(supported(), rules@, m);
        },
    }
}

} // verus!
