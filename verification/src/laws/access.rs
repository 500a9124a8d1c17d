//! What a client's profile lets it do, and what its requests are debited.

use vstd::prelude::*;

#[allow(unused_imports)]
use crate::access::{
    all_consent, compare_access_keys, denial_of_run, listed_rule, map_rate_state_error,
    method_rule, plan_access, refund_failure, request_spend_msat, run_after,
};
use crate::access::{
    AccessErrorContext, AccessKey, AccessPlan, AccessRun, KnownLimiters, LimiterAction,
    LimiterReply, MethodAccessRule, RateStateError, Spend, StateUpdateRequest, UsageProfile,
};
#[allow(unused_imports)]
use crate::lightning::parse::uri_reading;
use crate::nip47::{ErrorCode, Method, NIP47Error, Request, RequestParams, Response};
use crate::text::TextOrder;
#[allow(unused_imports)]
use crate::views::views;

verus! {

/// A rule of the list at place `i` is for the method, and none before it is.
pub open spec fn is_rule_for<R>(
    rules: Seq<(Method, MethodAccessRule<R>)>,
    method: Method<Seq<char>>,
    i: int,
) -> bool {
    &&& 0 <= i < rules.len()
    &&& rules[i].0@ == method
    &&& forall|j: int| 0 <= j < i ==> (#[trigger] rules[j]).0@ != method
}

/// The list has a rule for the method.
pub open spec fn lists<R>(
    rules: Seq<(Method, MethodAccessRule<R>)>,
    method: Method<Seq<char>>,
) -> bool {
    exists|i: int| 0 <= i < rules.len() && (#[trigger] rules[i]).0@ == method
}

/// The profile lets its client call the method: it lists no methods at all, or
/// this one, or all.
pub open spec fn may_call<R>(profile: UsageProfile<R>, method: Method<Seq<char>>) -> bool {
    profile.methods matches Some(rules) ==> lists(rules@, method) || lists(
        rules@,
        Method::Unknown("ALL"@),
    )
}

proof fn lemma_rule_at<R>(
    rules: Seq<(Method, MethodAccessRule<R>)>,
    method: Method<Seq<char>>,
    i: int,
)
    requires
        is_rule_for(rules, method, i),
    ensures
        listed_rule(rules, method) == Some(rules[i].1),
    decreases i,
{
    if i > 0 {
        assert(rules[0].0@ != method);
        let rest = rules.skip(1);
        assert forall|j: int| 0 <= j < i - 1 implies (#[trigger] rest[j]).0@ != method by {
            assert(rest[j] == rules[j + 1]);
        }
        assert(rest[i - 1] == rules[i]);
        lemma_rule_at(rest, method, i - 1);
    }
}

proof fn lemma_lists<R>(rules: Seq<(Method, MethodAccessRule<R>)>, method: Method<Seq<char>>)
    ensures
        lists(rules, method) <==> listed_rule(rules, method) is Some,
    decreases rules.len(),
{
    if rules.len() > 0 {
        let rest = rules.skip(1);
        lemma_lists(rest, method);
        if lists(rules, method) && rules[0].0@ != method {
            let i = choose|i: int| 0 <= i < rules.len() && (#[trigger] rules[i]).0@ == method;
            assert(rest[i - 1].0@ == method);
        }
        if lists(rest, method) {
            let i = choose|i: int| 0 <= i < rest.len() && (#[trigger] rest[i]).0@ == method;
            assert(rules[i + 1].0@ == method);
        }
        if rules[0].0@ == method {
            assert(lists(rules, method));
        }
    }
}

pub(crate) proof fn lemma_may_call<R>(profile: UsageProfile<R>, method: Method<Seq<char>>)
    ensures
        may_call(profile, method) <==> method_rule(profile, method) is Ok,
{
    if let Some(rules) = profile.methods {
        lemma_lists(rules@, method);
        lemma_lists(rules@, Method::Unknown("ALL"@));
    }
}

/// A request pays the given millisatoshis, as far as it says so itself: an
/// invoice, an offer or a node with an amount, an address with satoshis, or a
/// payment URI with an amount.
pub open spec fn pays(params: RequestParams, msat: int) -> bool {
    match params {
        RequestParams::PayInvoice(p) => p.amount matches Some(n) && n == msat,
        RequestParams::PayOffer(p) => p.amount matches Some(n) && n == msat,
        RequestParams::PayKeysend(p) => p.amount == msat,
        RequestParams::PayOnchain(p) => p.amount * 1000 == msat,
        RequestParams::PayBip321(p) => uri_reading(p.uri@) matches Ok(uri)
            && uri.amount_sat matches Some(sat) && sat * 1000 == msat,
        _ => false,
    }
}

/// The debit at place `i` is the one of the client's money.
pub open spec fn is_quota<R>(updates: Seq<StateUpdateRequest<R>>, caller: Seq<char>, i: int) -> bool {
    &&& 0 <= i < updates.len()
    &&& updates[i].key matches AccessKey::Quota { pubkey } && pubkey@ == caller
}

/// A request that pays an amount is debited that amount, once, on the quota of
/// its client, where the client may call the method and has a quota.
pub proof fn payments_count_against_the_quota<'a, R>(
    request: Request,
    caller: &str,
    profile: &'a UsageProfile<R>,
    known: KnownLimiters,
    plan: AccessPlan<'a, R>,
    quota: R,
    msat: int,
)
    requires
        call_ensures(plan_access::<R>, (&request, caller, Some(profile), known), plan),
        may_call(*profile, request.method@),
        profile.quota == Some(quota),
        known.quota,
        known.access_rate,
        pays(request.params, msat),
        0 < msat <= u64::MAX,
    ensures
        plan matches AccessPlan::Limited(updates) && exists|i: int| #[trigger]
            is_quota(updates@, caller@, i) && updates@[i].amount == msat && *updates@[i].rule
                == quota && updates@[i].context == AccessErrorContext::Quota && forall|j: int|
                0 <= j < updates@.len() && j != i ==> !((#[trigger] updates@[j]).key is Quota),
{
    lemma_may_call(*profile, request.method@);
    if let AccessPlan::Limited(updates) = plan {
        let all = views(updates@);
        assert(all.len() == updates@.len());
        let last = all.len() - 1;
        assert forall|i: int| 0 <= i < all.len() implies #[trigger] updates@[i]@ == all[i] by {}
        assert(updates@[last]@ == all[last]);
        assert(is_quota(updates@, caller@, last));
        assert forall|j: int| 0 <= j < updates@.len() && j != last implies !((
        #[trigger] updates@[j]).key is Quota) by {
            assert(updates@[j]@ == all[j]);
        }
    }
}

/// An on-chain payment of more satoshis than fit into 64 bits in millisatoshis is
/// debited the largest amount that fits.
pub proof fn large_onchain_payments_count_in_full(request: Request, spend: Spend)
    requires
        call_ensures(request_spend_msat, (&request,), spend),
    ensures
        request.params matches RequestParams::PayOnchain(p) ==> (p.amount * 1000 > u64::MAX
            ==> spend == Spend::Msat(u64::MAX)),
{
}

/// What a request spends is exactly what it pays; one that names an amount too
/// large for 64 bits is told apart; any other spends nothing that is known.
pub proof fn spending_is_what_is_paid(request: Request, spend: Spend)
    requires
        call_ensures(request_spend_msat, (&request,), spend),
        !(request.params is PayOnchain),
    ensures
        spend matches Spend::Msat(n) ==> pays(request.params, n as int),
        forall|n: u64| #[trigger] pays(request.params, n as int) ==> spend == Spend::Msat(n),
        spend is Overflow <==> exists|m: int| #[trigger]
            pays(request.params, m) && m > u64::MAX,
{
    if let Spend::Msat(n) = spend {
        assert(pays(request.params, n as int));
    }
    if spend is Overflow {
        if let RequestParams::PayBip321(p) = request.params {
            let m = uri_reading(p.uri@)->Ok_0.amount_sat->0 * 1000;
            assert(pays(request.params, m));
        }
    }
}

/// A request that pays nothing, or whose client has no quota, is debited no
/// money.
pub proof fn other_requests_leave_the_quota_alone<'a, R>(
    request: Request,
    caller: &str,
    profile: Option<&'a UsageProfile<R>>,
    known: KnownLimiters,
    plan: AccessPlan<'a, R>,
    i: int,
)
    requires
        call_ensures(plan_access::<R>, (&request, caller, profile, known), plan),
        !(request.params is PayInvoice || request.params is PayOffer || request.params is PayKeysend
            || request.params is PayOnchain || request.params is PayBip321) || (profile matches Some(
            p,
        ) && p.quota is None),
    ensures
        plan matches AccessPlan::Limited(updates) ==> (0 <= i < updates@.len() ==> !(
        updates@[i].key is Quota)),
{
    if let AccessPlan::Limited(updates) = plan {
        assert(views(updates@).len() == updates@.len());
        if 0 <= i < updates@.len() {
            assert(views(updates@)[i] == updates@[i]@);
        }
    }
}

/// A call of a method that has an access rate of its own, or else under the rule
/// for all methods, is debited once, as one call, on the limiter of the client
/// and the method; and a call of a method without an access rate is not.
pub proof fn calls_count_against_the_access_rate<'a, R>(
    request: Request,
    caller: &str,
    profile: &'a UsageProfile<R>,
    known: KnownLimiters,
    updates: Vec<StateUpdateRequest<'a, R>>,
    rules: Vec<(Method, MethodAccessRule<R>)>,
    i: int,
)
    requires
        call_ensures(
            plan_access::<R>,
            (&request, caller, Some(profile), known),
            AccessPlan::Limited(updates),
        ),
        profile.methods == Some(rules),
        is_rule_for(rules@, request.method@, i) || (!lists(rules@, request.method@) && is_rule_for(
            rules@,
            Method::Unknown("ALL"@),
            i,
        )),
    ensures
        rules@[i].1.access_rate matches Some(rate) ==> {
            &&& updates@.len() >= 1
            &&& updates@[0].key matches AccessKey::Method { pubkey, method } && pubkey@ == caller@
                && method@ == request.method@
            &&& updates@[0].amount == 1_000_000
            &&& *updates@[0].rule == rate
            &&& updates@[0].context == AccessErrorContext::AccessRate
            &&& forall|j: int| 0 < j < updates@.len() ==> !((#[trigger] updates@[j]).key is Method)
        },
        rules@[i].1.access_rate is None ==> forall|j: int|
            0 <= j < updates@.len() ==> !((#[trigger] updates@[j]).key is Method),
{
    let all = views(updates@);
    assert(all.len() == updates@.len());
    assert forall|k: int| 0 <= k < all.len() implies #[trigger] updates@[k]@ == all[k] by {}
    lemma_lists(rules@, request.method@);
    if is_rule_for(rules@, request.method@, i) {
        lemma_rule_at(rules@, request.method@, i);
    } else {
        lemma_rule_at(rules@, Method::Unknown("ALL"@), i);
    }
    if all.len() > 0 {
        assert(updates@[0]@ == all[0]);
    }
    assert forall|j: int| 0 < j < updates@.len() implies !((#[trigger] updates@[j]).key is Method) by {
        assert(updates@[j]@ == all[j]);
    }
    assert forall|j: int|
        0 <= j < updates@.len() && rules@[i].1.access_rate is None implies !((
    #[trigger] updates@[j]).key is Method) by {
        assert(updates@[j]@ == all[j]);
    }
}

/// A client without a profile is told that it is not authorized; one whose
/// profile does not let it call the method, that it is restricted. Each is told
/// under the method that it called, without a result.
pub proof fn clients_without_permission_are_denied<'a, R>(
    request: Request,
    caller: &str,
    profile: Option<&'a UsageProfile<R>>,
    known: KnownLimiters,
    plan: AccessPlan<'a, R>,
)
    requires
        call_ensures(plan_access::<R>, (&request, caller, profile, known), plan),
    ensures
        profile is None ==> (plan matches AccessPlan::Denied(r) && denies(
            r,
            request.method,
            ErrorCode::Unauthorized,
        )),
        profile matches Some(p) ==> (!may_call(*p, request.method@) ==> (plan matches AccessPlan::Denied(
            r,
        ) && denies(r, request.method, ErrorCode::Restricted))),
        profile matches Some(p) ==> (may_call(*p, request.method@) && known.access_rate
            && known.quota ==> !(plan is Denied)),
{
    if let Some(p) = profile {
        lemma_may_call(*p, request.method@);
    }
}

/// An answer tells an error with the given code, under the given method, and no
/// result.
pub open spec fn denies(r: Response, method: Method, code: ErrorCode) -> bool {
    r.result_type@ == method@ && r.result is None && (r.error matches Some(e) && e.code == code)
}

/// A limit that has no limiter keeps a request from being carried out.
pub proof fn missing_limiters_deny<'a, R>(
    request: Request,
    caller: &str,
    profile: &'a UsageProfile<R>,
    known: KnownLimiters,
    plan: AccessPlan<'a, R>,
    msat: int,
)
    requires
        call_ensures(plan_access::<R>, (&request, caller, Some(profile), known), plan),
        may_call(*profile, request.method@),
        known.access_rate,
        !known.quota,
        profile.quota is Some,
        pays(request.params, msat),
        0 < msat <= u64::MAX,
    ensures
        plan matches AccessPlan::Denied(r) && denies(r, request.method, ErrorCode::Other),
{
    lemma_may_call(*profile, request.method@);
}

/// The error that a limiter's refusal comes to tells what ran out: the access
/// rate or the quota.
pub proof fn refusals_tell_what_ran_out(
    error: RateStateError,
    context: AccessErrorContext,
    told: NIP47Error,
)
    requires
        call_ensures(map_rate_state_error, (&error, context), told),
    ensures
        told.code == ErrorCode::RateLimited <==> error == RateStateError::InsufficientBalance
            && context == AccessErrorContext::AccessRate,
        told.code == ErrorCode::QuotaExceeded <==> error == RateStateError::InsufficientBalance
            && context == AccessErrorContext::Quota,
        error != RateStateError::InsufficientBalance ==> told.code == ErrorCode::Other,
{
}

/// The answer to a request that a limiter refused tells the refusal of that
/// limiter; one to a request whose limiter broke down has no code of its own.
pub proof fn denials_tell_the_refusal<R>(
    run: AccessRun,
    method: Method,
    updates: Vec<StateUpdateRequest<R>>,
    out: Option<Response>,
)
    requires
        call_ensures(denial_of_run::<R>, (run, &method, &updates), out),
    ensures
        run matches AccessRun::Refused { place, error } ==> (place < updates@.len() ==> (
        out matches Some(r) && {
            let limited = error == RateStateError::InsufficientBalance;
            let context = updates@[place as int].context;
            &&& limited && context == AccessErrorContext::AccessRate ==> denies(
                r,
                method,
                ErrorCode::RateLimited,
            )
            &&& limited && context == AccessErrorContext::Quota ==> denies(
                r,
                method,
                ErrorCode::QuotaExceeded,
            )
            &&& !limited ==> denies(r, method, ErrorCode::Other)
        })),
        run matches AccessRun::Broken { place } ==> (place < updates@.len() ==> (out matches Some(r)
            && denies(r, method, ErrorCode::Other))),
        run is Granted || run is Do ==> out is None,
{
    assert(views(updates@).len() == updates@.len());
    match run {
        AccessRun::Refused { place, error } => {
            if place < updates@.len() {
                assert(views(updates@)[place as int] == updates@[place as int]@);
            }
        },
        AccessRun::Broken { place } => {
            if place < updates@.len() {
                assert(views(updates@)[place as int] == updates@[place as int]@);
            }
        },
        _ => {},
    }
}

/// Where a run of `n` limiters stands after `k` good answers.
spec fn stands_at(n: nat, k: nat) -> AccessRun {
    if k < n {
        AccessRun::Do { action: LimiterAction::Lock, place: k as usize }
    } else if k < 2 * n {
        AccessRun::Do { action: LimiterAction::Check, place: (k - n) as usize }
    } else if k < 3 * n {
        AccessRun::Do { action: LimiterAction::Debit, place: (k - 2 * n) as usize }
    } else {
        AccessRun::Granted
    }
}

proof fn lemma_good_answers(n: nat, replies: Seq<LimiterReply>)
    requires
        n <= usize::MAX,
        all_consent(replies, replies.len() as int),
        replies.len() <= 3 * n,
    ensures
        run_after(n, replies) == stands_at(n, replies.len()),
    decreases replies.len(),
{
    if replies.len() > 0 {
        let before = replies.drop_last();
        assert(all_consent(before, before.len() as int)) by {
            assert forall|i: int| 0 <= i < before.len() implies #[trigger] before[i]
                == LimiterReply::Consent by {
                assert(replies[i] == LimiterReply::Consent);
            }
        }
        lemma_good_answers(n, before);
        assert(replies[replies.len() - 1] == LimiterReply::Consent);
    }
}

/// All limiters are locked in their order, then all are asked in the same order,
/// then all are debited.
pub proof fn limiters_are_locked_then_asked_then_debited(n: nat, replies: Seq<LimiterReply>)
    requires
        n <= usize::MAX,
        all_consent(replies, replies.len() as int),
        replies.len() <= 3 * n,
    ensures
        replies.len() < n ==> run_after(n, replies) == (AccessRun::Do {
            action: LimiterAction::Lock,
            place: replies.len() as usize,
        }),
        n <= replies.len() < 2 * n ==> run_after(n, replies) == (AccessRun::Do {
            action: LimiterAction::Check,
            place: (replies.len() - n) as usize,
        }),
        2 * n <= replies.len() < 3 * n ==> run_after(n, replies) == (AccessRun::Do {
            action: LimiterAction::Debit,
            place: (replies.len() - 2 * n) as usize,
        }),
        replies.len() == 3 * n ==> run_after(n, replies) is Granted,
{
    lemma_good_answers(n, replies);
}

/// The first answer that is not good ends the run at the limiter that gave it,
/// with the error that it gave, whatever is answered after it.
pub proof fn the_first_refusal_ends_the_run(
    n: nat,
    replies: Seq<LimiterReply>,
    k: int,
    place: usize,
)
    requires
        n <= usize::MAX,
        0 <= k < replies.len(),
        k < 3 * n,
        all_consent(replies, k),
        replies[k] != LimiterReply::Consent,
        place < n,
        k == place || k == n + place || k == 2 * n + place,
    ensures
        replies[k] is Poisoned ==> run_after(n, replies) == (AccessRun::Broken { place }),
        replies[k] matches LimiterReply::Refused(error) ==> run_after(n, replies) == (
        AccessRun::Refused { place, error }),
    decreases replies.len(),
{
    let before = replies.drop_last();
    if k == replies.len() - 1 {
        assert(all_consent(before, before.len() as int)) by {
            assert forall|i: int| 0 <= i < before.len() implies #[trigger] before[i]
                == LimiterReply::Consent by {
                assert(replies[i] == LimiterReply::Consent);
            }
        }
        lemma_good_answers(n, before);
    } else {
        assert(before[k] == replies[k]);
        assert forall|i: int| 0 <= i < k implies #[trigger] before[i] == LimiterReply::Consent by {
            assert(replies[i] == LimiterReply::Consent);
        }
        the_first_refusal_ends_the_run(n, before, k, place);
    }
}

/// A refund fails exactly if its limiter did not consent.
pub proof fn refunds_fail_without_consent(
    reply: LimiterReply,
    context: AccessErrorContext,
    told: Option<String>,
)
    requires
        call_ensures(refund_failure, (reply, context), told),
    ensures
        told is None <==> reply == LimiterReply::Consent,
{
}

/// Limiters of methods are locked before those of money.
pub proof fn methods_are_locked_before_money(a: AccessKey, b: AccessKey, order: TextOrder)
    requires
        call_ensures(compare_access_keys, (&a, &b), order),
        a is Method,
        b is Quota,
    ensures
        order == TextOrder::Less,
{
}

} // verus!
