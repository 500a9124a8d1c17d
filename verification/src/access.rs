//! Who may ask the wallet for what, how often, and for how much.

use vstd::prelude::*;

#[allow(unused_imports)]
use crate::lightning::parse::uri_reading;
use crate::lightning::parse::{read_uri, PaymentUri};
#[allow(unused_imports)]
use crate::lightning::parse::UriView;
use crate::nip47::{
    failed, same_method, wallet_error, ErrorCode, Method, NIP47Error, Request, RequestParams,
    Response,
};
#[allow(unused_imports)]
use crate::nip47::{failure, method_name, ResponseView};
use crate::text::{compare_text, copy_text, TextOrder};
#[allow(unused_imports)]
use crate::text::{
    opt_text, text_less, text_order, text_order_is_total, text_order_is_transitive,
};
#[allow(unused_imports)]
use crate::views::{lemma_views_push, option_view, views};

verus! {

/// Which of a caller's limits a request ran into.
#[derive(Debug, Clone, Copy, PartialEq, Eq, Structural)]
pub enum AccessErrorContext {
    AccessRate,
    Quota,
}

/// Why a limiter does not let a request through.
#[derive(Debug, Clone, Copy, PartialEq, Eq, Structural)]
pub enum RateStateError {
    InsufficientBalance,
    AmountTooLarge,
    InvalidRule,
    InternalInvariantViolation,
}

/// How often a method may be called: `R` is the rule of the limiter.
#[derive(Debug)]
pub struct MethodAccessRule<R> {
    pub access_rate: Option<R>,
}

/// What a client may do. Without a list of methods it may call all of them;
/// without a list of control methods it may call none.
#[derive(Debug)]
pub struct UsageProfile<R> {
    pub quota: Option<R>,
    pub methods: Option<Vec<(Method, MethodAccessRule<R>)>>,
    pub control: Option<Vec<(String, MethodAccessRule<R>)>>,
}

/// What a limiter counts: the calls of a method or the money spent.
#[allow(inconsistent_fields)]
#[derive(Debug)]
pub enum AccessKey<S = String> {
    Method { pubkey: S, method: Method<S> },
    Quota { pubkey: S },
}

impl View for AccessKey {
    type V = AccessKey<Seq<char>>;

    open spec fn view(&self) -> AccessKey<Seq<char>> {
        match *self {
            AccessKey::Method { pubkey, method } => AccessKey::Method {
                pubkey: pubkey@,
                method: method@,
            },
            AccessKey::Quota { pubkey } => AccessKey::Quota { pubkey: pubkey@ },
        }
    }
}

/// The order in which limiters are locked: those of methods, by client and
/// method name, then those of money, by client.
pub open spec fn key_order(a: AccessKey<Seq<char>>, b: AccessKey<Seq<char>>) -> TextOrder {
    match (a, b) {
        (
            AccessKey::Method { pubkey: ap, method: am },
            AccessKey::Method { pubkey: bp, method: bm },
        ) => if ap == bp {
            text_order(method_name(am), method_name(bm))
        } else {
            text_order(ap, bp)
        },
        (AccessKey::Method { .. }, AccessKey::Quota { .. }) => TextOrder::Less,
        (AccessKey::Quota { .. }, AccessKey::Method { .. }) => TextOrder::Greater,
        (AccessKey::Quota { pubkey: ap }, AccessKey::Quota { pubkey: bp }) => text_order(ap, bp),
    }
}

/// Compares two limiters by the order in which they are locked.
pub fn compare_access_keys(a: &AccessKey, b: &AccessKey) -> (out: TextOrder)
    ensures
        out == key_order(a@, b@),
{
    match (a, b) {
        (
            AccessKey::Method { pubkey: ap, method: am },
            AccessKey::Method { pubkey: bp, method: bm },
        ) => match compare_text(ap.as_str(), bp.as_str()) {
            TextOrder::Equal => compare_text(am.as_str(), bm.as_str()),
            other => other,
        },
        (AccessKey::Method { .. }, AccessKey::Quota { .. }) => TextOrder::Less,
        (AccessKey::Quota { .. }, AccessKey::Method { .. }) => TextOrder::Greater,
        (AccessKey::Quota { pubkey: ap }, AccessKey::Quota { pubkey: bp }) => compare_text(
            ap.as_str(),
            bp.as_str(),
        ),
    }
}

/// The order of limiters is total: of two, one comes first, unless they count
/// for the same client the same method name or the money; and what comes first
/// does so before all that the other precedes.
pub proof fn key_order_is_total(
    a: AccessKey<Seq<char>>,
    b: AccessKey<Seq<char>>,
    c: AccessKey<Seq<char>>,
)
    ensures
        key_order(a, a) == TextOrder::Equal,
        key_order(a, b) == TextOrder::Less <==> key_order(b, a) == TextOrder::Greater,
        key_order(a, b) == TextOrder::Equal <==> key_order(b, a) == TextOrder::Equal,
        key_order(a, b) == TextOrder::Less && key_order(b, c) == TextOrder::Less ==> key_order(a, c)
            == TextOrder::Less,
{
    let text = |k: AccessKey<Seq<char>>|
        match k {
            AccessKey::Method { pubkey, .. } => pubkey,
            AccessKey::Quota { pubkey } => pubkey,
        };
    let name = |k: AccessKey<Seq<char>>|
        match k {
            AccessKey::Method { method, .. } => method_name(method),
            AccessKey::Quota { .. } => Seq::empty(),
        };
    text_order_is_total(text(a), text(b));
    text_order_is_total(text(b), text(a));
    text_order_is_total(text(a), text(c));
    text_order_is_total(name(a), name(b));
    text_order_is_total(name(b), name(a));
    text_order_is_total(name(a), name(c));
    text_order_is_total(text(a), text(a));
    text_order_is_total(name(a), name(a));
    if text_less(text(a), text(b)) && text_less(text(b), text(c)) {
        text_order_is_transitive(text(a), text(b), text(c));
    }
    if text_less(name(a), name(b)) && text_less(name(b), name(c)) {
        text_order_is_transitive(name(a), name(b), name(c));
    }
}

/// The error that a limiter's refusal comes to.
pub open spec fn rate_error(e: RateStateError, context: AccessErrorContext) -> NIP47Error<
    Seq<char>,
> {
    match e {
        RateStateError::InsufficientBalance => match context {
            AccessErrorContext::AccessRate => NIP47Error {
                code: ErrorCode::RateLimited,
                message: "rate limit exceeded"@,
            },
            AccessErrorContext::Quota => NIP47Error {
                code: ErrorCode::QuotaExceeded,
                message: "quota exceeded"@,
            },
        },
        RateStateError::AmountTooLarge => NIP47Error {
            code: ErrorCode::Other,
            message: "invalid amount: exceeds i64::MAX"@,
        },
        RateStateError::InvalidRule => NIP47Error {
            code: ErrorCode::Other,
            message: "invalid rate limit rule"@,
        },
        RateStateError::InternalInvariantViolation => NIP47Error {
            code: ErrorCode::Other,
            message: "internal rate state error"@,
        },
    }
}

/// The error that a limiter's refusal comes to.
pub fn map_rate_state_error(error: &RateStateError, context: AccessErrorContext) -> (out:
    NIP47Error)
    ensures
        out@ == rate_error(*error, context),
{
    match error {
        RateStateError::InsufficientBalance => match context {
            AccessErrorContext::AccessRate => wallet_error(
                ErrorCode::RateLimited,
                "rate limit exceeded",
            ),
            AccessErrorContext::Quota => wallet_error(ErrorCode::QuotaExceeded, "quota exceeded"),
        },
        RateStateError::AmountTooLarge => wallet_error(
            ErrorCode::Other,
            "invalid amount: exceeds i64::MAX",
        ),
        RateStateError::InvalidRule => wallet_error(ErrorCode::Other, "invalid rate limit rule"),
        RateStateError::InternalInvariantViolation => wallet_error(
            ErrorCode::Other,
            "internal rate state error",
        ),
    }
}

/// The error for a client that may not call the method.
pub open spec fn access_denied() -> NIP47Error<Seq<char>> {
    NIP47Error { code: ErrorCode::Restricted, message: "access denied, insufficient permission"@ }
}

/// The error for a client that has no profile.
pub open spec fn unauthorized() -> NIP47Error<Seq<char>> {
    NIP47Error { code: ErrorCode::Unauthorized, message: "unauthorized"@ }
}

/// The error for a limit that has no limiter.
pub open spec fn missing_state(context: AccessErrorContext) -> NIP47Error<Seq<char>> {
    NIP47Error {
        code: ErrorCode::Other,
        message: match context {
            AccessErrorContext::AccessRate => "missing access rate state"@,
            AccessErrorContext::Quota => "missing quota state"@,
        },
    }
}

/// The error for a limiter that broke down.
pub open spec fn poisoned_state(context: AccessErrorContext) -> NIP47Error<Seq<char>> {
    NIP47Error {
        code: ErrorCode::Other,
        message: match context {
            AccessErrorContext::AccessRate => "access rate state lock poisoned"@,
            AccessErrorContext::Quota => "quota state lock poisoned"@,
        },
    }
}

fn access_denied_response(method: &Method) -> (out: Response)
    ensures
        out@ == failure(method@, access_denied()),
{
    failed(
        method,
        wallet_error(ErrorCode::Restricted, "access denied, insufficient permission"),
    )
}

fn unauthorized_response(method: &Method) -> (out: Response)
    ensures
        out@ == failure(method@, unauthorized()),
{
    failed(method, wallet_error(ErrorCode::Unauthorized, "unauthorized"))
}

fn rate_state_error_response(
    method: &Method,
    error: &RateStateError,
    context: AccessErrorContext,
) -> (out: Response)
    ensures
        out@ == failure(method@, rate_error(*error, context)),
{
    failed(method, map_rate_state_error(error, context))
}

fn missing_state_response(method: &Method, context: AccessErrorContext) -> (out: Response)
    ensures
        out@ == failure(method@, missing_state(context)),
{
    let message: &str = match context {
        AccessErrorContext::AccessRate => "missing access rate state",
        AccessErrorContext::Quota => "missing quota state",
    };
    failed(method, wallet_error(ErrorCode::Other, message))
}

fn poisoned_state_response(method: &Method, context: AccessErrorContext) -> (out: Response)
    ensures
        out@ == failure(method@, poisoned_state(context)),
{
    let message: &str = match context {
        AccessErrorContext::AccessRate => "access rate state lock poisoned",
        AccessErrorContext::Quota => "quota state lock poisoned",
    };
    failed(method, wallet_error(ErrorCode::Other, message))
}

/// What a request spends, in millisatoshis, as far as it says so.
#[derive(Debug, Clone, Copy, PartialEq, Eq, Structural)]
pub enum Spend {
    /// The request names no amount.
    Unknown,
    Msat(u64),
    /// The request names an amount that does not fit into 64 bits.
    Overflow,
}

/// An amount, if there is one.
pub open spec fn spend_if_any(amount: Option<u64>) -> Spend {
    match amount {
        Some(n) => Spend::Msat(n),
        None => Spend::Unknown,
    }
}

/// What a payment URI spends.
pub open spec fn uri_spend(uri: Result<UriView, Seq<char>>) -> Spend {
    match uri {
        Ok(uri) => match uri.amount_sat {
            Some(sat) => if sat * 1000 <= u64::MAX {
                Spend::Msat((sat * 1000) as u64)
            } else {
                Spend::Overflow
            },
            None => Spend::Unknown,
        },
        Err(_) => Spend::Unknown,
    }
}

/// What a request spends.
pub open spec fn spend_of(params: RequestParams) -> Spend {
    match params {
        RequestParams::PayInvoice(p) => spend_if_any(p.amount),
        RequestParams::PayKeysend(p) => Spend::Msat(p.amount),
        RequestParams::PayOnchain(p) => Spend::Msat(
            if p.amount * 1000 <= u64::MAX {
                (p.amount * 1000) as u64
            } else {
                u64::MAX
            },
        ),
        RequestParams::PayOffer(p) => spend_if_any(p.amount),
        RequestParams::PayBip321(p) => uri_spend(uri_reading(p.uri@)),
        _ => Spend::Unknown,
    }
}

fn amount_spend(amount: Option<u64>) -> (out: Spend)
    ensures
        out == spend_if_any(amount),
{
    match amount {
        Some(n) => Spend::Msat(n),
        None => Spend::Unknown,
    }
}

/// What a payment URI that was read spends.
pub fn payment_uri_spend(uri: &Result<PaymentUri, String>) -> (out: Spend)
    ensures
        out == uri_spend(
            match *uri {
                Ok(u) => Ok(u@),
                Err(m) => Err(m@),
            },
        ),
{
    match uri {
        Ok(u) => match u.amount_sat {
            Some(sat) => match sat.checked_mul(1000) {
                Some(msat) => Spend::Msat(msat),
                None => Spend::Overflow,
            },
            None => Spend::Unknown,
        },
        Err(_) => Spend::Unknown,
    }
}

/// What a request spends.
pub fn request_spend_msat(request: &Request) -> (out: Spend)
    ensures
        out == spend_of(request.params),
{
    match &request.params {
        RequestParams::PayInvoice(p) => amount_spend(p.amount),
        RequestParams::PayKeysend(p) => Spend::Msat(p.amount),
        RequestParams::PayOnchain(p) => Spend::Msat(
            match p.amount.checked_mul(1000) {
                Some(msat) => msat,
                None => u64::MAX,
            },
        ),
        RequestParams::PayOffer(p) => amount_spend(p.amount),
        RequestParams::PayBip321(p) => payment_uri_spend(&read_uri(p.uri.as_str())),
        _ => Spend::Unknown,
    }
}

/// The rule that a list holds for a method: the first one.
pub open spec fn listed_rule<R>(
    rules: Seq<(Method, MethodAccessRule<R>)>,
    method: Method<Seq<char>>,
) -> Option<MethodAccessRule<R>>
    decreases rules.len(),
{
    if rules.len() == 0 {
        None
    } else if rules[0].0@ == method {
        Some(rules[0].1)
    } else {
        listed_rule(rules.skip(1), method)
    }
}

/// The special key that stands for all methods.
pub open spec fn all_methods() -> Method<Seq<char>> {
    Method::Unknown("ALL"@)
}

/// Finds the rule for a method.
pub fn find_rule<'a, R>(rules: &'a Vec<(Method, MethodAccessRule<R>)>, method: &Method) -> (out:
    Option<&'a MethodAccessRule<R>>)
    ensures
        match out {
            Some(r) => listed_rule(rules@, method@) == Some(*r),
            None => listed_rule(rules@, method@) is None,
        },
{
    let mut i: usize = 0;
    assert(rules@.skip(0) =~= rules@);
    while i < rules.len()
        invariant
            i <= rules.len(),
            listed_rule(rules@, method@) == listed_rule(rules@.skip(i as int), method@),
        decreases rules.len() - i,
    {
        assert(rules@.skip(i as int)[0] == rules@[i as int]);
        assert(rules@.skip(i as int).skip(1) =~= rules@.skip(i + 1));
        if same_method(&rules[i].0, method) {
            return Some(&rules[i].1);
        }
        i += 1;
    }
    None
}

/// The rule for a method: its own, or else the one for all methods. `None` if
/// there is neither.
pub open spec fn rule_for<R>(
    rules: Seq<(Method, MethodAccessRule<R>)>,
    method: Method<Seq<char>>,
) -> Option<MethodAccessRule<R>> {
    match listed_rule(rules, method) {
        Some(r) => Some(r),
        None => listed_rule(rules, all_methods()),
    }
}

/// A debit that a request asks of a limiter.
#[derive(Debug)]
pub struct StateUpdateRequest<'a, R, K = AccessKey> {
    pub key: K,
    pub rule: &'a R,
    pub amount: u64,
    pub context: AccessErrorContext,
}

impl<'a, R> View for StateUpdateRequest<'a, R> {
    type V = StateUpdateRequest<'a, R, AccessKey<Seq<char>>>;

    open spec fn view(&self) -> StateUpdateRequest<'a, R, AccessKey<Seq<char>>> {
        StateUpdateRequest {
            key: self.key@,
            rule: self.rule,
            amount: self.amount,
            context: self.context,
        }
    }
}

/// What a call counts for, in millionths.
pub const ACCESS_AMOUNT: u64 = 1_000_000;

/// The debits of a request over sequences.
pub type UpdateView<'a, R> = StateUpdateRequest<'a, R, AccessKey<Seq<char>>>;

/// What a request has to pass before it is carried out.
#[derive(Debug)]
pub enum AccessPlan<'a, R> {
    /// The client may not make the request.
    Denied(Response),
    /// The debits that the client's limiters have to grant.
    Limited(Vec<StateUpdateRequest<'a, R>>),
    /// The request names an amount that does not fit into 64 bits.
    Overflow,
}

/// An [`AccessPlan`] over sequences.
pub enum PlanView<'a, R> {
    Denied(ResponseView),
    Limited(Seq<UpdateView<'a, R>>),
    Overflow,
}

impl<'a, R> View for AccessPlan<'a, R> {
    type V = PlanView<'a, R>;

    open spec fn view(&self) -> PlanView<'a, R> {
        match *self {
            AccessPlan::Denied(r) => PlanView::Denied(r@),
            AccessPlan::Limited(updates) => PlanView::Limited(views(updates@)),
            AccessPlan::Overflow => PlanView::Overflow,
        }
    }
}

/// Which limiters a client has for a request.
#[derive(Debug, Clone, Copy)]
pub struct KnownLimiters {
    pub access_rate: bool,
    pub quota: bool,
}

/// The rule that a client's profile sets for a method. `Err` if it may not call
/// the method.
pub open spec fn method_rule<R>(profile: UsageProfile<R>, method: Method<Seq<char>>) -> Result<
    Option<MethodAccessRule<R>>,
    NIP47Error<Seq<char>>,
> {
    match profile.methods {
        None => Ok(None),
        Some(rules) => match rule_for(rules@, method) {
            Some(r) => Ok(Some(r)),
            None => Err(access_denied()),
        },
    }
}

/// A profile that lists all methods lets every method through.
pub proof fn all_lets_every_method_through<R>(
    profile: UsageProfile<R>,
    method: Method<Seq<char>>,
)
    requires
        profile.methods matches Some(rules) && listed_rule(rules@, all_methods()) is Some,
    ensures
        method_rule(profile, method) is Ok,
{
}

/// The debit for calling a method.
pub open spec fn rate_update<'a, R>(
    caller: Seq<char>,
    method: Method<Seq<char>>,
    rule: R,
) -> UpdateView<'a, R> {
    StateUpdateRequest {
        key: AccessKey::Method { pubkey: caller, method },
        rule: &rule,
        amount: ACCESS_AMOUNT,
        context: AccessErrorContext::AccessRate,
    }
}

/// The debit for spending money.
pub open spec fn quota_update<'a, R>(caller: Seq<char>, rule: R, amount: u64) -> UpdateView<
    'a,
    R,
> {
    StateUpdateRequest {
        key: AccessKey::Quota { pubkey: caller },
        rule: &rule,
        amount,
        context: AccessErrorContext::Quota,
    }
}

/// What a request has to pass. It needs a profile that lets the client call the
/// method. Where the method has an access rate, the call is debited; where the
/// client has a quota and the request spends money, the money is.
pub open spec fn plan_of<'a, R>(
    method: Method<Seq<char>>,
    caller: Seq<char>,
    profile: Option<UsageProfile<R>>,
    spend: Spend,
    known: KnownLimiters,
) -> PlanView<'a, R> {
    match profile {
        None => PlanView::Denied(failure(method, unauthorized())),
        Some(profile) => match method_rule(profile, method) {
            Err(e) => PlanView::Denied(failure(method, e)),
            Ok(rule) => {
                let rate = match rule {
                    Some(r) => r.access_rate,
                    None => None,
                };
                if rate is Some && !known.access_rate {
                    PlanView::Denied(
                        failure(method, missing_state(AccessErrorContext::AccessRate)),
                    )
                } else {
                    let calls: Seq<UpdateView<'a, R>> = match rate {
                        Some(r) => seq![rate_update(caller, method, r)],
                        None => Seq::empty(),
                    };
                    match spend {
                        Spend::Overflow => PlanView::Overflow,
                        Spend::Unknown => PlanView::Limited(calls),
                        Spend::Msat(amount) => match profile.quota {
                            Some(r) if amount > 0 => if known.quota {
                                PlanView::Limited(calls.push(quota_update(caller, r, amount)))
                            } else {
                                PlanView::Denied(
                                    failure(method, missing_state(AccessErrorContext::Quota)),
                                )
                            },
                            _ => PlanView::Limited(calls),
                        },
                    }
                }
            },
        },
    }
}

/// Decides what a request has to pass.
pub fn plan_access<'a, R>(
    request: &Request,
    caller_pubkey: &str,
    profile: Option<&'a UsageProfile<R>>,
    known: KnownLimiters,
) -> (out: AccessPlan<'a, R>)
    ensures
        out@ == plan_of::<R>(
            request.method@,
            caller_pubkey@,
            match profile {
                Some(p) => Some(*p),
                None => None,
            },
            spend_of(request.params),
            known,
        ),
{
    let profile: &UsageProfile<R> = match profile {
        Some(p) => p,
        None => {
            return AccessPlan::Denied(unauthorized_response(&request.method));
        },
    };
    let rule: Option<&MethodAccessRule<R>> = match &profile.methods {
        None => None,
        Some(rules) => match find_rule(rules, &request.method) {
            Some(r) => Some(r),
            None => match find_rule(rules, &Method::Unknown(copy_text("ALL"))) {
                Some(r) => Some(r),
                None => {
                    return AccessPlan::Denied(access_denied_response(&request.method));
                },
            },
        },
    };
    let mut updates: Vec<StateUpdateRequest<'a, R>> = Vec::new();
    assert(views(updates@) =~= Seq::empty());
    if let Some(rule) = rule {
        if let Some(rate) = &rule.access_rate {
            if !known.access_rate {
                return AccessPlan::Denied(
                    missing_state_response(&request.method, AccessErrorContext::AccessRate),
                );
            }
            let update: StateUpdateRequest<'a, R> = StateUpdateRequest {
                key: AccessKey::Method {
                    pubkey: copy_text(caller_pubkey),
                    method: request.method.copy(),
                },
                rule: rate,
                amount: ACCESS_AMOUNT,
                context: AccessErrorContext::AccessRate,
            };
            updates.push(update);
            assert(views(updates@) =~= seq![rate_update::<R>(
                caller_pubkey@,
                request.method@,
                *rate,
            )]);
        }
    }
    let amount_msat: u64 = match request_spend_msat(request) {
        Spend::Unknown => 0,
        Spend::Msat(n) => n,
        Spend::Overflow => {
            return AccessPlan::Overflow;
        },
    };
    if amount_msat > 0 {
        if let Some(quota) = &profile.quota {
            if !known.quota {
                return AccessPlan::Denied(
                    missing_state_response(&request.method, AccessErrorContext::Quota),
                );
            }
            let update: StateUpdateRequest<'a, R> = StateUpdateRequest {
                key: AccessKey::Quota { pubkey: copy_text(caller_pubkey) },
                rule: quota,
                amount: amount_msat,
                context: AccessErrorContext::Quota,
            };
            proof {
                lemma_views_push(updates@, update);
            }
            updates.push(update);
        }
    }
    AccessPlan::Limited(updates)
}

/// The limiters come in the order in which they are locked.
pub open spec fn in_lock_order<R>(updates: Seq<UpdateView<R>>) -> bool {
    forall|i: int, j: int|
        #![trigger updates[i], updates[j]]
        0 <= i < j < updates.len() ==> key_order(updates[i].key, updates[j].key) == TextOrder::Less
}

/// The debits of a request come in the order in which their limiters are
/// locked, so that two requests never wait for each other.
pub proof fn debits_come_in_lock_order<R>(
    method: Method<Seq<char>>,
    caller: Seq<char>,
    profile: Option<UsageProfile<R>>,
    spend: Spend,
    known: KnownLimiters,
)
    ensures
        plan_of::<R>(method, caller, profile, spend, known) matches PlanView::Limited(updates)
            ==> in_lock_order(updates) && updates.len() <= 2,
{
}

/// What a limiter answers.
#[derive(Debug, Clone, Copy, PartialEq, Eq, Structural)]
pub enum LimiterReply {
    Consent,
    /// The limiter broke down while it was locked.
    Poisoned,
    Refused(RateStateError),
}

/// What is to be done with a limiter.
#[derive(Debug, Clone, Copy, PartialEq, Eq, Structural)]
pub enum LimiterAction {
    Lock,
    /// Ask whether it would grant the debit.
    Check,
    Debit,
}

/// A request's way past its limiters: all are locked, then all are asked, and
/// only if all consent are they debited. Whatever the outcome, all locks are
/// released at the end.
#[derive(Debug, Clone, Copy, PartialEq, Eq, Structural)]
pub enum AccessRun {
    /// The action is to be done with the limiter of the debit at the place.
    Do { action: LimiterAction, place: usize },
    /// All debits are done.
    Granted,
    /// A limiter broke down.
    Broken { place: usize },
    /// A limiter refused.
    Refused { place: usize, error: RateStateError },
}

/// The start of the way past `n` limiters.
pub open spec fn run_start(n: nat) -> AccessRun {
    if n == 0 {
        AccessRun::Granted
    } else {
        AccessRun::Do { action: LimiterAction::Lock, place: 0 }
    }
}

/// Where the way goes on after an answer.
pub open spec fn run_next(run: AccessRun, n: nat, reply: LimiterReply) -> AccessRun {
    match run {
        AccessRun::Do { action, place } => match reply {
            LimiterReply::Consent => if place + 1 < n {
                AccessRun::Do { action, place: (place + 1) as usize }
            } else {
                match action {
                    LimiterAction::Lock => AccessRun::Do { action: LimiterAction::Check, place: 0 },
                    LimiterAction::Check => AccessRun::Do {
                        action: LimiterAction::Debit,
                        place: 0,
                    },
                    LimiterAction::Debit => AccessRun::Granted,
                }
            },
            LimiterReply::Poisoned => AccessRun::Broken { place },
            LimiterReply::Refused(error) => AccessRun::Refused { place, error },
        },
        _ => run,
    }
}

/// Starts the way past the limiters of `n` debits.
pub fn start_run(n: usize) -> (out: AccessRun)
    ensures
        out == run_start(n as nat),
{
    if n == 0 {
        AccessRun::Granted
    } else {
        AccessRun::Do { action: LimiterAction::Lock, place: 0 }
    }
}

/// Goes on after an answer.
pub fn continue_run(run: AccessRun, n: usize, reply: LimiterReply) -> (out: AccessRun)
    ensures
        out == run_next(run, n as nat, reply),
{
    match run {
        AccessRun::Do { action, place } => match reply {
            LimiterReply::Consent => if n > 0 && place < n - 1 {
                AccessRun::Do { action, place: place + 1 }
            } else {
                match action {
                    LimiterAction::Lock => AccessRun::Do { action: LimiterAction::Check, place: 0 },
                    LimiterAction::Check => AccessRun::Do {
                        action: LimiterAction::Debit,
                        place: 0,
                    },
                    LimiterAction::Debit => AccessRun::Granted,
                }
            },
            LimiterReply::Poisoned => AccessRun::Broken { place },
            LimiterReply::Refused(error) => AccessRun::Refused { place, error },
        },
        _ => run,
    }
}

/// The answer that a way past limiters ends in, if it does not end in a grant.
pub open spec fn run_denial<R>(
    run: AccessRun,
    method: Method<Seq<char>>,
    updates: Seq<UpdateView<R>>,
) -> Option<ResponseView> {
    match run {
        AccessRun::Broken { place } => if place < updates.len() {
            Some(failure(method, poisoned_state(updates[place as int].context)))
        } else {
            None
        },
        AccessRun::Refused { place, error } => if place < updates.len() {
            Some(failure(method, rate_error(error, updates[place as int].context)))
        } else {
            None
        },
        _ => None,
    }
}

/// The answer to a request whose limiters did not let it through.
pub fn denial_of_run<R>(
    run: AccessRun,
    method: &Method,
    updates: &Vec<StateUpdateRequest<R>>,
) -> (out: Option<Response>)
    ensures
        option_view(out) == run_denial(run, method@, views(updates@)),
{
    match run {
        AccessRun::Broken { place } => if place < updates.len() {
            Some(poisoned_state_response(method, updates[place].context))
        } else {
            None
        },
        AccessRun::Refused { place, error } => if place < updates.len() {
            Some(rate_state_error_response(method, &error, updates[place].context))
        } else {
            None
        },
        _ => None,
    }
}

/// Where a way past `n` limiters stands after the given answers.
pub open spec fn run_after(n: nat, replies: Seq<LimiterReply>) -> AccessRun
    decreases replies.len(),
{
    if replies.len() == 0 {
        run_start(n)
    } else {
        run_next(run_after(n, replies.drop_last()), n, replies.last())
    }
}

/// The number of answers before an action in an undisturbed run.
spec fn answers_before(n: nat, action: LimiterAction, place: int) -> int {
    match action {
        LimiterAction::Lock => place,
        LimiterAction::Check => n + place,
        LimiterAction::Debit => n + n + place,
    }
}

/// The first `k` answers were good.
pub open spec fn all_consent(replies: Seq<LimiterReply>, k: int) -> bool {
    forall|i: int| 0 <= i < k ==> #[trigger] replies[i] == LimiterReply::Consent
}

proof fn lemma_run(n: nat, replies: Seq<LimiterReply>)
    requires
        n <= usize::MAX,
    ensures
        run_after(n, replies) matches AccessRun::Do { action, place } ==> place < n
            && replies.len() == answers_before(n, action, place as int) && all_consent(
            replies,
            replies.len() as int,
        ),
        run_after(n, replies) is Granted ==> replies.len() >= 3 * n && all_consent(
            replies,
            (3 * n) as int,
        ),
        run_after(n, replies) matches AccessRun::Broken { place } ==> place < n,
        run_after(n, replies) matches AccessRun::Refused { place, .. } ==> place < n,
    decreases replies.len(),
{
    if replies.len() > 0 {
        let before = replies.drop_last();
        lemma_run(n, before);
        assert forall|i: int| 0 <= i < before.len() implies before[i] == replies[i] by {}
        match run_after(n, before) {
            AccessRun::Do { action, place } => {
                if replies.last() == LimiterReply::Consent {
                    assert(all_consent(replies, replies.len() as int)) by {
                        assert forall|i: int| 0 <= i < replies.len() implies #[trigger] replies[i]
                            == LimiterReply::Consent by {
                            if i < before.len() {
                                assert(before[i] == LimiterReply::Consent);
                            }
                        }
                    }
                }
            },
            AccessRun::Granted => {
                assert forall|i: int| 0 <= i < 3 * n implies #[trigger] replies[i]
                    == LimiterReply::Consent by {
                    assert(before[i] == LimiterReply::Consent);
                }
            },
            _ => {},
        }
    }
}

/// No limiter is debited before every limiter was locked and consented.
pub proof fn debits_follow_all_checks(n: nat, replies: Seq<LimiterReply>, place: usize)
    requires
        n <= usize::MAX,
        run_after(n, replies) == (AccessRun::Do { action: LimiterAction::Debit, place }),
    ensures
        place < n,
        replies.len() == 2 * n + place,
        all_consent(replies, (2 * n) as int),
{
    lemma_run(n, replies);
}

/// A request is let through only if every limiter was locked, consented and was
/// debited; and it is if all of them answered well.
pub proof fn granted_means_all_debited(n: nat, replies: Seq<LimiterReply>)
    requires
        n <= usize::MAX,
    ensures
        run_after(n, replies) is Granted <==> replies.len() >= 3 * n && all_consent(
            replies,
            (3 * n) as int,
        ),
    decreases replies.len(),
{
    lemma_run(n, replies);
    if replies.len() >= 3 * n && all_consent(replies, (3 * n) as int) {
        if replies.len() > 3 * n {
            let before = replies.drop_last();
            assert forall|i: int| 0 <= i < 3 * n implies #[trigger] before[i]
                == LimiterReply::Consent by {
                assert(replies[i] == LimiterReply::Consent);
            }
            granted_means_all_debited(n, before);
        } else if n > 0 {
            lemma_undisturbed(n, replies);
        }
    }
}

proof fn lemma_undisturbed(n: nat, replies: Seq<LimiterReply>)
    requires
        0 < n <= usize::MAX,
        replies.len() <= 3 * n,
        all_consent(replies, replies.len() as int),
    ensures
        replies.len() == 3 * n ==> run_after(n, replies) is Granted,
        replies.len() < 3 * n ==> run_after(n, replies) is Do,
    decreases replies.len(),
{
    if replies.len() > 0 {
        let before = replies.drop_last();
        assert forall|i: int| 0 <= i < before.len() implies #[trigger] before[i]
            == LimiterReply::Consent by {
            assert(replies[i] == LimiterReply::Consent);
        }
        lemma_undisturbed(n, before);
        lemma_run(n, before);
        assert(replies[replies.len() - 1] == LimiterReply::Consent);
    }
}

/// Every way past limiters that stops short of a grant, other than for an action
/// still to be done, ends in an answer that tells why.
pub proof fn denied_runs_are_answered<R>(
    method: Method<Seq<char>>,
    updates: Seq<UpdateView<R>>,
    replies: Seq<LimiterReply>,
)
    requires
        updates.len() <= usize::MAX,
    ensures
        run_after(updates.len(), replies) is Broken || run_after(updates.len(), replies) is Refused
            ==> (run_denial(run_after(updates.len(), replies), method, updates) matches Some(r)
            && r.result is None && r.error is Some && r.result_type == method),
{
    lemma_run(updates.len(), replies);
}

/// The way back through the limiters of a request that failed: every debit is
/// refunded in its turn.
#[derive(Debug, Clone, Copy, PartialEq, Eq, Structural)]
pub enum RefundRun {
    /// The debit at the place is to be refunded.
    Refund { place: usize },
    /// Nothing is left to refund.
    Over,
}

/// The start of the way back through `n` limiters.
pub open spec fn refund_start(n: nat) -> RefundRun {
    if n == 0 {
        RefundRun::Over
    } else {
        RefundRun::Refund { place: 0 }
    }
}

/// Where the way back goes on: to the next limiter, whatever became of the one
/// before.
pub open spec fn refund_next(run: RefundRun, n: nat) -> RefundRun {
    match run {
        RefundRun::Refund { place } => if place + 1 < n {
            RefundRun::Refund { place: (place + 1) as usize }
        } else {
            RefundRun::Over
        },
        RefundRun::Over => RefundRun::Over,
    }
}

/// Starts to refund `n` debits.
pub fn start_refunds(n: usize) -> (out: RefundRun)
    ensures
        out == refund_start(n as nat),
{
    if n == 0 {
        RefundRun::Over
    } else {
        RefundRun::Refund { place: 0 }
    }
}

/// Goes on with refunds.
pub fn continue_refunds(run: RefundRun, n: usize) -> (out: RefundRun)
    ensures
        out == refund_next(run, n as nat),
{
    match run {
        RefundRun::Refund { place } => if n > 0 && place < n - 1 {
            RefundRun::Refund { place: place + 1 }
        } else {
            RefundRun::Over
        },
        RefundRun::Over => RefundRun::Over,
    }
}

/// Why a refund failed, if it did.
pub open spec fn refund_error(reply: LimiterReply, context: AccessErrorContext) -> Option<
    Seq<char>,
> {
    match reply {
        LimiterReply::Consent => None,
        LimiterReply::Poisoned => Some("state lock poisoned"@),
        LimiterReply::Refused(error) => Some(rate_error(error, context).message),
    }
}

/// Why a refund failed, if it did.
pub fn refund_failure(reply: LimiterReply, context: AccessErrorContext) -> (out: Option<String>)
    ensures
        opt_text(out) == refund_error(reply, context),
{
    match reply {
        LimiterReply::Consent => None,
        LimiterReply::Poisoned => Some(copy_text("state lock poisoned")),
        LimiterReply::Refused(error) => Some(map_rate_state_error(&error, context).message),
    }
}

/// The way back after `k` refunds.
pub open spec fn refunds_after(n: nat, k: nat) -> RefundRun
    decreases k,
{
    if k == 0 {
        refund_start(n)
    } else {
        refund_next(refunds_after(n, (k - 1) as nat), n)
    }
}

/// Every debit is refunded exactly once, in the order of the debits.
pub proof fn every_debit_is_refunded(n: nat, k: nat)
    requires
        n <= usize::MAX,
    ensures
        k < n ==> refunds_after(n, k) == (RefundRun::Refund { place: k as usize }),
        k >= n ==> refunds_after(n, k) is Over,
    decreases k,
{
    if k > 0 {
        every_debit_is_refunded(n, (k - 1) as nat);
    }
}

} // verus!
