//! The way of a wallet request, once its client's limits have let it through.

use vstd::prelude::*;

#[allow(unused_imports)]
use crate::lightning::hex::pairs_aligned;
#[allow(unused_imports)]
use crate::lightning::parse::uri_reading;
use crate::nip47::{
    failed, same_method, wallet_error, ErrorCode, Method, NIP47Error, Request, RequestParams,
    Response, ResponseResult,
};
#[allow(unused_imports)]
use crate::nip47::{failure, method_name, success, ResponseView, ResultView};
use crate::state::stores::Stores;
use crate::state::subscription_store::{subscribe, unsubscribe};
#[allow(unused_imports)]
use crate::text::texts;
use crate::text::{join, same_text};
#[allow(unused_imports)]
use crate::views::views;
#[allow(unused_imports)]
use crate::wallet::execute::{begin, wallet_notifications, StepView};
use crate::wallet::execute::{begin_request, WalletContext, WalletStep};
use crate::wallet::records::answer_from_records;
#[allow(unused_imports)]
use crate::wallet::records::{answers_from_records, is_about_records};
use crate::wallet::validate::validate;
#[allow(unused_imports)]
use crate::wallet::validate::{other_error, params_error};

verus! {

/// The methods that are made to fail, to try out what follows.
pub struct ForcedFailures {
    methods: Vec<Method>,
}

impl View for ForcedFailures {
    type V = Set<Method<Seq<char>>>;

    closed spec fn view(&self) -> Set<Method<Seq<char>>> {
        views(self.methods@).to_set()
    }
}

impl ForcedFailures {
    /// No method is made to fail.
    pub fn new() -> (out: ForcedFailures)
        ensures
            out@ == Set::<Method<Seq<char>>>::empty(),
    {
        let out: ForcedFailures = ForcedFailures { methods: Vec::new() };
        assert(out@ =~= Set::empty());
        out
    }
}

/// Makes a method fail, or no longer.
pub fn set_execute_failure_for_testing(
    failures: &mut ForcedFailures,
    method: Method,
    enabled: bool,
)
    ensures
        final(failures)@ == if enabled {
            old(failures)@.insert(method@)
        } else {
            old(failures)@.remove(method@)
        },
{
    let ghost before = views(failures.methods@);
    let mut kept: Vec<Method> = Vec::new();
    let mut i: usize = 0;
    assert(views(kept@).to_set() =~= before.take(0).to_set().remove(method@));
    while i < failures.methods.len()
        invariant
            before == views(failures.methods@),
            i <= failures.methods.len(),
            views(kept@).to_set() == before.take(i as int).to_set().remove(method@),
        decreases failures.methods.len() - i,
    {
        let m: &Method = &failures.methods[i];
        assert(before.take(i + 1) =~= before.take(i as int).push(m@));
        proof {
            lemma_push_set(before.take(i as int), m@);
        }
        if !same_method(m, &method) {
            let copy: Method = m.copy();
            proof {
                crate::views::lemma_views_push(kept@, copy);
                lemma_push_set(views(kept@), m@);
            }
            kept.push(copy);
        }
        assert(views(kept@).to_set() =~= before.take(i + 1).to_set().remove(method@));
        i += 1;
    }
    assert(before.take(i as int) =~= before);
    if enabled {
        proof {
            crate::views::lemma_views_push(kept@, method);
            lemma_push_set(views(kept@), method@);
        }
        kept.push(method);
        assert(views(kept@).to_set() =~= before.to_set().insert(method@));
    }
    failures.methods = kept;
}

proof fn lemma_push_set<T>(s: Seq<T>, x: T)
    ensures
        s.push(x).to_set() == s.to_set().insert(x),
{
    assert forall|y: T| #[trigger]
        s.push(x).to_set().contains(y) == s.to_set().insert(x).contains(y) by {
        if s.contains(y) {
            let i = choose|i: int| 0 <= i < s.len() && s[i] == y;
            assert(s.push(x)[i] == y);
        }
        if y == x {
            assert(s.push(x)[s.len() as int] == y);
        }
        if s.push(x).contains(y) && y != x {
            let i = choose|i: int| 0 <= i < s.push(x).len() && s.push(x)[i] == y;
            assert(s[i] == y);
        }
    }
    assert(s.push(x).to_set() =~= s.to_set().insert(x));
}

/// Makes no method fail any more.
pub fn clear_execute_failures_for_testing(failures: &mut ForcedFailures)
    ensures
        final(failures)@ == Set::<Method<Seq<char>>>::empty(),
{
    failures.methods = Vec::new();
    assert(failures@ =~= Set::empty());
}

/// Whether a method is made to fail.
pub fn should_force_execute_failure(failures: &ForcedFailures, method: &Method) -> (out: bool)
    ensures
        out == failures@.contains(method@),
{
    let mut i: usize = 0;
    while i < failures.methods.len()
        invariant
            i <= failures.methods.len(),
            forall|k: int| 0 <= k < i ==> (#[trigger] failures.methods@[k])@ != method@,
        decreases failures.methods.len() - i,
    {
        if same_method(&failures.methods[i], method) {
            assert(views(failures.methods@)[i as int] == method@);
            return true;
        }
        i += 1;
    }
    assert(!views(failures.methods@).contains(method@));
    false
}

/// The first of some texts that is not among the known ones.
pub open spec fn first_unknown(wanted: Seq<Seq<char>>, known: Seq<Seq<char>>) -> Option<Seq<char>>
    decreases wanted.len(),
{
    if wanted.len() == 0 {
        None
    } else if !known.contains(wanted[0]) {
        Some(wanted[0])
    } else {
        first_unknown(wanted.skip(1), known)
    }
}

/// Finds the first of some texts that is not among the known ones.
pub fn find_unknown<'a>(wanted: &'a Vec<String>, known: &[&str]) -> (out: Option<&'a str>)
    ensures
        crate::text::opt_str(out) == first_unknown(
            texts(wanted@),
            known@.map_values(|s: &str| s@),
        ),
{
    let ghost names = known@.map_values(|s: &str| s@);
    let ghost all = texts(wanted@);
    let mut i: usize = 0;
    assert(all.skip(0) =~= all);
    while i < wanted.len()
        invariant
            names == known@.map_values(|s: &str| s@),
            all == texts(wanted@),
            i <= wanted.len(),
            first_unknown(all, names) == first_unknown(all.skip(i as int), names),
        decreases wanted.len() - i,
    {
        proof {
            assert(all.skip(i as int)[0] == wanted@[i as int]@);
            assert(all.skip(i as int).skip(1) =~= all.skip(i + 1));
        }
        let mut found: bool = false;
        let mut k: usize = 0;
        while k < known.len()
            invariant
                names == known@.map_values(|s: &str| s@),
                i < wanted.len(),
                k <= known.len(),
                found == exists|j: int|
                    0 <= j < k && #[trigger] names[j] == wanted@[i as int]@,
            decreases known.len() - k,
        {
            assert(names[k as int] == known@[k as int]@);
            if same_text(known[k], wanted[i].as_str()) {
                found = true;
            }
            k += 1;
        }
        assert(found == names.contains(wanted@[i as int]@));
        if !found {
            return Some(wanted[i].as_str());
        }
        i += 1;
    }
    None
}

/// The error for a kind of event that no client is told of.
pub open spec fn unknown_type(kind: Seq<char>) -> Seq<char> {
    "unknown notification type: "@ + kind
}

/// The subscriptions after a client asked for the given kinds of events: none
/// ends its subscription.
pub open spec fn subscriptions_with(
    m: Map<Seq<char>, Set<Seq<char>>>,
    client: Seq<char>,
    types: Seq<Seq<char>>,
) -> Map<Seq<char>, Set<Seq<char>>> {
    if types.len() == 0 {
        m.remove(client)
    } else {
        m.insert(client, types.to_set())
    }
}

/// Subscribes a client to the given kinds of events, or ends its subscription
/// if there are none.
pub fn change_subscription(stores: &mut Stores, client: &str, types: &Vec<String>)
    requires
        old(stores).wf(),
    ensures
        final(stores).wf(),
        final(stores).same_but_subscriptions(old(stores)),
        final(stores).subscriptions@ == subscriptions_with(
            old(stores).subscriptions@,
            client@,
            texts(types@),
        ),
{
    if types.len() == 0 {
        unsubscribe(&mut stores.subscriptions, client);
    } else {
        subscribe(&mut stores.subscriptions, client, types.as_slice());
    }
}

/// The answer to a request to be told of events.
pub open spec fn subscribe_response(params: RequestParams) -> ResponseView {
    match params {
        RequestParams::SubscribeNotifications(p) => match first_unknown(
            texts(p.types@),
            wallet_notifications(),
        ) {
            Some(kind) => failure(
                Method::SubscribeNotifications,
                other_error(unknown_type(kind)),
            ),
            None => success(Method::SubscribeNotifications, ResultView::SubscribeNotifications),
        },
        _ => failure(
            Method::SubscribeNotifications,
            other_error("invalid params for subscribe_notifications"@),
        ),
    }
}

/// The subscriptions after a request to be told of events. A request for an
/// unknown kind of event changes nothing.
pub open spec fn subscribed_after(
    m: Map<Seq<char>, Set<Seq<char>>>,
    client: Seq<char>,
    params: RequestParams,
) -> Map<Seq<char>, Set<Seq<char>>> {
    match params {
        RequestParams::SubscribeNotifications(p) => if first_unknown(
            texts(p.types@),
            wallet_notifications(),
        ) is None {
            subscriptions_with(m, client, texts(p.types@))
        } else {
            m
        },
        _ => m,
    }
}

/// Answers a request to be told of events.
pub fn handle_nwc_subscribe_notifications(
    request: &Request,
    caller_pubkey: &str,
    stores: &mut Stores,
) -> (out: Response)
    requires
        old(stores).wf(),
    ensures
        out@ == subscribe_response(request.params),
        final(stores).wf(),
        final(stores).same_but_subscriptions(old(stores)),
        final(stores).subscriptions@ == subscribed_after(
            old(stores).subscriptions@,
            caller_pubkey@,
            request.params,
        ),
{
    match &request.params {
        RequestParams::SubscribeNotifications(p) => {
            let known: [&str; 3] = ["payment_received", "payment_sent", "hold_invoice_accepted"];
            assert(known@.map_values(|s: &str| s@) =~= wallet_notifications());
            match find_unknown(&p.types, known.as_slice()) {
                Some(kind) => failed(
                    &Method::SubscribeNotifications,
                    wallet_error(
                        ErrorCode::Other,
                        join("unknown notification type: ", kind).as_str(),
                    ),
                ),
                None => {
                    change_subscription(stores, caller_pubkey, &p.types);
                    Response {
                        result_type: Method::SubscribeNotifications,
                        error: None,
                        result: Some(ResponseResult::SubscribeNotifications),
                    }
                },
            }
        },
        _ => failed(
            &Method::SubscribeNotifications,
            wallet_error(ErrorCode::Other, "invalid params for subscribe_notifications"),
        ),
    }
}

/// The start of a request.
#[derive(Debug)]
pub enum RequestStart {
    /// The request is answered without being carried out. Its debits stay.
    Answer(Response),
    /// The request is being carried out.
    Execute(WalletStep),
}

/// The error for a method that the wallet does not support.
pub open spec fn not_implemented(method: Method<Seq<char>>) -> NIP47Error<Seq<char>> {
    NIP47Error {
        code: ErrorCode::NotImplemented,
        message: method_name(method) + " not implemented yet"@,
    }
}

/// The error of a method that is made to fail.
pub open spec fn forced_failure() -> NIP47Error<Seq<char>> {
    other_error("forced execute failure for testing"@)
}

/// How a request starts. A request to be told of events is answered at once.
/// One for an unsupported method or with wrong parameters is refused.
pub open spec fn starts(
    request: Request,
    caller: Seq<char>,
    ctx: WalletContext,
    failures: Set<Method<Seq<char>>>,
    before: Stores,
    after: Stores,
    out: RequestStart,
) -> bool {
    let method = request.method@;
    if method is SubscribeNotifications {
        &&& out matches RequestStart::Answer(r)
        &&& r@ == subscribe_response(request.params)
        &&& after.same_but_subscriptions(&before)
        &&& after.subscriptions@ == subscribed_after(before.subscriptions@, caller, request.params)
    } else if method is Unknown {
        &&& out matches RequestStart::Answer(r)
        &&& r@ == failure(method, not_implemented(method))
        &&& after == before
    } else if params_error(method, request.params) is Some {
        &&& out matches RequestStart::Answer(r)
        &&& r@ == failure(method, params_error(method, request.params)->0)
        &&& after == before
    } else if failures.contains(method) {
        &&& out matches RequestStart::Execute(s)
        &&& s@ == StepView::Executed(Err(forced_failure()))
        &&& after == before
    } else if is_about_records(request.params) {
        &&& out matches RequestStart::Execute(s)
        &&& answers_from_records(request.params, before, after, s@)
    } else {
        &&& out matches RequestStart::Execute(s)
        &&& s@ == begin(request.params, ctx)
        &&& after == before
    }
}

/// Starts a request that access was granted to.
pub fn process_nwc_request(
    request: &Request,
    caller_pubkey: &str,
    ctx: &WalletContext,
    failures: &ForcedFailures,
    stores: &mut Stores,
) -> (out: RequestStart)
    requires
        old(stores).wf(),
    ensures
        final(stores).wf(),
        starts(*request, caller_pubkey@, *ctx, failures@, *old(stores), *final(stores), out),
{
    match &request.method {
        Method::SubscribeNotifications => {
            return RequestStart::Answer(
                handle_nwc_subscribe_notifications(request, caller_pubkey, stores),
            );
        },
        Method::Unknown(_) => {
            let message: String = join(request.method.as_str(), " not implemented yet");
            return RequestStart::Answer(
                failed(
                    &request.method,
                    wallet_error(ErrorCode::NotImplemented, message.as_str()),
                ),
            );
        },
        _ => {},
    }
    match validate(request) {
        Ok(_) => {},
        Err(e) => {
            return RequestStart::Answer(failed(&request.method, e));
        },
    }
    if should_force_execute_failure(failures, &request.method) {
        return RequestStart::Execute(
            WalletStep::Executed(
                Err(wallet_error(ErrorCode::Other, "forced execute failure for testing")),
            ),
        );
    }
    let about_records: bool = match &request.params {
        RequestParams::LookupOffer(_) => true,
        RequestParams::ListOffers(_) => true,
        RequestParams::DisableOffer(_) => true,
        RequestParams::LookupAddress(_) => true,
        RequestParams::ListAddresses(_) => true,
        _ => false,
    };
    if about_records {
        RequestStart::Execute(answer_from_records(&request.params, stores))
    } else {
        RequestStart::Execute(begin_request(&request.params, ctx))
    }
}

/// The end of a request that was carried out: the answer, and whether the
/// debits are to be refunded.
#[derive(Debug)]
pub struct RequestEnd {
    pub response: Response,
    pub refund: bool,
}

/// Ends a request. What a request that failed was debited is refunded.
pub fn finish_request(method: &Method, executed: Result<ResponseResult, NIP47Error>) -> (out:
    RequestEnd)
    ensures
        out.refund == executed is Err,
        out.response@ == match executed {
            Ok(r) => success(method@, r@),
            Err(e) => failure(method@, e@),
        },
{
    match executed {
        Ok(r) => RequestEnd {
            response: Response { result_type: method.copy(), error: None, result: Some(r) },
            refund: false,
        },
        Err(e) => RequestEnd { response: failed(method, e), refund: true },
    }
}

/// Ends a request that was broken off, for the given reason.
pub fn break_off_request(method: &Method, reason: &str) -> (out: RequestEnd)
    ensures
        out.refund,
        out.response@ == failure(
            method@,
            other_error("internal execution task failed: "@ + reason@),
        ),
{
    let message: String = join("internal execution task failed: ", reason);
    RequestEnd {
        response: failed(method, wallet_error(ErrorCode::Other, message.as_str())),
        refund: true,
    }
}

/// After a successful request to be told of events, the client is subscribed to
/// exactly the kinds that it asked for, and to none if it asked for none.
pub proof fn subscribing_replaces(
    m: Map<Seq<char>, Set<Seq<char>>>,
    client: Seq<char>,
    params: RequestParams,
    kind: Seq<char>,
)
    requires
        params is SubscribeNotifications,
        subscribe_response(params).error is None,
    ensures
        crate::state::subscription_store::subscribed(
            subscribed_after(m, client, params),
            client,
            kind,
        ) <==> texts(params->SubscribeNotifications_0.types@).contains(kind),
{
}

/// A request for a method that the wallet supports, with parameters that suit
/// it, can be carried out, unless it names a payment by a text whose pairs of
/// bytes split a character, or a payment URI whose amount does not fit into 64
/// bits.
pub proof fn valid_requests_start(
    method: Method<Seq<char>>,
    params: RequestParams,
    ctx: WalletContext,
)
    requires
        !(method is SubscribeNotifications),
        !(method is Unknown),
        params_error(method, params) is None,
        !is_about_records(params),
        begin(params, ctx) is Halt,
    ensures
        ctx.service is Some,
        match params {
            RequestParams::LookupInvoice(p) => p.invoice is None && p.payment_hash is Some
                && !pairs_aligned(p.payment_hash->0@),
            RequestParams::PayBip321(p) => uri_reading(p.uri@) matches Ok(uri)
                && uri.amount_sat matches Some(sat) && sat * 1000 > u64::MAX,
            _ => false,
        },
{
}

} // verus!
