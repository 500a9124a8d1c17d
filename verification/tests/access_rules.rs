use ldk_controller::access::{
    compare_access_keys, continue_refunds, continue_run, denial_of_run, map_rate_state_error,
    plan_access, refund_failure, request_spend_msat, start_refunds, start_run, AccessKey,
    AccessPlan, AccessRun, KnownLimiters, LimiterAction, LimiterReply, RefundRun, Spend,
};
use ldk_controller::nip47::{
    ErrorCode, Method, PayBip321Request, PayInvoiceRequest, PayKeysendRequest, PayOnchainRequest,
    Request, RequestParams, Response,
};
use ldk_controller::text::TextOrder;
use ldk_controller::{AccessErrorContext, MethodAccessRule, RateStateError, UsageProfile};

const BOTH: KnownLimiters = KnownLimiters { access_rate: true, quota: true };

fn keysend(amount: u64) -> Request {
    Request {
        method: Method::PayKeysend,
        params: RequestParams::PayKeysend(PayKeysendRequest { pubkey: "x".to_string(), amount }),
    }
}

fn profile(rate: Option<u8>, quota: Option<u8>) -> UsageProfile<u8> {
    UsageProfile {
        quota,
        methods: Some(vec![(Method::PayKeysend, MethodAccessRule { access_rate: rate })]),
        control: None,
    }
}

fn denied(plan: AccessPlan<'_, u8>) -> (ErrorCode, String) {
    match plan {
        AccessPlan::Denied(Response { error: Some(e), result: None, .. }) => (e.code, e.message),
        _ => panic!("not denied"),
    }
}

#[test]
fn clients_without_a_grant_are_unauthorized() {
    let (code, _) = denied(plan_access(&keysend(1), "c", None, BOTH));
    assert_eq!(code, ErrorCode::Unauthorized);
}

#[test]
fn methods_that_are_not_listed_are_restricted() {
    let request = Request { method: Method::GetInfo, params: RequestParams::GetInfo };
    let (code, _) = denied(plan_access(&request, "c", Some(&profile(None, None)), BOTH));
    assert_eq!(code, ErrorCode::Restricted);
    let nothing: UsageProfile<u8> =
        UsageProfile { quota: None, methods: Some(Vec::new()), control: None };
    let (code, _) = denied(plan_access(&request, "c", Some(&nothing), BOTH));
    assert_eq!(code, ErrorCode::Restricted);
    let all: UsageProfile<u8> = UsageProfile {
        quota: None,
        methods: Some(vec![(
            Method::Unknown("ALL".to_string()),
            MethodAccessRule { access_rate: None },
        )]),
        control: None,
    };
    assert!(matches!(
        plan_access(&request, "c", Some(&all), BOTH),
        AccessPlan::Limited(updates) if updates.is_empty()
    ));
}

#[test]
fn the_rate_is_debited_before_the_quota() {
    let granted = profile(Some(1), Some(2));
    match plan_access(&keysend(5_000), "c", Some(&granted), BOTH) {
        AccessPlan::Limited(updates) => {
            assert_eq!(updates.len(), 2);
            assert!(matches!(
                &updates[0].key,
                AccessKey::Method { pubkey, method: Method::PayKeysend } if pubkey == "c"
            ));
            assert_eq!(updates[0].amount, 1_000_000);
            assert_eq!(*updates[0].rule, 1);
            assert!(matches!(&updates[1].key, AccessKey::Quota { pubkey } if pubkey == "c"));
            assert_eq!(updates[1].amount, 5_000);
            assert_eq!(*updates[1].rule, 2);
            assert_eq!(updates[1].context, AccessErrorContext::Quota);
        }
        _ => panic!("not limited"),
    }
    assert!(matches!(
        plan_access(&keysend(0), "c", Some(&granted), BOTH),
        AccessPlan::Limited(updates) if updates.len() == 1
    ));
}

#[test]
fn missing_limiters_deny() {
    let granted = profile(Some(1), Some(2));
    let (code, message) = denied(plan_access(
        &keysend(5),
        "c",
        Some(&granted),
        KnownLimiters { access_rate: false, quota: true },
    ));
    assert_eq!(code, ErrorCode::Other);
    assert_eq!(message, "missing access rate state");
    let (_, message) = denied(plan_access(
        &keysend(5),
        "c",
        Some(&granted),
        KnownLimiters { access_rate: true, quota: false },
    ));
    assert_eq!(message, "missing quota state");
}

fn spent(params: RequestParams) -> Spend {
    request_spend_msat(&Request { method: Method::Unknown("x".to_string()), params })
}

#[test]
fn requests_spend_what_they_name() {
    assert!(matches!(
        spent(RequestParams::PayInvoice(PayInvoiceRequest {
            invoice: "i".to_string(),
            amount: Some(9),
        })),
        Spend::Msat(9)
    ));
    assert!(matches!(
        spent(RequestParams::PayInvoice(PayInvoiceRequest {
            invoice: "i".to_string(),
            amount: None,
        })),
        Spend::Unknown
    ));
    assert!(matches!(
        spent(RequestParams::PayOnchain(PayOnchainRequest {
            address: "a".to_string(),
            amount: 3,
            feerate: None,
        })),
        Spend::Msat(3_000)
    ));
    assert!(matches!(
        spent(RequestParams::PayOnchain(PayOnchainRequest {
            address: "a".to_string(),
            amount: u64::MAX,
            feerate: None,
        })),
        Spend::Msat(u64::MAX)
    ));
    assert!(matches!(
        spent(RequestParams::PayBip321(PayBip321Request {
            uri: "bitcoin:bc1qw508d6qejxtdg4y5r3zarvary0c5xw7kv8f3t4?amount=0.00000002"
                .to_string(),
        })),
        Spend::Msat(2_000)
    ));
    assert!(matches!(
        spent(RequestParams::PayBip321(PayBip321Request { uri: "nonsense".to_string() })),
        Spend::Unknown
    ));
    assert!(matches!(spent(RequestParams::GetInfo), Spend::Unknown));
}

#[test]
fn limiters_are_locked_checked_and_debited_in_turn() {
    let mut run = start_run(2);
    let mut seen = Vec::new();
    while let AccessRun::Do { action, place } = run {
        seen.push((action, place));
        run = continue_run(run, 2, LimiterReply::Consent);
    }
    assert!(matches!(run, AccessRun::Granted));
    assert_eq!(
        seen,
        vec![
            (LimiterAction::Lock, 0),
            (LimiterAction::Lock, 1),
            (LimiterAction::Check, 0),
            (LimiterAction::Check, 1),
            (LimiterAction::Debit, 0),
            (LimiterAction::Debit, 1),
        ]
    );
    assert!(matches!(start_run(0), AccessRun::Granted));
}

#[test]
fn refusals_and_broken_limiters_are_answered() {
    let granted = profile(Some(1), Some(2));
    let updates = match plan_access(&keysend(5), "c", Some(&granted), BOTH) {
        AccessPlan::Limited(updates) => updates,
        _ => panic!("not limited"),
    };
    let refuse = |place: usize, reply: LimiterReply| {
        let mut run = start_run(2);
        for _ in 0..2 + place {
            run = continue_run(run, 2, LimiterReply::Consent);
        }
        run = continue_run(run, 2, reply);
        denial_of_run(run, &Method::PayKeysend, &updates).unwrap().error.unwrap()
    };
    let e = refuse(0, LimiterReply::Refused(RateStateError::InsufficientBalance));
    assert_eq!(e.code, ErrorCode::RateLimited);
    assert_eq!(e.message, "rate limit exceeded");
    let e = refuse(1, LimiterReply::Refused(RateStateError::InsufficientBalance));
    assert_eq!(e.code, ErrorCode::QuotaExceeded);
    assert_eq!(e.message, "quota exceeded");
    let e = denial_of_run(
        continue_run(start_run(2), 2, LimiterReply::Poisoned),
        &Method::PayKeysend,
        &updates,
    )
    .unwrap()
    .error
    .unwrap();
    assert_eq!(e.code, ErrorCode::Other);
    assert!(denial_of_run(AccessRun::Granted, &Method::PayKeysend, &updates).is_none());
}

#[test]
fn limiter_errors_have_their_messages() {
    let text = |e| map_rate_state_error(&e, AccessErrorContext::Quota).message;
    assert_eq!(text(RateStateError::InsufficientBalance), "quota exceeded");
    assert_eq!(text(RateStateError::AmountTooLarge), "invalid amount: exceeds i64::MAX");
    assert_eq!(text(RateStateError::InvalidRule), "invalid rate limit rule");
    assert_eq!(text(RateStateError::InternalInvariantViolation), "internal rate state error");
}

#[test]
fn keys_are_ordered_methods_first() {
    let method = |pubkey: &str, method: Method| AccessKey::Method {
        pubkey: pubkey.to_string(),
        method,
    };
    let quota = |pubkey: &str| AccessKey::Quota { pubkey: pubkey.to_string() };
    assert_eq!(
        compare_access_keys(&method("b", Method::GetInfo), &quota("a")),
        TextOrder::Less
    );
    assert_eq!(
        compare_access_keys(&quota("a"), &method("b", Method::GetInfo)),
        TextOrder::Greater
    );
    assert_eq!(
        compare_access_keys(&method("a", Method::PayOffer), &method("a", Method::GetInfo)),
        TextOrder::Greater
    );
    assert_eq!(
        compare_access_keys(&method("a", Method::PayOffer), &method("b", Method::GetInfo)),
        TextOrder::Less
    );
    assert_eq!(compare_access_keys(&quota("a"), &quota("a")), TextOrder::Equal);
}

#[test]
fn refunds_go_on_past_failures() {
    let mut run = start_refunds(2);
    let mut places = Vec::new();
    while let RefundRun::Refund { place } = run {
        places.push(place);
        run = continue_refunds(run, 2);
    }
    assert_eq!(places, vec![0, 1]);
    assert_eq!(start_refunds(0), RefundRun::Over);
    let why = |reply| refund_failure(reply, AccessErrorContext::AccessRate);
    assert_eq!(why(LimiterReply::Consent), None);
    assert_eq!(why(LimiterReply::Poisoned), Some("state lock poisoned".to_string()));
    assert_eq!(
        why(LimiterReply::Refused(RateStateError::InvalidRule)),
        Some("invalid rate limit rule".to_string())
    );
}
