//! Checking the parameters of requests before they are carried out.

use vstd::prelude::*;

#[allow(unused_imports)]
use crate::lightning::parse::uri_reading;
use crate::lightning::parse::{read_uri, PaymentUri};
#[allow(unused_imports)]
use crate::lightning::parse::UriView;
use crate::nip47::{wallet_error, ErrorCode, Method, NIP47Error, Request, RequestParams};
#[allow(unused_imports)]
use crate::text::blank;
use crate::text::{is_blank, join};
#[allow(unused_imports)]
use crate::views::result_view;

verus! {

/// An error without a code of its own.
pub open spec fn other_error(message: Seq<char>) -> NIP47Error<Seq<char>> {
    NIP47Error { code: ErrorCode::Other, message }
}

fn other(message: &str) -> (out: NIP47Error)
    ensures
        out@ == other_error(message@),
{
    wallet_error(ErrorCode::Other, message)
}

/// The text is missing or empty.
pub open spec fn no_text(o: Option<String>) -> bool {
    match o {
        Some(s) => s@.len() == 0,
        None => true,
    }
}

fn lacks_text(o: &Option<String>) -> (out: bool)
    ensures
        out == no_text(*o),
{
    match o {
        Some(s) => s.as_str().unicode_len() == 0,
        None => true,
    }
}

/// What is wrong with a payment URI that was read.
pub open spec fn uri_error(uri: Result<UriView, Seq<char>>) -> Option<
    NIP47Error<Seq<char>>,
> {
    match uri {
        Ok(_) => None,
        Err(m) => Some(other_error("invalid BIP-321 URI: "@ + m)),
    }
}

/// What is wrong with the parameters of a request, if anything is.
pub open spec fn params_error(method: Method<Seq<char>>, params: RequestParams) -> Option<
    NIP47Error<Seq<char>>,
> {
    match method {
        Method::GetInfo => if params is GetInfo {
            None
        } else {
            Some(other_error("invalid params for get_info"@))
        },
        Method::GetBalance => if params is GetBalance {
            None
        } else {
            Some(other_error("invalid params for get_balance"@))
        },
        Method::PayInvoice => match params {
            RequestParams::PayInvoice(p) => if blank(p.invoice@) {
                Some(other_error("invoice is required"@))
            } else if p.amount == Some(0u64) {
                Some(other_error("amount must be greater than 0"@))
            } else {
                None
            },
            _ => Some(other_error("invalid params for pay_invoice"@)),
        },
        Method::PayKeysend => match params {
            RequestParams::PayKeysend(p) => if blank(p.pubkey@) {
                Some(other_error("pubkey is required"@))
            } else if p.amount == 0 {
                Some(other_error("amount must be greater than 0"@))
            } else {
                None
            },
            _ => Some(other_error("invalid params for pay_keysend"@)),
        },
        Method::MakeInvoice => match params {
            RequestParams::MakeInvoice(p) => if p.amount == 0 {
                Some(other_error("amount must be greater than 0"@))
            } else {
                None
            },
            _ => Some(other_error("invalid params for make_invoice"@)),
        },
        Method::LookupInvoice => match params {
            RequestParams::LookupInvoice(p) => if no_text(p.payment_hash) && no_text(p.invoice) {
                Some(other_error("payment_hash or invoice is required"@))
            } else {
                None
            },
            _ => Some(other_error("invalid params for lookup_invoice"@)),
        },
        Method::ListTransactions => if params is ListTransactions {
            None
        } else {
            Some(other_error("invalid params for list_transactions"@))
        },
        Method::MakeHoldInvoice => match params {
            RequestParams::MakeHoldInvoice(p) => if blank(p.payment_hash@) {
                Some(other_error("payment_hash is required"@))
            } else if p.amount == 0 {
                Some(other_error("amount must be greater than 0"@))
            } else {
                None
            },
            _ => Some(other_error("invalid params for make_hold_invoice"@)),
        },
        Method::CancelHoldInvoice => match params {
            RequestParams::CancelHoldInvoice(p) => if blank(p.payment_hash@) {
                Some(other_error("payment_hash is required"@))
            } else {
                None
            },
            _ => Some(other_error("invalid params for cancel_hold_invoice"@)),
        },
        Method::SettleHoldInvoice => match params {
            RequestParams::SettleHoldInvoice(p) => if blank(p.preimage@) {
                Some(other_error("preimage is required"@))
            } else {
                None
            },
            _ => Some(other_error("invalid params for settle_hold_invoice"@)),
        },
        Method::MakeNewAddress => if params is MakeNewAddress {
            None
        } else {
            Some(other_error("invalid params for make_new_address"@))
        },
        Method::PayOnchain => match params {
            RequestParams::PayOnchain(p) => if blank(p.address@) {
                Some(other_error("address is required"@))
            } else if p.amount == 0 {
                Some(other_error("amount must be greater than 0"@))
            } else {
                None
            },
            _ => Some(other_error("invalid params for pay_onchain"@)),
        },
        Method::MakeOffer => match params {
            RequestParams::MakeOffer(p) => if p.amount == 0 {
                Some(other_error("amount must be greater than 0"@))
            } else if blank(p.description@) {
                Some(other_error("description is required"@))
            } else {
                None
            },
            _ => Some(other_error("invalid params for make_offer"@)),
        },
        Method::PayOffer => match params {
            RequestParams::PayOffer(p) => if blank(p.offer@) {
                Some(other_error("offer is required"@))
            } else {
                None
            },
            _ => Some(other_error("invalid params for pay_offer"@)),
        },
        Method::LookupOffer => match params {
            RequestParams::LookupOffer(p) => if blank(p.offer@) {
                Some(other_error("offer is required"@))
            } else {
                None
            },
            _ => Some(other_error("invalid params for lookup_offer"@)),
        },
        Method::DisableOffer => match params {
            RequestParams::DisableOffer(p) => if blank(p.offer@) {
                Some(other_error("offer is required"@))
            } else {
                None
            },
            _ => Some(other_error("invalid params for disable_offer"@)),
        },
        Method::LookupAddress => match params {
            RequestParams::LookupAddress(p) => if blank(p.address@) {
                Some(other_error("address is required"@))
            } else {
                None
            },
            _ => Some(other_error("invalid params for lookup_address"@)),
        },
        Method::PayBip321 => match params {
            RequestParams::PayBip321(p) => if blank(p.uri@) {
                Some(other_error("uri is required"@))
            } else {
                uri_error(uri_reading(p.uri@))
            },
            _ => Some(other_error("invalid params for pay_bip321"@)),
        },
        Method::ListOffers => if params is ListOffers {
            None
        } else {
            Some(other_error("invalid params for list_offers"@))
        },
        Method::ListAddresses => if params is ListAddresses {
            None
        } else {
            Some(other_error("invalid params for list_addresses"@))
        },
        Method::ListInvoices => if params is ListInvoices {
            None
        } else {
            Some(other_error("invalid params for list_invoices"@))
        },
        Method::SubscribeNotifications => if params is SubscribeNotifications {
            None
        } else {
            Some(other_error("invalid params for subscribe_notifications"@))
        },
        Method::Unknown(_) => None,
    }
}

/// Whether a payment URI that was read can be paid.
pub fn validate_uri(uri: &Result<PaymentUri, String>) -> (out: Result<(), NIP47Error>)
    ensures
        match out {
            Ok(_) => uri_error(result_view(*uri)) is None,
            Err(e) => uri_error(result_view(*uri)) == Some(e@),
        },
{
    match uri {
        Ok(_) => Ok(()),
        Err(m) => Err(other(join("invalid BIP-321 URI: ", m.as_str()).as_str())),
    }
}

/// Checks the parameters of a request.
pub fn validate(request: &Request) -> (out: Result<(), NIP47Error>)
    ensures
        match out {
            Ok(_) => params_error(request.method@, request.params) is None,
            Err(e) => params_error(request.method@, request.params) == Some(e@),
        },
{
    match &request.method {
        Method::GetInfo => match &request.params {
            RequestParams::GetInfo => Ok(()),
            _ => Err(other("invalid params for get_info")),
        },
        Method::GetBalance => match &request.params {
            RequestParams::GetBalance => Ok(()),
            _ => Err(other("invalid params for get_balance")),
        },
        Method::PayInvoice => match &request.params {
            RequestParams::PayInvoice(p) => if is_blank(p.invoice.as_str()) {
                Err(other("invoice is required"))
            } else if p.amount == Some(0u64) {
                Err(other("amount must be greater than 0"))
            } else {
                Ok(())
            },
            _ => Err(other("invalid params for pay_invoice")),
        },
        Method::PayKeysend => match &request.params {
            RequestParams::PayKeysend(p) => if is_blank(p.pubkey.as_str()) {
                Err(other("pubkey is required"))
            } else if p.amount == 0 {
                Err(other("amount must be greater than 0"))
            } else {
                Ok(())
            },
            _ => Err(other("invalid params for pay_keysend")),
        },
        Method::MakeInvoice => match &request.params {
            RequestParams::MakeInvoice(p) => if p.amount == 0 {
                Err(other("amount must be greater than 0"))
            } else {
                Ok(())
            },
            _ => Err(other("invalid params for make_invoice")),
        },
        Method::LookupInvoice => match &request.params {
            RequestParams::LookupInvoice(p) => if lacks_text(&p.payment_hash) && lacks_text(
                &p.invoice,
            ) {
                Err(other("payment_hash or invoice is required"))
            } else {
                Ok(())
            },
            _ => Err(other("invalid params for lookup_invoice")),
        },
        Method::ListTransactions => match &request.params {
            RequestParams::ListTransactions(_) => Ok(()),
            _ => Err(other("invalid params for list_transactions")),
        },
        Method::MakeHoldInvoice => match &request.params {
            RequestParams::MakeHoldInvoice(p) => if is_blank(p.payment_hash.as_str()) {
                Err(other("payment_hash is required"))
            } else if p.amount == 0 {
                Err(other("amount must be greater than 0"))
            } else {
                Ok(())
            },
            _ => Err(other("invalid params for make_hold_invoice")),
        },
        Method::CancelHoldInvoice => match &request.params {
            RequestParams::CancelHoldInvoice(p) => if is_blank(p.payment_hash.as_str()) {
                Err(other("payment_hash is required"))
            } else {
                Ok(())
            },
            _ => Err(other("invalid params for cancel_hold_invoice")),
        },
        Method::SettleHoldInvoice => match &request.params {
            RequestParams::SettleHoldInvoice(p) => if is_blank(p.preimage.as_str()) {
                Err(other("preimage is required"))
            } else {
                Ok(())
            },
            _ => Err(other("invalid params for settle_hold_invoice")),
        },
        Method::MakeNewAddress => match &request.params {
            RequestParams::MakeNewAddress => Ok(()),
            _ => Err(other("invalid params for make_new_address")),
        },
        Method::PayOnchain => match &request.params {
            RequestParams::PayOnchain(p) => if is_blank(p.address.as_str()) {
                Err(other("address is required"))
            } else if p.amount == 0 {
                Err(other("amount must be greater than 0"))
            } else {
                Ok(())
            },
            _ => Err(other("invalid params for pay_onchain")),
        },
        Method::MakeOffer => match &request.params {
            RequestParams::MakeOffer(p) => if p.amount == 0 {
                Err(other("amount must be greater than 0"))
            } else if is_blank(p.description.as_str()) {
                Err(other("description is required"))
            } else {
                Ok(())
            },
            _ => Err(other("invalid params for make_offer")),
        },
        Method::PayOffer => match &request.params {
            RequestParams::PayOffer(p) => if is_blank(p.offer.as_str()) {
                Err(other("offer is required"))
            } else {
                Ok(())
            },
            _ => Err(other("invalid params for pay_offer")),
        },
        Method::LookupOffer => match &request.params {
            RequestParams::LookupOffer(p) => if is_blank(p.offer.as_str()) {
                Err(other("offer is required"))
            } else {
                Ok(())
            },
            _ => Err(other("invalid params for lookup_offer")),
        },
        Method::DisableOffer => match &request.params {
            RequestParams::DisableOffer(p) => if is_blank(p.offer.as_str()) {
                Err(other("offer is required"))
            } else {
                Ok(())
            },
            _ => Err(other("invalid params for disable_offer")),
        },
        Method::LookupAddress => match &request.params {
            RequestParams::LookupAddress(p) => if is_blank(p.address.as_str()) {
                Err(other("address is required"))
            } else {
                Ok(())
            },
            _ => Err(other("invalid params for lookup_address")),
        },
        Method::PayBip321 => match &request.params {
            RequestParams::PayBip321(p) => if is_blank(p.uri.as_str()) {
                Err(other("uri is required"))
            } else {
                validate_uri(&read_uri(p.uri.as_str()))
            },
            _ => Err(other("invalid params for pay_bip321")),
        },
        Method::ListOffers => match &request.params {
            RequestParams::ListOffers(_) => Ok(()),
            _ => Err(other("invalid params for list_offers")),
        },
        Method::ListAddresses => match &request.params {
            RequestParams::ListAddresses(_) => Ok(()),
            _ => Err(other("invalid params for list_addresses")),
        },
        Method::ListInvoices => match &request.params {
            RequestParams::ListInvoices(_) => Ok(()),
            _ => Err(other("invalid params for list_invoices")),
        },
        Method::SubscribeNotifications => match &request.params {
            RequestParams::SubscribeNotifications(_) => Ok(()),
            _ => Err(other("invalid params for subscribe_notifications")),
        },
        Method::Unknown(_) => Ok(()),
    }
}

} // verus!
