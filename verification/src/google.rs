//! The Store B (Google-Play-like) side: decoding the nested payload
//! delivered by the purchasing plugin, deriving the verification request
//! URI, parsing the store's response, and evaluating the verdict.

use vstd::prelude::*;

use crate::error::Error;
use crate::json::parse_object;
use crate::json::spec_parse_object;
use crate::json::spec_req_str;
use crate::json::spec_opt_str;
use crate::json::spec_req_bool;
use crate::json::spec_opt_bool;
use crate::json::spec_req_i64;
use crate::json::spec_opt_i64;
use crate::json::spec_opt_u32;
use crate::json::req_str;
use crate::json::opt_str;
use crate::json::req_bool;
use crate::json::opt_bool;
use crate::json::req_i64;
use crate::json::opt_i64;
use crate::json::opt_u32;
use crate::json::PrimV;
use crate::receipt::PurchaseResponse;
use crate::text::chars_to_string;
use crate::text::chars_eq_str;
use crate::text::parse_decimal_i64;
use crate::text::decimal_i64_chars;
use crate::text::push_str_chars;
use crate::text::str_chars;
use crate::text::view_opt_str;

verus! {

/// The deserialized body of a Store B verification response, covering both
/// subscription and one-time-product purchases.
#[derive(Clone, Debug)]
pub struct GoogleResponse {
    /// When the subscription expires, in milliseconds since the epoch,
    /// as a decimal string. Only set for subscriptions.
    pub expiry_time: Option<String>,
    /// ISO 4217 currency code of the price.
    pub price_currency_code: Option<String>,
    /// The price in micro-units, as a decimal string.
    pub price_amount_micros: Option<String>,
    /// The order id of the latest recurring order for the purchase.
    pub order_id: String,
    /// How the purchase was made, when not through the standard flow.
    pub purchase_type: Option<i64>,
    /// The product SKU.
    pub product_id: Option<String>,
    /// The purchase state: 0 purchased, 1 canceled, 2 pending.
    pub purchase_state: Option<u32>,
}

/// The mathematical content of a `GoogleResponse`.
pub struct GoogleResponseV {
    /// When the subscription expires, as a decimal string.
    pub expiry_time: Option<Seq<char>>,
    /// ISO 4217 currency code of the price.
    pub price_currency_code: Option<Seq<char>>,
    /// The price in micro-units, as a decimal string.
    pub price_amount_micros: Option<Seq<char>>,
    /// The order id.
    pub order_id: Seq<char>,
    /// How the purchase was made.
    pub purchase_type: Option<int>,
    /// The product SKU.
    pub product_id: Option<Seq<char>>,
    /// The purchase state.
    pub purchase_state: Option<int>,
}

impl View for GoogleResponse {
    type V = GoogleResponseV;

    open spec fn view(&self) -> GoogleResponseV {
        GoogleResponseV {
            expiry_time: view_opt_str(self.expiry_time),
            price_currency_code: view_opt_str(self.price_currency_code),
            price_amount_micros: view_opt_str(self.price_amount_micros),
            order_id: self.order_id@,
            purchase_type: match self.purchase_type {
                Some(x) => Some(x as int),
                None => None,
            },
            product_id: view_opt_str(self.product_id),
            purchase_state: match self.purchase_state {
                Some(x) => Some(x as int),
                None => None,
            },
        }
    }
}

impl Default for GoogleResponse {
    /// A response with nothing set.
    fn default() -> (r: Self)
        ensures
            r@.expiry_time is None,
            r@.price_currency_code is None,
            r@.price_amount_micros is None,
            r@.order_id.len() == 0,
            r@.purchase_type is None,
            r@.product_id is None,
            r@.purchase_state is None,
    {
        GoogleResponse {
            expiry_time: None,
            price_currency_code: None,
            price_amount_micros: None,
            order_id: String::new(),
            purchase_type: None,
            product_id: None,
            purchase_state: None,
        }
    }
}

/// What the response wire format denotes.
pub open spec fn spec_google_response_of_members(l: Seq<(Seq<char>, PrimV)>) -> Option<
    GoogleResponseV,
> {
    match (spec_opt_str(l, "expiryTimeMillis"@), spec_opt_str(l, "priceCurrencyCode"@),
    spec_opt_str(l, "priceAmountMicros"@), spec_req_str(l, "orderId"@), spec_opt_i64(
        l,
        "purchaseType"@,
    ), spec_opt_str(l, "productId"@), spec_opt_u32(l, "purchaseState"@)) {
        (Some(et), Some(pcc), Some(pam), Some(oid), Some(pt), Some(pid), Some(ps)) => Some(
            GoogleResponseV {
                expiry_time: et,
                price_currency_code: pcc,
                price_amount_micros: pam,
                order_id: oid,
                purchase_type: pt,
                product_id: pid,
                purchase_state: ps,
            },
        ),
        _ => None,
    }
}

/// The response denoted by the JSON text `s`, if it is well-formed.
pub open spec fn spec_parse_google_response(s: Seq<char>) -> Option<GoogleResponseV> {
    match spec_parse_object(s) {
        Some(l) => spec_google_response_of_members(l),
        None => None,
    }
}

impl GoogleResponse {
    /// Parses a response body received from the Store B endpoint.
    pub fn parse(body: &str) -> (r: Result<GoogleResponse, Error>)
        ensures
            match r {
                Ok(resp) => spec_parse_google_response(body@) == Some(resp@),
                Err(e) => spec_parse_google_response(body@) is None && e == Error::ParseError,
            },
    {
        let chars = str_chars(body);
        let members = match parse_object(&chars) {
            Some(l) => l,
            None => {
                return Err(Error::ParseError);
            },
        };
        let expiry_time = match opt_str(&members, "expiryTimeMillis") {
            Some(o) => o,
            None => {
                return Err(Error::ParseError);
            },
        };
        let price_currency_code = match opt_str(&members, "priceCurrencyCode") {
            Some(o) => o,
            None => {
                return Err(Error::ParseError);
            },
        };
        let price_amount_micros = match opt_str(&members, "priceAmountMicros") {
            Some(o) => o,
            None => {
                return Err(Error::ParseError);
            },
        };
        let order_id = match req_str(&members, "orderId") {
            Some(s) => s,
            None => {
                return Err(Error::ParseError);
            },
        };
        let purchase_type = match opt_i64(&members, "purchaseType") {
            Some(o) => o,
            None => {
                return Err(Error::ParseError);
            },
        };
        let product_id = match opt_str(&members, "productId") {
            Some(o) => o,
            None => {
                return Err(Error::ParseError);
            },
        };
        let purchase_state = match opt_u32(&members, "purchaseState") {
            Some(o) => o,
            None => {
                return Err(Error::ParseError);
            },
        };
        Ok(
            GoogleResponse {
                expiry_time,
                price_currency_code,
                price_amount_micros,
                order_id,
                purchase_type,
                product_id,
                purchase_state,
            },
        )
    }
}

/// The purchase metadata delivered inside the plugin receipt's payload:
/// three JSON-encoded strings.
#[derive(Clone, Debug)]
pub struct GooglePlayData {
    /// JSON data holding the parameters of the verification request.
    pub json: String,
    /// The payload's signature.
    pub signature: String,
    /// JSON data holding the SKU metadata, among it the `SkuType`.
    pub sku_details: String,
}

/// The mathematical content of a `GooglePlayData`.
pub struct GooglePlayDataV {
    /// JSON data holding the parameters of the verification request.
    pub json: Seq<char>,
    /// The payload's signature.
    pub signature: Seq<char>,
    /// JSON data holding the SKU metadata.
    pub sku_details: Seq<char>,
}

impl View for GooglePlayData {
    type V = GooglePlayDataV;

    open spec fn view(&self) -> GooglePlayDataV {
        GooglePlayDataV {
            json: self.json@,
            signature: self.signature@,
            sku_details: self.sku_details@,
        }
    }
}

/// What the payload envelope denotes: a JSON object with string fields
/// `json`, `signature` and `skuDetails`.
pub open spec fn spec_play_data_of_members(l: Seq<(Seq<char>, PrimV)>) -> Option<GooglePlayDataV> {
    match (spec_req_str(l, "json"@), spec_req_str(l, "signature"@), spec_req_str(
        l,
        "skuDetails"@,
    )) {
        (Some(j), Some(sg), Some(sd)) => Some(
            GooglePlayDataV { json: j, signature: sg, sku_details: sd },
        ),
        _ => None,
    }
}

/// The payload envelope denoted by the JSON text `s`, if well-formed.
pub open spec fn spec_parse_play_data(s: Seq<char>) -> Option<GooglePlayDataV> {
    match spec_parse_object(s) {
        Some(l) => spec_play_data_of_members(l),
        None => None,
    }
}

/// Whether a purchase is a subscription or a one-time product.
#[derive(Clone, Copy, Debug, PartialEq, Eq, Structural)]
pub enum SkuType {
    /// A subscription.
    Subs,
    /// A one-time product.
    Inapp,
}

/// The SKU metadata the validator reads: the purchase model of the item.
#[derive(Clone, Copy, Debug)]
pub struct SkuDetails {
    /// The purchase model of the item.
    pub sku_type: SkuType,
}

/// The SKU type named by `s`: exactly `subs` or `inapp`.
pub open spec fn spec_sku_type_of(s: Seq<char>) -> Option<SkuType> {
    if s == "subs"@ {
        Some(SkuType::Subs)
    } else if s == "inapp"@ {
        Some(SkuType::Inapp)
    } else {
        None
    }
}

/// What the SKU metadata denotes: an object whose `type` field names a
/// known SKU type. Any other value is rejected, never defaulted.
pub open spec fn spec_parse_sku_details(s: Seq<char>) -> Option<SkuType> {
    match spec_parse_object(s) {
        Some(l) => match spec_req_str(l, "type"@) {
            Some(t) => spec_sku_type_of(t),
            None => None,
        },
        None => None,
    }
}

/// The parameters of the verification request, as found in the payload's
/// `json` field.
#[derive(Clone, Debug)]
pub struct GooglePlayDataJson {
    /// The package name of the application.
    pub package_name: String,
    /// The product SKU.
    pub product_id: String,
    /// The purchase token.
    pub token: String,
    /// Whether the purchase has been acknowledged.
    pub acknowledged: bool,
    /// Whether the subscription renews automatically.
    pub auto_renewing: Option<bool>,
    /// When the purchase was made, in milliseconds since the epoch.
    pub purchase_time: i64,
    /// The order id.
    pub order_id: String,
    /// The purchase state as the payload reports it.
    pub purchase_state: i64,
}

/// The mathematical content of a `GooglePlayDataJson`.
pub struct GooglePlayDataJsonV {
    /// The package name of the application.
    pub package_name: Seq<char>,
    /// The product SKU.
    pub product_id: Seq<char>,
    /// The purchase token.
    pub token: Seq<char>,
    /// Whether the purchase has been acknowledged.
    pub acknowledged: bool,
    /// Whether the subscription renews automatically.
    pub auto_renewing: Option<bool>,
    /// When the purchase was made.
    pub purchase_time: int,
    /// The order id.
    pub order_id: Seq<char>,
    /// The purchase state as the payload reports it.
    pub purchase_state: int,
}

impl View for GooglePlayDataJson {
    type V = GooglePlayDataJsonV;

    open spec fn view(&self) -> GooglePlayDataJsonV {
        GooglePlayDataJsonV {
            package_name: self.package_name@,
            product_id: self.product_id@,
            token: self.token@,
            acknowledged: self.acknowledged,
            auto_renewing: self.auto_renewing,
            purchase_time: self.purchase_time as int,
            order_id: self.order_id@,
            purchase_state: self.purchase_state as int,
        }
    }
}

/// What the request-parameter JSON denotes.
pub open spec fn spec_play_json_of_members(l: Seq<(Seq<char>, PrimV)>) -> Option<
    GooglePlayDataJsonV,
> {
    match (spec_req_str(l, "packageName"@), spec_req_str(l, "productId"@), spec_req_str(
        l,
        "purchaseToken"@,
    ), spec_req_bool(l, "acknowledged"@), spec_opt_bool(l, "autoRenewing"@), spec_req_i64(
        l,
        "purchaseTime"@,
    ), spec_req_str(l, "orderId"@), spec_req_i64(l, "purchaseState"@)) {
        (
            Some(pkg),
            Some(pid),
            Some(tok),
            Some(ack),
            Some(ar),
            Some(pt),
            Some(oid),
            Some(ps),
        ) => Some(
            GooglePlayDataJsonV {
                package_name: pkg,
                product_id: pid,
                token: tok,
                acknowledged: ack,
                auto_renewing: ar,
                purchase_time: pt,
                order_id: oid,
                purchase_state: ps,
            },
        ),
        _ => None,
    }
}

/// The request parameters denoted by the JSON text `s`, if well-formed.
pub open spec fn spec_parse_play_json(s: Seq<char>) -> Option<GooglePlayDataJsonV> {
    match spec_parse_object(s) {
        Some(l) => spec_play_json_of_members(l),
        None => None,
    }
}

/// The verification request URI for the decoded purchase: subscriptions
/// and one-time products are looked up under different path segments.
pub open spec fn spec_google_uri(pj: GooglePlayDataJsonV, sku: SkuType) -> Seq<char> {
    "https://androidpublisher.googleapis.com/androidpublisher/v3/applications/"@ + pj.package_name
        + "/purchases/"@ + (match sku {
        SkuType::Subs => "subscriptions"@,
        SkuType::Inapp => "products"@,
    }) + "/"@ + pj.product_id + "/tokens/"@ + pj.token
}

impl GooglePlayData {
    /// Decodes the plugin receipt's payload into its three parts.
    pub fn from(payload: &str) -> (r: Result<GooglePlayData, Error>)
        ensures
            match r {
                Ok(data) => spec_parse_play_data(payload@) == Some(data@),
                Err(e) => spec_parse_play_data(payload@) is None && e == Error::DecodeError,
            },
    {
        let chars = str_chars(payload);
        let members = match parse_object(&chars) {
            Some(l) => l,
            None => {
                return Err(Error::DecodeError);
            },
        };
        let json = match req_str(&members, "json") {
            Some(s) => s,
            None => {
                return Err(Error::DecodeError);
            },
        };
        let signature = match req_str(&members, "signature") {
            Some(s) => s,
            None => {
                return Err(Error::DecodeError);
            },
        };
        let sku_details = match req_str(&members, "skuDetails") {
            Some(s) => s,
            None => {
                return Err(Error::DecodeError);
            },
        };
        Ok(GooglePlayData { json, signature, sku_details })
    }

    /// Extracts the SKU metadata, rejecting any unrecognized SKU type.
    pub fn get_sku_details(&self) -> (r: Result<SkuDetails, Error>)
        ensures
            match r {
                Ok(d) => spec_parse_sku_details(self.sku_details@) == Some(d.sku_type),
                Err(e) => spec_parse_sku_details(self.sku_details@) is None && e
                    == Error::DecodeError,
            },
    {
        let chars = str_chars(self.sku_details.as_str());
        let members = match parse_object(&chars) {
            Some(l) => l,
            None => {
                return Err(Error::DecodeError);
            },
        };
        let t = match req_str(&members, "type") {
            Some(s) => s,
            None => {
                return Err(Error::DecodeError);
            },
        };
        let t_chars = str_chars(t.as_str());
        let sku_type = if chars_eq_str(&t_chars, "subs") {
            SkuType::Subs
        } else if chars_eq_str(&t_chars, "inapp") {
            SkuType::Inapp
        } else {
            return Err(Error::DecodeError);
        };
        Ok(SkuDetails { sku_type })
    }

    /// Builds the verification request URI from the parameters in the
    /// `json` field.
    pub fn get_uri(&self, sku_type: &SkuType) -> (r: Result<String, Error>)
        ensures
            match r {
                Ok(u) => spec_parse_play_json(self.json@) matches Some(pj) && u@
                    == spec_google_uri(pj, *sku_type),
                Err(e) => spec_parse_play_json(self.json@) is None && e == Error::DecodeError,
            },
    {
        let pj = match self.parse_play_json() {
            Ok(pj) => pj,
            Err(e) => {
                return Err(e);
            },
        };
        let mut out: Vec<char> = Vec::new();
        push_str_chars(
            &mut out,
            "https://androidpublisher.googleapis.com/androidpublisher/v3/applications/",
        );
        push_str_chars(&mut out, pj.package_name.as_str());
        push_str_chars(&mut out, "/purchases/");
        match sku_type {
            SkuType::Subs => push_str_chars(&mut out, "subscriptions"),
            SkuType::Inapp => push_str_chars(&mut out, "products"),
        }
        push_str_chars(&mut out, "/");
        push_str_chars(&mut out, pj.product_id.as_str());
        push_str_chars(&mut out, "/tokens/");
        push_str_chars(&mut out, pj.token.as_str());
        proof {
            assert(out@ =~= spec_google_uri(spec_parse_play_json(self.json@)->0, *sku_type));
        }
        Ok(chars_to_string(&out))
    }

    /// Decodes the request parameters held in the `json` field.
    pub fn parse_play_json(&self) -> (r: Result<GooglePlayDataJson, Error>)
        ensures
            match r {
                Ok(pj) => spec_parse_play_json(self.json@) == Some(pj@),
                Err(e) => spec_parse_play_json(self.json@) is None && e == Error::DecodeError,
            },
    {
        let chars = str_chars(self.json.as_str());
        let members = match parse_object(&chars) {
            Some(l) => l,
            None => {
                return Err(Error::DecodeError);
            },
        };
        let package_name = match req_str(&members, "packageName") {
            Some(s) => s,
            None => {
                return Err(Error::DecodeError);
            },
        };
        let product_id = match req_str(&members, "productId") {
            Some(s) => s,
            None => {
                return Err(Error::DecodeError);
            },
        };
        let token = match req_str(&members, "purchaseToken") {
            Some(s) => s,
            None => {
                return Err(Error::DecodeError);
            },
        };
        let acknowledged = match req_bool(&members, "acknowledged") {
            Some(b) => b,
            None => {
                return Err(Error::DecodeError);
            },
        };
        let auto_renewing = match opt_bool(&members, "autoRenewing") {
            Some(o) => o,
            None => {
                return Err(Error::DecodeError);
            },
        };
        let purchase_time = match req_i64(&members, "purchaseTime") {
            Some(x) => x,
            None => {
                return Err(Error::DecodeError);
            },
        };
        let order_id = match req_str(&members, "orderId") {
            Some(s) => s,
            None => {
                return Err(Error::DecodeError);
            },
        };
        let purchase_state = match req_i64(&members, "purchaseState") {
            Some(x) => x,
            None => {
                return Err(Error::DecodeError);
            },
        };
        Ok(
            GooglePlayDataJson {
                package_name,
                product_id,
                token,
                acknowledged,
                auto_renewing,
                purchase_time,
                order_id,
                purchase_state,
            },
        )
    }
}

/// The URI actually fetched: the derived URI when a credential is at hand,
/// and a distinct `/test` path when running without one, so that test
/// doubles can tell the two apart.
pub fn google_request_uri(uri: &str, authenticated: bool) -> (r: String)
    ensures
        authenticated ==> r@ == uri@,
        !authenticated ==> r@ == uri@ + "/test"@,
{
    if authenticated {
        let mut out: Vec<char> = Vec::new();
        push_str_chars(&mut out, uri);
        proof {
            assert(out@ =~= uri@);
        }
        chars_to_string(&out)
    } else {
        let mut out: Vec<char> = Vec::new();
        push_str_chars(&mut out, uri);
        push_str_chars(&mut out, "/test");
        chars_to_string(&out)
    }
}

/// Whether a subscription response reports an expiry after `now`: the
/// expiry must be present, parse as a decimal integer, and exceed `now`
/// strictly.
pub open spec fn spec_google_subscription_valid(resp: GoogleResponseV, now_ms: int) -> bool {
    match resp.expiry_time {
        Some(s) => match parse_decimal_i64(s) {
            Some(v) => v > now_ms,
            None => false,
        },
        None => false,
    }
}

/// Evaluates a subscription response against the reference time `now_ms`:
/// valid exactly when the expiry is present, parses, and lies strictly
/// after `now_ms`. A missing or unparsable expiry yields an invalid
/// verdict, never an error.
pub fn validate_google_subscription(response: &GoogleResponse, now_ms: i64) -> (r:
    PurchaseResponse)
    ensures
        r@.valid == spec_google_subscription_valid(response@, now_ms as int),
        r@.product_id == response@.product_id,
{
    let valid = match &response.expiry_time {
        Some(s) => {
            let chars = str_chars(s.as_str());
            match decimal_i64_chars(&chars) {
                Some(v) => v > now_ms,
                None => false,
            }
        },
        None => false,
    };
    PurchaseResponse { valid, product_id: response.product_id.clone() }
}

/// Evaluates a one-time-product response: valid exactly when the purchase
/// state is 0 ("purchased"); 1 ("canceled") and 2 ("pending") are not.
pub fn validate_google_package(response: &GoogleResponse) -> (r: PurchaseResponse)
    ensures
        r@.valid == (response@.purchase_state == Some(0int)),
        r@.product_id == response@.product_id,
{
    let valid = match response.purchase_state {
        Some(s) => s == 0,
        None => false,
    };
    PurchaseResponse { valid, product_id: response.product_id.clone() }
}

/// Whether two responses agree on everything but the product id.
pub open spec fn same_but_product_id(a: GoogleResponseV, b: GoogleResponseV) -> bool {
    a.expiry_time == b.expiry_time && a.price_currency_code == b.price_currency_code
        && a.price_amount_micros == b.price_amount_micros && a.order_id == b.order_id
        && a.purchase_type == b.purchase_type && a.purchase_state == b.purchase_state
}

/// Fills a missing product id in a parsed response from the decoded
/// payload's metadata, as the store does not always echo it back.
pub fn backfill_product_id(response: GoogleResponse, data: Option<&GooglePlayData>) -> (r: Result<
    GoogleResponse,
    Error,
>)
    ensures
        match r {
            Ok(out) => same_but_product_id(out@, response@) && (match response@.product_id {
                Some(p) => out@.product_id == Some(p),
                None => match data {
                    Some(d) => (spec_parse_play_json(d.json@) matches Some(pj) && out@.product_id
                        == Some(pj.product_id)),
                    None => out@.product_id is None,
                },
            }),
            Err(e) => response@.product_id is None && (data matches Some(d)
                && spec_parse_play_json(d.json@) is None) && e == Error::DecodeError,
        },
{
    if response.product_id.is_some() {
        return Ok(response);
    }
    match data {
        Some(d) => {
            let pj = match d.parse_play_json() {
                Ok(pj) => pj,
                Err(e) => {
                    return Err(e);
                },
            };
            let mut out = response;
            out.product_id = Some(pj.product_id);
            Ok(out)
        },
        None => Ok(response),
    }
}

/// The verdict for a parsed Store B response: the subscription rule or the
/// one-time-product rule, chosen by the decoded SKU type.
pub open spec fn spec_google_verdict(resp: GoogleResponseV, sku: SkuType, now: int) -> crate::receipt::PurchaseResponseV {
    match sku {
        SkuType::Subs => crate::receipt::PurchaseResponseV {
            valid: spec_google_subscription_valid(resp, now),
            product_id: resp.product_id,
        },
        SkuType::Inapp => crate::receipt::PurchaseResponseV {
            valid: resp.purchase_state == Some(0int),
            product_id: resp.product_id,
        },
    }
}

/// Computes the verdict for a parsed Store B response against the
/// reference time `now_ms`.
pub fn validate_google_response(response: &GoogleResponse, sku_type: SkuType, now_ms: i64) -> (r:
    PurchaseResponse)
    ensures
        r@ == spec_google_verdict(response@, sku_type, now_ms as int),
{
    match sku_type {
        SkuType::Subs => validate_google_subscription(response, now_ms),
        SkuType::Inapp => validate_google_package(response),
    }
}

/// A one-time product is valid exactly in purchase state 0 ("purchased");
/// states 1 ("canceled") and 2 ("pending") are invalid.
pub proof fn lemma_google_package_state(resp: GoogleResponseV, now: int)
    ensures
        spec_google_verdict(resp, SkuType::Inapp, now).valid <==> resp.purchase_state == Some(
            0int,
        ),
{
}

/// A subscription whose expiry is missing or unparsable is judged invalid,
/// never an error.
pub proof fn lemma_google_unparsable_expiry_invalid(resp: GoogleResponseV, now: int)
    requires
        match resp.expiry_time {
            Some(s) => parse_decimal_i64(s) is None,
            None => true,
        },
    ensures
        !spec_google_verdict(resp, SkuType::Subs, now).valid,
{
}

/// Only the two documented SKU type names are accepted; every other value
/// is a decode failure, never defaulted to a guess.
pub proof fn lemma_sku_type_closed(t: Seq<char>)
    ensures
        spec_sku_type_of(t) is Some <==> (t == "subs"@ || t == "inapp"@),
{
}

} // verus!
