//! The Store A (Apple-App-Store-like) side: the verification request and
//! its endpoints, the response shape with its nested transaction records,
//! the sandbox-fallback rule, and the verdict evaluators.

use vstd::prelude::*;

use crate::error::Error;
use crate::json::members_view;
use crate::json::object_at;
use crate::json::spec_object_at;
use crate::json::spec_skip_ws;
use crate::json::skip_ws;
use crate::json::spec_req_str;
use crate::json::spec_opt_str;
use crate::json::req_str;
use crate::json::opt_str;
use crate::json::spec_quote;
use crate::json::push_quoted;
use crate::json::PrimV;
use crate::receipt::PurchaseResponse;
use crate::receipt::PurchaseResponseV;
use crate::receipt::UnityPurchaseReceipt;
use crate::text::chars_to_string;
use crate::text::decimal_i64_chars;
use crate::text::parse_decimal_i64;
use crate::text::push_str_chars;
use crate::text::str_chars;
use crate::text::str_eq;
use crate::text::view_opt_str;

verus! {

/// The production and sandbox verification endpoints. Verification is
/// first attempted against production; when production reports a test
/// receipt, it is retried once against the sandbox.
#[derive(Clone, Copy, Debug)]
pub struct AppleUrls<'a> {
    /// The production endpoint.
    pub production: &'a str,
    /// The sandbox endpoint.
    pub sandbox: &'a str,
}

impl Default for AppleUrls<'_> {
    /// The store's documented endpoints.
    fn default() -> (r: Self)
        ensures
            r.production@ == "https://buy.itunes.apple.com"@,
            r.sandbox@ == "https://sandbox.itunes.apple.com"@,
    {
        AppleUrls {
            production: "https://buy.itunes.apple.com",
            sandbox: "https://sandbox.itunes.apple.com",
        }
    }
}

/// The body of a verification request: the receipt blob and the shared
/// secret.
#[derive(Clone, Debug)]
pub struct AppleRequest {
    /// The receipt blob, sent as the `receipt-data` field.
    pub receipt_data: String,
    /// The shared secret, sent as the `password` field.
    pub password: String,
}

/// The mathematical content of an `AppleRequest`.
pub struct AppleRequestV {
    /// The receipt blob.
    pub receipt_data: Seq<char>,
    /// The shared secret.
    pub password: Seq<char>,
}

impl View for AppleRequest {
    type V = AppleRequestV;

    open spec fn view(&self) -> AppleRequestV {
        AppleRequestV { receipt_data: self.receipt_data@, password: self.password@ }
    }
}

/// The wire form of a verification request body.
pub open spec fn spec_encode_apple_request(r: AppleRequestV) -> Seq<char> {
    "{\"receipt-data\":"@ + spec_quote(r.receipt_data) + ",\"password\":"@ + spec_quote(r.password)
        + "}"@
}

impl AppleRequest {
    /// Writes the request body in its wire form.
    pub fn to_json(&self) -> (r: String)
        ensures
            r@ == spec_encode_apple_request(self@),
    {
        let mut out: Vec<char> = Vec::new();
        push_str_chars(&mut out, "{\"receipt-data\":");
        push_quoted(&mut out, self.receipt_data.as_str());
        push_str_chars(&mut out, ",\"password\":");
        push_quoted(&mut out, self.password.as_str());
        push_str_chars(&mut out, "}");
        proof {
            assert(out@ =~= spec_encode_apple_request(self@));
        }
        chars_to_string(&out)
    }
}

/// One renewal-history entry of a subscription, from the response's
/// `latest_receipt_info` array.
#[derive(Clone, Debug)]
pub struct AppleLatestReceipt {
    /// The number of items purchased.
    pub quantity: String,
    /// When customer support canceled the transaction, in milliseconds
    /// since the epoch, as a decimal string. Only present for refunds.
    pub cancellation_date_ms: Option<String>,
    /// Why the transaction was canceled.
    pub cancellation_reason: Option<String>,
    /// When the subscription expires or renews, in milliseconds since the
    /// epoch, as a decimal string.
    pub expires_date_ms: String,
    /// The expiry in the store's date format.
    pub expires_date: String,
    /// When the original purchase was made.
    pub original_purchase_date: String,
    /// The product identifier.
    pub product_id: String,
    /// When this transaction was made.
    pub purchase_date: String,
    /// The transaction identifier.
    pub transaction_id: String,
}

/// The mathematical content of an `AppleLatestReceipt`.
pub struct AppleLatestReceiptV {
    /// The number of items purchased.
    pub quantity: Seq<char>,
    /// When customer support canceled the transaction.
    pub cancellation_date_ms: Option<Seq<char>>,
    /// Why the transaction was canceled.
    pub cancellation_reason: Option<Seq<char>>,
    /// When the subscription expires or renews, as a decimal string.
    pub expires_date_ms: Seq<char>,
    /// The expiry in the store's date format.
    pub expires_date: Seq<char>,
    /// When the original purchase was made.
    pub original_purchase_date: Seq<char>,
    /// The product identifier.
    pub product_id: Seq<char>,
    /// When this transaction was made.
    pub purchase_date: Seq<char>,
    /// The transaction identifier.
    pub transaction_id: Seq<char>,
}

impl View for AppleLatestReceipt {
    type V = AppleLatestReceiptV;

    open spec fn view(&self) -> AppleLatestReceiptV {
        AppleLatestReceiptV {
            quantity: self.quantity@,
            cancellation_date_ms: view_opt_str(self.cancellation_date_ms),
            cancellation_reason: view_opt_str(self.cancellation_reason),
            expires_date_ms: self.expires_date_ms@,
            expires_date: self.expires_date@,
            original_purchase_date: self.original_purchase_date@,
            product_id: self.product_id@,
            purchase_date: self.purchase_date@,
            transaction_id: self.transaction_id@,
        }
    }
}

impl Default for AppleLatestReceipt {
    /// An entry with every field empty.
    fn default() -> (r: Self)
        ensures
            r@.quantity.len() == 0,
            r@.cancellation_date_ms is None,
            r@.cancellation_reason is None,
            r@.expires_date_ms.len() == 0,
            r@.expires_date.len() == 0,
            r@.original_purchase_date.len() == 0,
            r@.product_id.len() == 0,
            r@.purchase_date.len() == 0,
            r@.transaction_id.len() == 0,
    {
        AppleLatestReceipt {
            quantity: String::new(),
            cancellation_date_ms: None,
            cancellation_reason: None,
            expires_date_ms: String::new(),
            expires_date: String::new(),
            original_purchase_date: String::new(),
            product_id: String::new(),
            purchase_date: String::new(),
            transaction_id: String::new(),
        }
    }
}

/// One in-app purchase transaction from the response's `receipt.in_app`
/// array.
#[derive(Clone, Debug)]
pub struct AppleInAppReceipt {
    /// The product identifier.
    pub product_id: Option<String>,
    /// The transaction identifier.
    pub transaction_id: Option<String>,
    /// When the subscription expires, as a decimal string; absent for
    /// one-time products.
    pub expires_date_ms: Option<String>,
}

/// The mathematical content of an `AppleInAppReceipt`.
pub struct AppleInAppReceiptV {
    /// The product identifier.
    pub product_id: Option<Seq<char>>,
    /// The transaction identifier.
    pub transaction_id: Option<Seq<char>>,
    /// When the subscription expires; absent for one-time products.
    pub expires_date_ms: Option<Seq<char>>,
}

impl View for AppleInAppReceipt {
    type V = AppleInAppReceiptV;

    open spec fn view(&self) -> AppleInAppReceiptV {
        AppleInAppReceiptV {
            product_id: view_opt_str(self.product_id),
            transaction_id: view_opt_str(self.transaction_id),
            expires_date_ms: view_opt_str(self.expires_date_ms),
        }
    }
}

impl Default for AppleInAppReceipt {
    /// A transaction with every field absent.
    fn default() -> (r: Self)
        ensures
            r@.product_id is None,
            r@.transaction_id is None,
            r@.expires_date_ms is None,
    {
        AppleInAppReceipt { product_id: None, transaction_id: None, expires_date_ms: None }
    }
}

/// The representation of the submitted receipt inside the response.
#[derive(Clone, Debug)]
pub struct AppleReceipt {
    /// The in-app purchase transactions of the receipt.
    pub in_app: Option<Vec<AppleInAppReceipt>>,
}

/// The mathematical content of an `AppleReceipt`.
pub struct AppleReceiptV {
    /// The in-app purchase transactions of the receipt.
    pub in_app: Option<Seq<AppleInAppReceiptV>>,
}

/// The views of a list of transactions.
pub open spec fn in_app_seq_view(l: Seq<AppleInAppReceipt>) -> Seq<AppleInAppReceiptV> {
    l.map(|i: int, x: AppleInAppReceipt| x@)
}

/// The views of a list of renewal-history entries.
pub open spec fn latest_seq_view(l: Seq<AppleLatestReceipt>) -> Seq<AppleLatestReceiptV> {
    l.map(|i: int, x: AppleLatestReceipt| x@)
}

impl View for AppleReceipt {
    type V = AppleReceiptV;

    open spec fn view(&self) -> AppleReceiptV {
        AppleReceiptV {
            in_app: match self.in_app {
                Some(v) => Some(in_app_seq_view(v@)),
                None => None,
            },
        }
    }
}

impl Default for AppleReceipt {
    /// A receipt with no transaction list.
    fn default() -> (r: Self)
        ensures
            r@.in_app is None,
    {
        AppleReceipt { in_app: None }
    }
}

/// The deserialized body of a Store A verification response.
#[derive(Clone, Debug)]
pub struct AppleResponse {
    /// 0 when the receipt is valid, an error code otherwise.
    pub status: i32,
    /// Whether a failed validation may be retried later. Only applicable
    /// to some status codes.
    pub is_retryable: Option<bool>,
    /// The environment for which the receipt was generated: `Sandbox` or
    /// `Production`.
    pub environment: Option<String>,
    /// The latest encoded app receipt; only returned for auto-renewable
    /// subscriptions.
    pub latest_receipt: Option<String>,
    /// All in-app purchase transactions of the subscription; only returned
    /// for auto-renewable subscriptions.
    pub latest_receipt_info: Option<Vec<AppleLatestReceipt>>,
    /// The receipt that was sent for verification.
    pub receipt: Option<AppleReceipt>,
}

/// The mathematical content of an `AppleResponse`.
pub struct AppleResponseV {
    /// 0 when the receipt is valid, an error code otherwise.
    pub status: int,
    /// Whether a failed validation may be retried later.
    pub is_retryable: Option<bool>,
    /// The environment for which the receipt was generated.
    pub environment: Option<Seq<char>>,
    /// The latest encoded app receipt.
    pub latest_receipt: Option<Seq<char>>,
    /// All in-app purchase transactions of the subscription.
    pub latest_receipt_info: Option<Seq<AppleLatestReceiptV>>,
    /// The receipt that was sent for verification.
    pub receipt: Option<AppleReceiptV>,
}

impl View for AppleResponse {
    type V = AppleResponseV;

    open spec fn view(&self) -> AppleResponseV {
        AppleResponseV {
            status: self.status as int,
            is_retryable: self.is_retryable,
            environment: view_opt_str(self.environment),
            latest_receipt: view_opt_str(self.latest_receipt),
            latest_receipt_info: match self.latest_receipt_info {
                Some(v) => Some(latest_seq_view(v@)),
                None => None,
            },
            receipt: match self.receipt {
                Some(rec) => Some(rec@),
                None => None,
            },
        }
    }
}

impl Default for AppleResponse {
    /// A response with status 0 and nothing else set.
    fn default() -> (r: Self)
        ensures
            r@.status == 0,
            r@.is_retryable is None,
            r@.environment is None,
            r@.latest_receipt is None,
            r@.latest_receipt_info is None,
            r@.receipt is None,
    {
        AppleResponse {
            status: 0,
            is_retryable: None,
            environment: None,
            latest_receipt: None,
            latest_receipt_info: None,
            receipt: None,
        }
    }
}

// ---------------------------------------------------------------------------
// Parsing the response body
// ---------------------------------------------------------------------------

/// What a renewal-history entry's wire format denotes.
pub open spec fn spec_latest_of_members(l: Seq<(Seq<char>, PrimV)>) -> Option<
    AppleLatestReceiptV,
> {
    match (spec_req_str(l, "quantity"@), spec_opt_str(l, "cancellation_date_ms"@), spec_opt_str(
        l,
        "cancellation_reason"@,
    ), spec_req_str(l, "expires_date_ms"@), spec_req_str(l, "expires_date"@), spec_req_str(
        l,
        "original_purchase_date"@,
    ), spec_req_str(l, "product_id"@), spec_req_str(l, "purchase_date"@), spec_req_str(
        l,
        "transaction_id"@,
    )) {
        (
            Some(q),
            Some(cdm),
            Some(cr),
            Some(edm),
            Some(ed),
            Some(opd),
            Some(pid),
            Some(pd),
            Some(tid),
        ) => Some(
            AppleLatestReceiptV {
                quantity: q,
                cancellation_date_ms: cdm,
                cancellation_reason: cr,
                expires_date_ms: edm,
                expires_date: ed,
                original_purchase_date: opd,
                product_id: pid,
                purchase_date: pd,
                transaction_id: tid,
            },
        ),
        _ => None,
    }
}

/// What a transaction's wire format denotes.
pub open spec fn spec_in_app_of_members(l: Seq<(Seq<char>, PrimV)>) -> Option<AppleInAppReceiptV> {
    match (spec_opt_str(l, "product_id"@), spec_opt_str(l, "transaction_id"@), spec_opt_str(
        l,
        "expires_date_ms"@,
    )) {
        (Some(pid), Some(tid), Some(edm)) => Some(
            AppleInAppReceiptV { product_id: pid, transaction_id: tid, expires_date_ms: edm },
        ),
        _ => None,
    }
}

/// Reads one renewal-history entry from a parsed object.
fn latest_from_members(members: &Vec<(Vec<char>, crate::json::Prim)>) -> (r: Option<
    AppleLatestReceipt,
>)
    ensures
        match r {
            Some(x) => spec_latest_of_members(members_view(members@)) == Some(x@),
            None => spec_latest_of_members(members_view(members@)) is None,
        },
{
    let quantity = match req_str(members, "quantity") {
        Some(s) => s,
        None => {
            return None;
        },
    };
    let cancellation_date_ms = match opt_str(members, "cancellation_date_ms") {
        Some(o) => o,
        None => {
            return None;
        },
    };
    let cancellation_reason = match opt_str(members, "cancellation_reason") {
        Some(o) => o,
        None => {
            return None;
        },
    };
    let expires_date_ms = match req_str(members, "expires_date_ms") {
        Some(s) => s,
        None => {
            return None;
        },
    };
    let expires_date = match req_str(members, "expires_date") {
        Some(s) => s,
        None => {
            return None;
        },
    };
    let original_purchase_date = match req_str(members, "original_purchase_date") {
        Some(s) => s,
        None => {
            return None;
        },
    };
    let product_id = match req_str(members, "product_id") {
        Some(s) => s,
        None => {
            return None;
        },
    };
    let purchase_date = match req_str(members, "purchase_date") {
        Some(s) => s,
        None => {
            return None;
        },
    };
    let transaction_id = match req_str(members, "transaction_id") {
        Some(s) => s,
        None => {
            return None;
        },
    };
    Some(
        AppleLatestReceipt {
            quantity,
            cancellation_date_ms,
            cancellation_reason,
            expires_date_ms,
            expires_date,
            original_purchase_date,
            product_id,
            purchase_date,
            transaction_id,
        },
    )
}

/// Reads one transaction from a parsed object.
fn in_app_from_members(members: &Vec<(Vec<char>, crate::json::Prim)>) -> (r: Option<
    AppleInAppReceipt,
>)
    ensures
        match r {
            Some(x) => spec_in_app_of_members(members_view(members@)) == Some(x@),
            None => spec_in_app_of_members(members_view(members@)) is None,
        },
{
    let product_id = match opt_str(members, "product_id") {
        Some(o) => o,
        None => {
            return None;
        },
    };
    let transaction_id = match opt_str(members, "transaction_id") {
        Some(o) => o,
        None => {
            return None;
        },
    };
    let expires_date_ms = match opt_str(members, "expires_date_ms") {
        Some(o) => o,
        None => {
            return None;
        },
    };
    Some(AppleInAppReceipt { product_id, transaction_id, expires_date_ms })
}

/// Parses the elements of a `latest_receipt_info` array: `i` is just past
/// the `[` or a `,`.
pub open spec fn spec_latest_array_rest(s: Seq<char>, i: int) -> Option<
    (Seq<AppleLatestReceiptV>, int),
>
    decreases s.len() - i,
{
    if !(0 <= i <= s.len()) {
        None
    } else {
        let j = spec_skip_ws(s, i);
        if !(i <= j <= s.len()) {
            None
        } else {
            match spec_object_at(s, j) {
                Some(ol) => {
                    if !(j < ol.1 <= s.len()) {
                        None
                    } else {
                        match spec_latest_of_members(ol.0) {
                            Some(rec) => {
                                let w = spec_skip_ws(s, ol.1);
                                if !(ol.1 <= w <= s.len()) {
                                    None
                                } else if w < s.len() && s[w] == ']' {
                                    Some((seq![rec], w + 1))
                                } else if w < s.len() && s[w] == ',' {
                                    match spec_latest_array_rest(s, w + 1) {
                                        Some(rr) => Some((seq![rec] + rr.0, rr.1)),
                                        None => None,
                                    }
                                } else {
                                    None
                                }
                            },
                            None => None,
                        }
                    }
                },
                None => None,
            }
        }
    }
}

/// Parses the elements of an `in_app` array: `i` is just past the `[` or
/// a `,`.
pub open spec fn spec_in_app_array_rest(s: Seq<char>, i: int) -> Option<
    (Seq<AppleInAppReceiptV>, int),
>
    decreases s.len() - i,
{
    if !(0 <= i <= s.len()) {
        None
    } else {
        let j = spec_skip_ws(s, i);
        if !(i <= j <= s.len()) {
            None
        } else {
            match spec_object_at(s, j) {
                Some(ol) => {
                    if !(j < ol.1 <= s.len()) {
                        None
                    } else {
                        match spec_in_app_of_members(ol.0) {
                            Some(rec) => {
                                let w = spec_skip_ws(s, ol.1);
                                if !(ol.1 <= w <= s.len()) {
                                    None
                                } else if w < s.len() && s[w] == ']' {
                                    Some((seq![rec], w + 1))
                                } else if w < s.len() && s[w] == ',' {
                                    match spec_in_app_array_rest(s, w + 1) {
                                        Some(rr) => Some((seq![rec] + rr.0, rr.1)),
                                        None => None,
                                    }
                                } else {
                                    None
                                }
                            },
                            None => None,
                        }
                    }
                },
                None => None,
            }
        }
    }
}

/// Prepends `acc` to an array parse result.
pub open spec fn latest_step(
    acc: Seq<AppleLatestReceiptV>,
    r: Option<(Seq<AppleLatestReceiptV>, int)>,
) -> Option<(Seq<AppleLatestReceiptV>, int)> {
    match r {
        Some(p) => Some((acc + p.0, p.1)),
        None => None,
    }
}

/// Prepends `acc` to an array parse result.
pub open spec fn in_app_step(
    acc: Seq<AppleInAppReceiptV>,
    r: Option<(Seq<AppleInAppReceiptV>, int)>,
) -> Option<(Seq<AppleInAppReceiptV>, int)> {
    match r {
        Some(p) => Some((acc + p.0, p.1)),
        None => None,
    }
}

/// Parses the elements of a `latest_receipt_info` array.
fn parse_latest_array_rest(v: &Vec<char>, start: usize) -> (r: Option<
    (Vec<AppleLatestReceipt>, usize),
>)
    requires
        start <= v@.len(),
    ensures
        match r {
            Some(p) => spec_latest_array_rest(v@, start as int) == Some(
                (latest_seq_view(p.0@), p.1 as int),
            ) && start < p.1 <= v@.len(),
            None => spec_latest_array_rest(v@, start as int) is None,
        },
{
    let n = v.len();
    let mut i = start;
    let mut acc: Vec<AppleLatestReceipt> = Vec::new();
    proof {
        assert(latest_seq_view(acc@) =~= Seq::<AppleLatestReceiptV>::empty());
    }
    loop
        invariant
            start <= i <= n,
            n == v@.len(),
            spec_latest_array_rest(v@, start as int) == latest_step(
                latest_seq_view(acc@),
                spec_latest_array_rest(v@, i as int),
            ),
        decreases n - i,
    {
        let j = skip_ws(v, i);
        let (members, k) = match object_at(v, j) {
            Some(p) => p,
            None => {
                return None;
            },
        };
        let rec = match latest_from_members(&members) {
            Some(x) => x,
            None => {
                return None;
            },
        };
        let w = skip_ws(v, k);
        proof {
            assert(latest_seq_view(acc@.push(rec)) =~= latest_seq_view(acc@) + seq![rec@]);
        }
        if w < n && crate::text::char_eq(v[w], ']') {
            proof {
                assert(spec_latest_array_rest(v@, i as int) == Some((seq![rec@], w as int + 1)));
                assert(latest_seq_view(acc@) + seq![rec@] =~= latest_seq_view(acc@.push(rec)));
            }
            acc.push(rec);
            return Some((acc, w + 1));
        } else if w < n && crate::text::char_eq(v[w], ',') {
            proof {
                let ghost rnext = spec_latest_array_rest(v@, w as int + 1);
                assert(spec_latest_array_rest(v@, i as int) == latest_step(seq![rec@], rnext));
                if rnext is Some {
                    assert(latest_seq_view(acc@.push(rec)) + (rnext->0).0 =~= latest_seq_view(acc@)
                        + (seq![rec@] + (rnext->0).0));
                }
            }
            acc.push(rec);
            i = w + 1;
        } else {
            return None;
        }
    }
}

/// Parses the elements of an `in_app` array.
fn parse_in_app_array_rest(v: &Vec<char>, start: usize) -> (r: Option<
    (Vec<AppleInAppReceipt>, usize),
>)
    requires
        start <= v@.len(),
    ensures
        match r {
            Some(p) => spec_in_app_array_rest(v@, start as int) == Some(
                (in_app_seq_view(p.0@), p.1 as int),
            ) && start < p.1 <= v@.len(),
            None => spec_in_app_array_rest(v@, start as int) is None,
        },
{
    let n = v.len();
    let mut i = start;
    let mut acc: Vec<AppleInAppReceipt> = Vec::new();
    proof {
        assert(in_app_seq_view(acc@) =~= Seq::<AppleInAppReceiptV>::empty());
    }
    loop
        invariant
            start <= i <= n,
            n == v@.len(),
            spec_in_app_array_rest(v@, start as int) == in_app_step(
                in_app_seq_view(acc@),
                spec_in_app_array_rest(v@, i as int),
            ),
        decreases n - i,
    {
        let j = skip_ws(v, i);
        let (members, k) = match object_at(v, j) {
            Some(p) => p,
            None => {
                return None;
            },
        };
        let rec = match in_app_from_members(&members) {
            Some(x) => x,
            None => {
                return None;
            },
        };
        let w = skip_ws(v, k);
        proof {
            assert(in_app_seq_view(acc@.push(rec)) =~= in_app_seq_view(acc@) + seq![rec@]);
        }
        if w < n && crate::text::char_eq(v[w], ']') {
            proof {
                assert(spec_in_app_array_rest(v@, i as int) == Some((seq![rec@], w as int + 1)));
                assert(in_app_seq_view(acc@) + seq![rec@] =~= in_app_seq_view(acc@.push(rec)));
            }
            acc.push(rec);
            return Some((acc, w + 1));
        } else if w < n && crate::text::char_eq(v[w], ',') {
            proof {
                let ghost rnext = spec_in_app_array_rest(v@, w as int + 1);
                assert(spec_in_app_array_rest(v@, i as int) == in_app_step(seq![rec@], rnext));
                if rnext is Some {
                    assert(in_app_seq_view(acc@.push(rec)) + (rnext->0).0 =~= in_app_seq_view(acc@)
                        + (seq![rec@] + (rnext->0).0));
                }
            }
            acc.push(rec);
            i = w + 1;
        } else {
            return None;
        }
    }
}

/// Parses a string-or-null member value at `p`.
pub open spec fn spec_opt_str_value(s: Seq<char>, p: int) -> Option<(Option<Seq<char>>, int)> {
    if !(0 <= p < s.len()) {
        None
    } else if s[p] == '"' {
        match crate::json::spec_string_body(s, p + 1) {
            Some(q) => Some((Some(q.0), q.1)),
            None => None,
        }
    } else if s[p] == 'n' {
        if crate::json::spec_match_at(s, p, "null"@) {
            Some((None, p + 4))
        } else {
            None
        }
    } else {
        None
    }
}

/// Parses a boolean-or-null member value at `p`.
pub open spec fn spec_opt_bool_value(s: Seq<char>, p: int) -> Option<(Option<bool>, int)> {
    if !(0 <= p < s.len()) {
        None
    } else if s[p] == 't' {
        if crate::json::spec_match_at(s, p, "true"@) {
            Some((Some(true), p + 4))
        } else {
            None
        }
    } else if s[p] == 'f' {
        if crate::json::spec_match_at(s, p, "false"@) {
            Some((Some(false), p + 5))
        } else {
            None
        }
    } else if s[p] == 'n' {
        if crate::json::spec_match_at(s, p, "null"@) {
            Some((None, p + 4))
        } else {
            None
        }
    } else {
        None
    }
}

/// Parses an integer member value that must fit in `i32`.
pub open spec fn spec_i32_value(s: Seq<char>, p: int) -> Option<(int, int)> {
    match crate::json::spec_parse_int(s, p) {
        Some(x) => if i32::MIN <= x.0 <= i32::MAX {
            Some(x)
        } else {
            None
        },
        None => None,
    }
}

/// Parses an array-of-renewal-entries-or-null member value at `p`.
pub open spec fn spec_latest_value(s: Seq<char>, p: int) -> Option<
    (Option<Seq<AppleLatestReceiptV>>, int),
> {
    if !(0 <= p < s.len()) {
        None
    } else if s[p] == 'n' {
        if crate::json::spec_match_at(s, p, "null"@) {
            Some((None, p + 4))
        } else {
            None
        }
    } else if s[p] == '[' {
        let j = spec_skip_ws(s, p + 1);
        if !(p + 1 <= j <= s.len()) {
            None
        } else if j < s.len() && s[j] == ']' {
            Some((Some(Seq::empty()), j + 1))
        } else {
            match spec_latest_array_rest(s, p + 1) {
                Some(ar) => Some((Some(ar.0), ar.1)),
                None => None,
            }
        }
    } else {
        None
    }
}

/// Parses the members of a `receipt` object: `i` is just past the `{` or a
/// `,`; `f` holds the transactions found so far.
pub open spec fn spec_receipt_members(s: Seq<char>, i: int, f: Option<Seq<AppleInAppReceiptV>>) -> Option<
    (Option<Seq<AppleInAppReceiptV>>, int),
>
    decreases s.len() - i,
{
    if !(0 <= i <= s.len()) {
        None
    } else {
        let j = spec_skip_ws(s, i);
        if !(i <= j <= s.len()) {
            None
        } else if j < s.len() && s[j] == '"' {
            match crate::json::spec_string_body(s, j + 1) {
                Some(q) => {
                    let key = q.0;
                    let k = q.1;
                    if !(j + 1 < k <= s.len()) {
                        None
                    } else {
                        let m = spec_skip_ws(s, k);
                        if !(k <= m <= s.len()) {
                            None
                        } else if m < s.len() && s[m] == ':' {
                            let p = spec_skip_ws(s, m + 1);
                            if !(m + 1 <= p <= s.len()) {
                                None
                            } else {
                                match spec_receipt_field(s, p, key, f) {
                                    Some(fv) => {
                                        if !(p < fv.1 <= s.len()) {
                                            None
                                        } else {
                                            let w = spec_skip_ws(s, fv.1);
                                            if !(fv.1 <= w <= s.len()) {
                                                None
                                            } else if w < s.len() && s[w] == '}' {
                                                Some((fv.0, w + 1))
                                            } else if w < s.len() && s[w] == ',' {
                                                spec_receipt_members(s, w + 1, fv.0)
                                            } else {
                                                None
                                            }
                                        }
                                    },
                                    None => None,
                                }
                            }
                        } else {
                            None
                        }
                    }
                },
                None => None,
            }
        } else {
            None
        }
    }
}

/// Parses one member value of a `receipt` object, keyed by name.
pub open spec fn spec_receipt_field(
    s: Seq<char>,
    p: int,
    key: Seq<char>,
    f: Option<Seq<AppleInAppReceiptV>>,
) -> Option<(Option<Seq<AppleInAppReceiptV>>, int)> {
    if key == "in_app"@ {
        if !(0 <= p < s.len()) {
            None
        } else if s[p] == 'n' {
            if crate::json::spec_match_at(s, p, "null"@) {
                Some((None, p + 4))
            } else {
                None
            }
        } else if s[p] == '[' {
            let j = spec_skip_ws(s, p + 1);
            if !(p + 1 <= j <= s.len()) {
                None
            } else if j < s.len() && s[j] == ']' {
                Some((Some(Seq::empty()), j + 1))
            } else {
                match spec_in_app_array_rest(s, p + 1) {
                    Some(ar) => Some((Some(ar.0), ar.1)),
                    None => None,
                }
            }
        } else {
            None
        }
    } else {
        match crate::json::spec_skip_value(s, p) {
            Some(q) => Some((f, q)),
            None => None,
        }
    }
}

/// Parses a `receipt` object at `i`.
pub open spec fn spec_apple_receipt_at(s: Seq<char>, i: int) -> Option<(AppleReceiptV, int)> {
    if 0 <= i < s.len() && s[i] == '{' {
        let j = spec_skip_ws(s, i + 1);
        if !(i + 1 <= j <= s.len()) {
            None
        } else if j < s.len() && s[j] == '}' {
            Some((AppleReceiptV { in_app: None }, j + 1))
        } else {
            match spec_receipt_members(s, i + 1, None) {
                Some(p) => Some((AppleReceiptV { in_app: p.0 }, p.1)),
                None => None,
            }
        }
    } else {
        None
    }
}

/// Parses a string-or-null member value at `p`.
fn parse_opt_str_value(v: &Vec<char>, p: usize) -> (r: Option<(Option<String>, usize)>)
    requires
        p <= v@.len(),
    ensures
        match r {
            Some(oq) => spec_opt_str_value(v@, p as int) == Some(
                (view_opt_str(oq.0), oq.1 as int),
            ) && p < oq.1 <= v@.len(),
            None => spec_opt_str_value(v@, p as int) is None,
        },
{
    let n = v.len();
    if p >= n {
        return None;
    }
    let c = v[p];
    let cu = c as u32;
    proof {
        vstd::utf8::char_u32_cast(c, cu);
    }
    if cu == 34 {
        match crate::json::parse_string_body(v, p + 1) {
            Some(cj) => Some((Some(chars_to_string(&cj.0)), cj.1)),
            None => None,
        }
    } else if cu == 110 {
        proof {
            reveal_strlit("null");
        }
        if crate::json::match_at(v, p, "null") {
            Some((None, p + 4))
        } else {
            None
        }
    } else {
        None
    }
}

/// Parses a boolean-or-null member value at `p`.
fn parse_opt_bool_value(v: &Vec<char>, p: usize) -> (r: Option<(Option<bool>, usize)>)
    requires
        p <= v@.len(),
    ensures
        match r {
            Some(oq) => spec_opt_bool_value(v@, p as int) == Some((oq.0, oq.1 as int)) && p < oq.1
                <= v@.len(),
            None => spec_opt_bool_value(v@, p as int) is None,
        },
{
    let n = v.len();
    if p >= n {
        return None;
    }
    let c = v[p];
    let cu = c as u32;
    proof {
        vstd::utf8::char_u32_cast(c, cu);
    }
    if cu == 116 {
        proof {
            reveal_strlit("true");
        }
        if crate::json::match_at(v, p, "true") {
            Some((Some(true), p + 4))
        } else {
            None
        }
    } else if cu == 102 {
        proof {
            reveal_strlit("false");
        }
        if crate::json::match_at(v, p, "false") {
            Some((Some(false), p + 5))
        } else {
            None
        }
    } else if cu == 110 {
        proof {
            reveal_strlit("null");
        }
        if crate::json::match_at(v, p, "null") {
            Some((None, p + 4))
        } else {
            None
        }
    } else {
        None
    }
}

/// Parses an integer member value that must fit in `i32`.
fn parse_i32_value(v: &Vec<char>, p: usize) -> (r: Option<(i32, usize)>)
    requires
        p <= v@.len(),
    ensures
        match r {
            Some(xq) => spec_i32_value(v@, p as int) == Some((xq.0 as int, xq.1 as int)) && p
                < xq.1 <= v@.len(),
            None => spec_i32_value(v@, p as int) is None,
        },
{
    match crate::json::parse_int(v, p) {
        Some(xq) => {
            if i32::MIN as i64 <= xq.0 && xq.0 <= i32::MAX as i64 {
                Some((xq.0 as i32, xq.1))
            } else {
                None
            }
        },
        None => None,
    }
}

/// Parses an array-of-renewal-entries-or-null member value at `p`.
fn parse_latest_value(v: &Vec<char>, p: usize) -> (r: Option<
    (Option<Vec<AppleLatestReceipt>>, usize),
>)
    requires
        p <= v@.len(),
    ensures
        match r {
            Some(oq) => spec_latest_value(v@, p as int) == Some(
                (
                    match oq.0 {
                        Some(l) => Some(latest_seq_view(l@)),
                        None => None,
                    },
                    oq.1 as int,
                ),
            ) && p < oq.1 <= v@.len(),
            None => spec_latest_value(v@, p as int) is None,
        },
{
    let n = v.len();
    if p >= n {
        return None;
    }
    let c = v[p];
    let cu = c as u32;
    proof {
        vstd::utf8::char_u32_cast(c, cu);
    }
    if cu == 110 {
        proof {
            reveal_strlit("null");
        }
        if crate::json::match_at(v, p, "null") {
            Some((None, p + 4))
        } else {
            None
        }
    } else if cu == 91 {
        let j = skip_ws(v, p + 1);
        if j < n && crate::text::char_eq(v[j], ']') {
            let acc: Vec<AppleLatestReceipt> = Vec::new();
            proof {
                assert(latest_seq_view(acc@) =~= Seq::<AppleLatestReceiptV>::empty());
            }
            Some((Some(acc), j + 1))
        } else {
            match parse_latest_array_rest(v, p + 1) {
                Some(ar) => Some((Some(ar.0), ar.1)),
                None => None,
            }
        }
    } else {
        None
    }
}

/// Parses a `receipt` object at `i`.
fn parse_apple_receipt_at(v: &Vec<char>, i: usize) -> (r: Option<(AppleReceipt, usize)>)
    requires
        i <= v@.len(),
    ensures
        match r {
            Some(oq) => spec_apple_receipt_at(v@, i as int) == Some((oq.0@, oq.1 as int)) && i
                < oq.1 <= v@.len(),
            None => spec_apple_receipt_at(v@, i as int) is None,
        },
{
    let n = v.len();
    if !(i < n && crate::text::char_eq(v[i], '{')) {
        return None;
    }
    let j = skip_ws(v, i + 1);
    if j < n && crate::text::char_eq(v[j], '}') {
        return Some((AppleReceipt { in_app: None }, j + 1));
    }
    let mut in_app: Option<Vec<AppleInAppReceipt>> = None;
    let mut cur: usize = i + 1;
    let ghost start = i as int + 1;
    loop
        invariant
            i as int + 1 <= cur <= n,
            n == v@.len(),
            start == i as int + 1,
            spec_receipt_members(v@, start, None) == spec_receipt_members(
                v@,
                cur as int,
                match in_app {
                    Some(l) => Some(in_app_seq_view(l@)),
                    None => None,
                },
            ),
            (match spec_receipt_members(v@, start, None) {
                Some(p) => spec_apple_receipt_at(v@, i as int) == Some(
                    (AppleReceiptV { in_app: p.0 }, p.1),
                ),
                None => spec_apple_receipt_at(v@, i as int) is None,
            }),
        decreases n - cur,
    {
        let j2 = skip_ws(v, cur);
        if !(j2 < n && crate::text::char_eq(v[j2], '"')) {
            return None;
        }
        let (key, k) = match crate::json::parse_string_body(v, j2 + 1) {
            Some(cj) => cj,
            None => {
                return None;
            },
        };
        let m = skip_ws(v, k);
        if !(m < n && crate::text::char_eq(v[m], ':')) {
            return None;
        }
        let p = skip_ws(v, m + 1);
        let q: usize;
        if crate::text::chars_eq_str(&key, "in_app") {
            let n2 = v.len();
            if p >= n2 {
                return None;
            }
            let c = v[p];
            let cu = c as u32;
            proof {
                vstd::utf8::char_u32_cast(c, cu);
            }
            if cu == 110 {
                proof {
                    reveal_strlit("null");
                }
                if crate::json::match_at(v, p, "null") {
                    in_app = None;
                    q = p + 4;
                } else {
                    return None;
                }
            } else if cu == 91 {
                let j3 = skip_ws(v, p + 1);
                if j3 < n2 && crate::text::char_eq(v[j3], ']') {
                    let acc: Vec<AppleInAppReceipt> = Vec::new();
                    proof {
                        assert(in_app_seq_view(acc@) =~= Seq::<AppleInAppReceiptV>::empty());
                    }
                    in_app = Some(acc);
                    q = j3 + 1;
                } else {
                    match parse_in_app_array_rest(v, p + 1) {
                        Some(ar) => {
                            in_app = Some(ar.0);
                            q = ar.1;
                        },
                        None => {
                            return None;
                        },
                    }
                }
            } else {
                return None;
            }
        } else {
            match crate::json::skip_value(v, p) {
                Some(qq) => {
                    q = qq;
                },
                None => {
                    return None;
                },
            }
        }
        let w = skip_ws(v, q);
        if w < n && crate::text::char_eq(v[w], '}') {
            return Some((AppleReceipt { in_app }, w + 1));
        } else if w < n && crate::text::char_eq(v[w], ',') {
            cur = w + 1;
        } else {
            return None;
        }
    }
}

/// The fields of a response as they accumulate while its members are
/// read.
pub struct ApplePartialV {
    /// The status code, once seen.
    pub status: Option<int>,
    /// Whether a failed validation may be retried later.
    pub is_retryable: Option<bool>,
    /// The environment for which the receipt was generated.
    pub environment: Option<Seq<char>>,
    /// The latest encoded app receipt.
    pub latest_receipt: Option<Seq<char>>,
    /// All in-app purchase transactions of the subscription.
    pub latest_receipt_info: Option<Seq<AppleLatestReceiptV>>,
    /// The receipt that was sent for verification.
    pub receipt: Option<AppleReceiptV>,
}

/// The state before any member has been read.
pub open spec fn spec_apple_empty() -> ApplePartialV {
    ApplePartialV {
        status: None,
        is_retryable: None,
        environment: None,
        latest_receipt: None,
        latest_receipt_info: None,
        receipt: None,
    }
}

/// Parses one member value of a response object, keyed by name.
#[verifier::opaque]
pub open spec fn spec_apple_field(s: Seq<char>, p: int, key: Seq<char>, f: ApplePartialV) -> Option<
    (ApplePartialV, int),
> {
    if key == "status"@ {
        match spec_i32_value(s, p) {
            Some(x) => Some(
                (
                    ApplePartialV {
                        status: Some(x.0),
                        is_retryable: f.is_retryable,
                        environment: f.environment,
                        latest_receipt: f.latest_receipt,
                        latest_receipt_info: f.latest_receipt_info,
                        receipt: f.receipt,
                    },
                    x.1,
                ),
            ),
            None => None,
        }
    } else if key == "is-retryable"@ {
        match spec_opt_bool_value(s, p) {
            Some(x) => Some(
                (
                    ApplePartialV {
                        status: f.status,
                        is_retryable: x.0,
                        environment: f.environment,
                        latest_receipt: f.latest_receipt,
                        latest_receipt_info: f.latest_receipt_info,
                        receipt: f.receipt,
                    },
                    x.1,
                ),
            ),
            None => None,
        }
    } else if key == "environment"@ {
        match spec_opt_str_value(s, p) {
            Some(x) => Some(
                (
                    ApplePartialV {
                        status: f.status,
                        is_retryable: f.is_retryable,
                        environment: x.0,
                        latest_receipt: f.latest_receipt,
                        latest_receipt_info: f.latest_receipt_info,
                        receipt: f.receipt,
                    },
                    x.1,
                ),
            ),
            None => None,
        }
    } else if key == "latest_receipt"@ {
        match spec_opt_str_value(s, p) {
            Some(x) => Some(
                (
                    ApplePartialV {
                        status: f.status,
                        is_retryable: f.is_retryable,
                        environment: f.environment,
                        latest_receipt: x.0,
                        latest_receipt_info: f.latest_receipt_info,
                        receipt: f.receipt,
                    },
                    x.1,
                ),
            ),
            None => None,
        }
    } else if key == "latest_receipt_info"@ {
        match spec_latest_value(s, p) {
            Some(x) => Some(
                (
                    ApplePartialV {
                        status: f.status,
                        is_retryable: f.is_retryable,
                        environment: f.environment,
                        latest_receipt: f.latest_receipt,
                        latest_receipt_info: x.0,
                        receipt: f.receipt,
                    },
                    x.1,
                ),
            ),
            None => None,
        }
    } else if key == "receipt"@ {
        if !(0 <= p < s.len()) {
            None
        } else if s[p] == 'n' {
            if crate::json::spec_match_at(s, p, "null"@) {
                Some(
                    (
                        ApplePartialV {
                            status: f.status,
                            is_retryable: f.is_retryable,
                            environment: f.environment,
                            latest_receipt: f.latest_receipt,
                            latest_receipt_info: f.latest_receipt_info,
                            receipt: None,
                        },
                        p + 4,
                    ),
                )
            } else {
                None
            }
        } else {
            match spec_apple_receipt_at(s, p) {
                Some(x) => Some(
                    (
                        ApplePartialV {
                            status: f.status,
                            is_retryable: f.is_retryable,
                            environment: f.environment,
                            latest_receipt: f.latest_receipt,
                            latest_receipt_info: f.latest_receipt_info,
                            receipt: Some(x.0),
                        },
                        x.1,
                    ),
                ),
                None => None,
            }
        }
    } else {
        match crate::json::spec_skip_value(s, p) {
            Some(q) => Some((f, q)),
            None => None,
        }
    }
}

/// Parses the members of a response object: `i` is just past the `{` or a
/// `,`; `f` holds the fields found so far.
pub open spec fn spec_apple_members(s: Seq<char>, i: int, f: ApplePartialV) -> Option<
    (ApplePartialV, int),
>
    decreases s.len() - i,
{
    if !(0 <= i <= s.len()) {
        None
    } else {
        let j = spec_skip_ws(s, i);
        if !(i <= j <= s.len()) {
            None
        } else if j < s.len() && s[j] == '"' {
            match crate::json::spec_string_body(s, j + 1) {
                Some(q) => {
                    let key = q.0;
                    let k = q.1;
                    if !(j + 1 < k <= s.len()) {
                        None
                    } else {
                        let m = spec_skip_ws(s, k);
                        if !(k <= m <= s.len()) {
                            None
                        } else if m < s.len() && s[m] == ':' {
                            let p = spec_skip_ws(s, m + 1);
                            if !(m + 1 <= p <= s.len()) {
                                None
                            } else {
                                match spec_apple_field(s, p, key, f) {
                                    Some(fv) => {
                                        if !(p < fv.1 <= s.len()) {
                                            None
                                        } else {
                                            let w = spec_skip_ws(s, fv.1);
                                            if !(fv.1 <= w <= s.len()) {
                                                None
                                            } else if w < s.len() && s[w] == '}' {
                                                Some((fv.0, w + 1))
                                            } else if w < s.len() && s[w] == ',' {
                                                spec_apple_members(s, w + 1, fv.0)
                                            } else {
                                                None
                                            }
                                        }
                                    },
                                    None => None,
                                }
                            }
                        } else {
                            None
                        }
                    }
                },
                None => None,
            }
        } else {
            None
        }
    }
}

/// Builds a response from its accumulated fields; the status is required.
pub open spec fn spec_apple_finalize(f: ApplePartialV) -> Option<AppleResponseV> {
    match f.status {
        Some(st) => Some(
            AppleResponseV {
                status: st,
                is_retryable: f.is_retryable,
                environment: f.environment,
                latest_receipt: f.latest_receipt,
                latest_receipt_info: f.latest_receipt_info,
                receipt: f.receipt,
            },
        ),
        None => None,
    }
}

/// The response denoted by the JSON text `s`, if it is well-formed.
pub open spec fn spec_parse_apple_response(s: Seq<char>) -> Option<AppleResponseV> {
    let i = spec_skip_ws(s, 0);
    if !(0 <= i < s.len() && s[i] == '{') {
        None
    } else {
        let j = spec_skip_ws(s, i + 1);
        if !(i + 1 <= j <= s.len()) {
            None
        } else {
            let r = if j < s.len() && s[j] == '}' {
                Some((spec_apple_empty(), j + 1))
            } else {
                spec_apple_members(s, i + 1, spec_apple_empty())
            };
            match r {
                Some(p) => if 0 <= p.1 <= s.len() && spec_skip_ws(s, p.1) == s.len() {
                    spec_apple_finalize(p.0)
                } else {
                    None
                },
                None => None,
            }
        }
    }
}

/// The fields of a response as they accumulate while its members are
/// read.
pub struct ApplePartial {
    /// The status code, once seen.
    pub status: Option<i32>,
    /// Whether a failed validation may be retried later.
    pub is_retryable: Option<bool>,
    /// The environment for which the receipt was generated.
    pub environment: Option<String>,
    /// The latest encoded app receipt.
    pub latest_receipt: Option<String>,
    /// All in-app purchase transactions of the subscription.
    pub latest_receipt_info: Option<Vec<AppleLatestReceipt>>,
    /// The receipt that was sent for verification.
    pub receipt: Option<AppleReceipt>,
}

impl View for ApplePartial {
    type V = ApplePartialV;

    open spec fn view(&self) -> ApplePartialV {
        ApplePartialV {
            status: match self.status {
                Some(x) => Some(x as int),
                None => None,
            },
            is_retryable: self.is_retryable,
            environment: view_opt_str(self.environment),
            latest_receipt: view_opt_str(self.latest_receipt),
            latest_receipt_info: match self.latest_receipt_info {
                Some(l) => Some(latest_seq_view(l@)),
                None => None,
            },
            receipt: match self.receipt {
                Some(rc) => Some(rc@),
                None => None,
            },
        }
    }
}

/// Parses one member value of a response object, keyed by name.
fn apple_field(v: &Vec<char>, p: usize, key: &Vec<char>, f: ApplePartial) -> (r: Option<
    (ApplePartial, usize),
>)
    requires
        p <= v@.len(),
    ensures
        match r {
            Some(fq) => spec_apple_field(v@, p as int, key@, f@) == Some((fq.0@, fq.1 as int)) && p
                < fq.1 <= v@.len(),
            None => spec_apple_field(v@, p as int, key@, f@) is None,
        },
{
    proof {
        reveal(spec_apple_field);
    }
    let n = v.len();
    let mut f = f;
    if crate::text::chars_eq_str(key, "status") {
        match parse_i32_value(v, p) {
            Some(xq) => {
                f.status = Some(xq.0);
                Some((f, xq.1))
            },
            None => None,
        }
    } else if crate::text::chars_eq_str(key, "is-retryable") {
        match parse_opt_bool_value(v, p) {
            Some(xq) => {
                f.is_retryable = xq.0;
                Some((f, xq.1))
            },
            None => None,
        }
    } else if crate::text::chars_eq_str(key, "environment") {
        match parse_opt_str_value(v, p) {
            Some(xq) => {
                f.environment = xq.0;
                Some((f, xq.1))
            },
            None => None,
        }
    } else if crate::text::chars_eq_str(key, "latest_receipt") {
        match parse_opt_str_value(v, p) {
            Some(xq) => {
                f.latest_receipt = xq.0;
                Some((f, xq.1))
            },
            None => None,
        }
    } else if crate::text::chars_eq_str(key, "latest_receipt_info") {
        match parse_latest_value(v, p) {
            Some(xq) => {
                f.latest_receipt_info = xq.0;
                Some((f, xq.1))
            },
            None => None,
        }
    } else if crate::text::chars_eq_str(key, "receipt") {
        if p >= n {
            return None;
        }
        let c = v[p];
        let cu = c as u32;
        proof {
            vstd::utf8::char_u32_cast(c, cu);
        }
        if cu == 110 {
            proof {
                reveal_strlit("null");
            }
            if crate::json::match_at(v, p, "null") {
                f.receipt = None;
                Some((f, p + 4))
            } else {
                None
            }
        } else {
            match parse_apple_receipt_at(v, p) {
                Some(xq) => {
                    f.receipt = Some(xq.0);
                    Some((f, xq.1))
                },
                None => None,
            }
        }
    } else {
        match crate::json::skip_value(v, p) {
            Some(qq) => Some((f, qq)),
            None => None,
        }
    }
}

impl AppleResponse {
    /// Parses a response body received from a Store A endpoint.
    #[verifier::rlimit(100)]
    pub fn parse(body: &str) -> (r: Result<AppleResponse, Error>)
        ensures
            match r {
                Ok(resp) => spec_parse_apple_response(body@) == Some(resp@),
                Err(e) => spec_parse_apple_response(body@) is None && e == Error::ParseError,
            },
    {
        let v = str_chars(body);
        let n = v.len();
        let i = skip_ws(&v, 0);
        if !(i < n && crate::text::char_eq(v[i], '{')) {
            return Err(Error::ParseError);
        }
        let j = skip_ws(&v, i + 1);
        if j < n && crate::text::char_eq(v[j], '}') {
            // An empty object lacks the required status.
            return Err(Error::ParseError);
        }
        let mut f = ApplePartial {
            status: None,
            is_retryable: None,
            environment: None,
            latest_receipt: None,
            latest_receipt_info: None,
            receipt: None,
        };
        let mut cur: usize = i + 1;
        let ghost start = i as int + 1;
        loop
            invariant
                i as int + 1 <= cur <= n,
                n == v@.len(),
                v@ == body@,
                start == i as int + 1,
                spec_apple_members(v@, start, spec_apple_empty()) == spec_apple_members(
                    v@,
                    cur as int,
                    f@,
                ),
                (match spec_apple_members(v@, start, spec_apple_empty()) {
                    Some(p) => spec_parse_apple_response(v@) == (if 0 <= p.1 <= v@.len()
                        && spec_skip_ws(v@, p.1) == v@.len() {
                        spec_apple_finalize(p.0)
                    } else {
                        Option::<AppleResponseV>::None
                    }),
                    None => spec_parse_apple_response(v@) is None,
                }),
            decreases n - cur,
        {
            let j2 = skip_ws(&v, cur);
            if !(j2 < n && crate::text::char_eq(v[j2], '"')) {
                return Err(Error::ParseError);
            }
            let (key, k) = match crate::json::parse_string_body(&v, j2 + 1) {
                Some(cj) => cj,
                None => {
                    return Err(Error::ParseError);
                },
            };
            let m = skip_ws(&v, k);
            if !(m < n && crate::text::char_eq(v[m], ':')) {
                return Err(Error::ParseError);
            }
            let p = skip_ws(&v, m + 1);
            let (f2, q) = match apple_field(&v, p, &key, f) {
                Some(fq) => fq,
                None => {
                    return Err(Error::ParseError);
                },
            };
            f = f2;
            let w = skip_ws(&v, q);
            if w < n && crate::text::char_eq(v[w], '}') {
                let w2 = skip_ws(&v, w + 1);
                if w2 != n {
                    return Err(Error::ParseError);
                }
                match f.status {
                    Some(st) => {
                        return Ok(
                            AppleResponse {
                                status: st,
                                is_retryable: f.is_retryable,
                                environment: f.environment,
                                latest_receipt: f.latest_receipt,
                                latest_receipt_info: f.latest_receipt_info,
                                receipt: f.receipt,
                            },
                        );
                    },
                    None => {
                        return Err(Error::ParseError);
                    },
                }
            } else if w < n && crate::text::char_eq(v[w], ',') {
                cur = w + 1;
            } else {
                return Err(Error::ParseError);
            }
        }
    }
}

// ---------------------------------------------------------------------------
// Transactions and evaluators
// ---------------------------------------------------------------------------

/// The first transaction at or after `i` whose id matches `tid`.
pub open spec fn spec_find_txn_from(l: Seq<AppleInAppReceiptV>, tid: Seq<char>, i: int) -> Option<
    AppleInAppReceiptV,
>
    decreases l.len() - i,
{
    if !(0 <= i < l.len()) {
        None
    } else if l[i].transaction_id == Some(tid) {
        Some(l[i])
    } else {
        spec_find_txn_from(l, tid, i + 1)
    }
}

/// The first in-app transaction of the receipt matching `tid`.
pub open spec fn spec_get_transaction(rv: AppleReceiptV, tid: Seq<char>) -> Option<
    AppleInAppReceiptV,
> {
    match rv.in_app {
        Some(l) => spec_find_txn_from(l, tid, 0),
        None => None,
    }
}

impl AppleReceipt {
    /// The first in-app transaction with the given transaction id.
    pub fn get_transaction(&self, transaction_id: &str) -> (r: Option<&AppleInAppReceipt>)
        ensures
            match r {
                Some(t) => spec_get_transaction(self@, transaction_id@) == Some(t@),
                None => spec_get_transaction(self@, transaction_id@) is None,
            },
    {
        match &self.in_app {
            Some(l) => {
                let n = l.len();
                let ghost lv = in_app_seq_view(l@);
                let mut i: usize = 0;
                loop
                    invariant
                        0 <= i <= n,
                        n == l@.len(),
                        lv == in_app_seq_view(l@),
                        self@.in_app == Some(lv),
                        spec_find_txn_from(lv, transaction_id@, 0) == spec_find_txn_from(
                            lv,
                            transaction_id@,
                            i as int,
                        ),
                    decreases n - i,
                {
                    if i >= n {
                        return None;
                    }
                    proof {
                        assert(lv[i as int] == l@[i as int]@);
                    }
                    let matches_id: bool = match &l[i].transaction_id {
                        Some(t) => str_eq(t.as_str(), transaction_id),
                        None => false,
                    };
                    if matches_id {
                        return Some(&l[i]);
                    }
                    i = i + 1;
                }
            },
            None => None,
        }
    }
}

/// Whether the response's receipt holds a transaction matching `tid` that
/// carries an expiry, marking a subscription purchase.
pub open spec fn spec_is_subscription(resp: AppleResponseV, tid: Seq<char>) -> bool {
    match resp.receipt {
        Some(rec) => match spec_get_transaction(rec, tid) {
            Some(t) => t.expires_date_ms is Some,
            None => false,
        },
        None => false,
    }
}

/// Whether the response's receipt holds a transaction matching `tid`.
pub open spec fn spec_has_transaction(resp: AppleResponseV, tid: Seq<char>) -> bool {
    match resp.receipt {
        Some(rec) => spec_get_transaction(rec, tid) is Some,
        None => false,
    }
}

/// The product id of the receipt's transaction matching `tid`, if any.
pub open spec fn spec_get_product_id(resp: AppleResponseV, tid: Seq<char>) -> Option<Seq<char>> {
    match resp.receipt {
        Some(rec) => match spec_get_transaction(rec, tid) {
            Some(t) => t.product_id,
            None => None,
        },
        None => None,
    }
}

impl AppleResponse {
    /// Whether the receipt being validated stands for a subscription
    /// purchase: its matching transaction carries an expiry field.
    pub fn is_subscription(&self, transaction_id: &str) -> (r: bool)
        ensures
            r == spec_is_subscription(self@, transaction_id@),
    {
        match &self.receipt {
            Some(rec) => match rec.get_transaction(transaction_id) {
                Some(t) => t.expires_date_ms.is_some(),
                None => false,
            },
            None => false,
        }
    }

    /// The product identifier recorded for the matching transaction.
    pub fn get_product_id(&self, transaction_id: &str) -> (r: Option<String>)
        ensures
            view_opt_str(r) == spec_get_product_id(self@, transaction_id@),
    {
        match &self.receipt {
            Some(rec) => match rec.get_transaction(transaction_id) {
                Some(t) => t.product_id.clone(),
                None => None,
            },
            None => None,
        }
    }
}

/// The ordering key of a renewal-history entry: its parsed expiry, with an
/// unparsable expiry below every parsable one, so that it is never chosen
/// over a record whose expiry is known.
pub open spec fn spec_expiry_key(r: AppleLatestReceiptV) -> int {
    match parse_decimal_i64(r.expires_date_ms) {
        Some(v) => v,
        None => (i64::MIN as int) - 1,
    }
}

/// The index of the entry with the greatest expiry; among entries of equal
/// expiry the earliest occurrence wins.
pub open spec fn spec_best_index(rs: Seq<AppleLatestReceiptV>) -> int
    decreases rs.len(),
{
    if rs.len() <= 1 {
        0
    } else {
        let b = spec_best_index(rs.drop_last());
        if spec_expiry_key(rs.last()) > spec_expiry_key(rs[b]) {
            rs.len() - 1
        } else {
            b
        }
    }
}

/// The first entry at or after `i` whose transaction id is `tid`.
pub open spec fn spec_find_latest_from(rs: Seq<AppleLatestReceiptV>, tid: Seq<char>, i: int) -> Option<
    int,
>
    decreases rs.len() - i,
{
    if !(0 <= i < rs.len()) {
        None
    } else if rs[i].transaction_id == tid {
        Some(i)
    } else {
        spec_find_latest_from(rs, tid, i + 1)
    }
}

/// The verdict when no transaction-id match decides: the entry with the
/// greatest expiry is judged, and a response with no entries or an
/// unparsable best expiry fails closed.
pub open spec fn spec_apple_fallback(rs: Seq<AppleLatestReceiptV>, now: int) -> PurchaseResponseV {
    if rs.len() == 0 {
        PurchaseResponseV { valid: false, product_id: None }
    } else {
        let b = spec_best_index(rs);
        match parse_decimal_i64(rs[b].expires_date_ms) {
            Some(e) => PurchaseResponseV { valid: e > now, product_id: Some(rs[b].product_id) },
            None => PurchaseResponseV { valid: false, product_id: None },
        }
    }
}

/// The subscription verdict over the renewal history: a non-empty
/// transaction id selects its entry, and that entry decides when its
/// expiry lies strictly after `now`; otherwise the entry with the greatest
/// expiry decides.
pub open spec fn spec_apple_subscription(
    info: Option<Seq<AppleLatestReceiptV>>,
    tid: Seq<char>,
    now: int,
) -> PurchaseResponseV {
    match info {
        None => PurchaseResponseV { valid: false, product_id: None },
        Some(rs) => {
            let m = if tid.len() > 0 {
                spec_find_latest_from(rs, tid, 0)
            } else {
                None
            };
            match m {
                Some(i) => match parse_decimal_i64(rs[i].expires_date_ms) {
                    Some(e) => if e > now {
                        PurchaseResponseV { valid: true, product_id: Some(rs[i].product_id) }
                    } else {
                        spec_apple_fallback(rs, now)
                    },
                    None => spec_apple_fallback(rs, now),
                },
                None => spec_apple_fallback(rs, now),
            }
        },
    }
}

/// Parses a millisecond timestamp the way `str::parse::<i64>` would.
fn parse_millis(s: &String) -> (r: Option<i64>)
    ensures
        crate::text::opt_i64_val(r) == parse_decimal_i64(s@),
{
    let chars = str_chars(s.as_str());
    decimal_i64_chars(&chars)
}

/// Whether `a`'s expiry key exceeds `b`'s.
fn expiry_key_gt(a: &AppleLatestReceipt, b: &AppleLatestReceipt) -> (r: bool)
    ensures
        r == (spec_expiry_key(a@) > spec_expiry_key(b@)),
{
    let ka = parse_millis(&a.expires_date_ms);
    let kb = parse_millis(&b.expires_date_ms);
    match (ka, kb) {
        (Some(x), Some(y)) => x > y,
        (Some(_), None) => true,
        _ => false,
    }
}

/// The index of the first entry matching `transaction_id`, if any.
fn find_latest_index(rs: &Vec<AppleLatestReceipt>, transaction_id: &str) -> (r: Option<usize>)
    ensures
        match r {
            Some(i) => i < rs@.len() && spec_find_latest_from(
                latest_seq_view(rs@),
                transaction_id@,
                0,
            ) == Some(i as int),
            None => spec_find_latest_from(latest_seq_view(rs@), transaction_id@, 0) is None,
        },
{
    let n = rs.len();
    let ghost rsv = latest_seq_view(rs@);
    let mut i: usize = 0;
    loop
        invariant
            0 <= i <= n,
            n == rs@.len(),
            rsv == latest_seq_view(rs@),
            spec_find_latest_from(rsv, transaction_id@, 0) == spec_find_latest_from(
                rsv,
                transaction_id@,
                i as int,
            ),
        decreases n - i,
    {
        if i >= n {
            return None;
        }
        proof {
            assert(rsv[i as int] == rs@[i as int]@);
        }
        if str_eq(rs[i].transaction_id.as_str(), transaction_id) {
            return Some(i);
        }
        i = i + 1;
    }
}

/// The index of the entry with the greatest expiry.
fn best_latest_index(rs: &Vec<AppleLatestReceipt>) -> (r: usize)
    requires
        rs@.len() > 0,
    ensures
        r < rs@.len(),
        r as int == spec_best_index(latest_seq_view(rs@)),
{
    let n = rs.len();
    let ghost rsv = latest_seq_view(rs@);
    let mut b: usize = 0;
    let mut i: usize = 1;
    proof {
        assert(rsv.take(1).len() == 1);
        assert(spec_best_index(rsv.take(1)) == 0);
    }
    while i < n
        invariant
            1 <= i <= n,
            b < i,
            n == rs@.len(),
            rsv == latest_seq_view(rs@),
            b as int == spec_best_index(rsv.take(i as int)),
        decreases n - i,
    {
        proof {
            assert(rsv.take(i as int + 1).drop_last() =~= rsv.take(i as int));
            assert(rsv.take(i as int + 1).last() == rsv[i as int]);
            assert(rsv[i as int] == rs@[i as int]@);
            assert(rsv.take(i as int)[b as int] == rs@[b as int]@);
        }
        if expiry_key_gt(&rs[i], &rs[b]) {
            b = i;
        }
        i = i + 1;
    }
    proof {
        assert(rsv.take(n as int) =~= rsv);
    }
    b
}

/// Evaluates a subscription response against the reference time `now_ms`,
/// over the renewal history in `latest_receipt_info`.
pub fn validate_apple_subscription(
    response: &AppleResponse,
    transaction_id: &str,
    now_ms: i64,
) -> (r: PurchaseResponse)
    ensures
        r@ == spec_apple_subscription(
            response@.latest_receipt_info,
            transaction_id@,
            now_ms as int,
        ),
{
    match &response.latest_receipt_info {
        None => PurchaseResponse { valid: false, product_id: None },
        Some(rs) => {
            let ghost rsv = latest_seq_view(rs@);
            let tlen = vstd::string::StrSliceExecFns::unicode_len(transaction_id);
            let found: Option<usize> = if tlen > 0 {
                find_latest_index(rs, transaction_id)
            } else {
                None
            };
            if let Some(i) = found {
                proof {
                    assert(rsv[i as int] == rs@[i as int]@);
                }
                match parse_millis(&rs[i].expires_date_ms) {
                    Some(e) => {
                        if e > now_ms {
                            return PurchaseResponse {
                                valid: true,
                                product_id: Some(rs[i].product_id.clone()),
                            };
                        }
                    },
                    None => {},
                }
            }
            // No match decided: the entry with the greatest expiry does.
            if rs.len() == 0 {
                return PurchaseResponse { valid: false, product_id: None };
            }
            let b = best_latest_index(rs);
            proof {
                assert(rsv[b as int] == rs@[b as int]@);
            }
            match parse_millis(&rs[b].expires_date_ms) {
                Some(e) => PurchaseResponse {
                    valid: e > now_ms,
                    product_id: Some(rs[b].product_id.clone()),
                },
                None => PurchaseResponse { valid: false, product_id: None },
            }
        },
    }
}

/// The rule for one-time products: the status must be 0 and a transaction
/// matching `tid` must exist; its product id is reported either way, also
/// when absent from a record that otherwise matches.
pub open spec fn spec_apple_package(resp: AppleResponseV, tid: Seq<char>) -> PurchaseResponseV {
    PurchaseResponseV {
        valid: resp.status == 0 && spec_has_transaction(resp, tid),
        product_id: spec_get_product_id(resp, tid),
    }
}

/// Evaluates a one-time-product response: valid exactly when the status is
/// 0 and a transaction matching `transaction_id` is present.
pub fn validate_apple_package(response: &AppleResponse, transaction_id: &str) -> (r:
    PurchaseResponse)
    ensures
        r@ == spec_apple_package(response@, transaction_id@),
{
    let matched: bool = match &response.receipt {
        Some(rec) => rec.get_transaction(transaction_id).is_some(),
        None => false,
    };
    let valid = response.status == 0 && matched;
    PurchaseResponse { valid, product_id: response.get_product_id(transaction_id) }
}

// ---------------------------------------------------------------------------
// The sandbox fallback and the request
// ---------------------------------------------------------------------------

/// The status with which production reports a test-environment receipt.
pub const APPLE_STATUS_CODE_TEST: i32 = 21007;

/// The status of a valid receipt.
pub const APPLE_STATUS_VALID: i32 = 0;

/// Whether the sandbox fallback applies: exactly when the endpoint
/// reported the test-environment status and no retry has happened yet.
pub open spec fn spec_apple_retry(status: int, already_retried: bool) -> bool {
    status == 21007 && !already_retried
}

/// Decides the sandbox fallback: retry exactly when the response carries
/// the test-environment status and this is still the first attempt.
pub fn apple_should_retry(status: i32, already_retried: bool) -> (r: bool)
    ensures
        r == spec_apple_retry(status as int, already_retried),
{
    status == APPLE_STATUS_CODE_TEST && !already_retried
}

/// The fallback fires at most once: after a retry, no status code triggers
/// another call.
pub proof fn lemma_retry_at_most_once(status: int)
    ensures
        !spec_apple_retry(status, true),
{
}

/// The verification endpoint under a base URL.
pub fn apple_verify_url(base: &str) -> (r: String)
    ensures
        r@ == base@ + "/verifyReceipt"@,
{
    let mut out: Vec<char> = Vec::new();
    push_str_chars(&mut out, base);
    push_str_chars(&mut out, "/verifyReceipt");
    chars_to_string(&out)
}

/// Builds the request body for a receipt; a missing shared secret is a
/// failed precondition, never retried.
pub fn apple_request_body(receipt: &UnityPurchaseReceipt, password: Option<&String>) -> (r: Result<
    String,
    Error,
>)
    ensures
        match r {
            Ok(b) => (password matches Some(p) && b@ == spec_encode_apple_request(
                AppleRequestV { receipt_data: receipt@.payload, password: p@ },
            )),
            Err(e) => password is None && e == Error::MissingCredential,
        },
{
    match password {
        Some(p) => {
            let req = AppleRequest { receipt_data: receipt.payload.clone(), password: p.clone() };
            Ok(req.to_json())
        },
        None => Err(Error::MissingCredential),
    }
}

// ---------------------------------------------------------------------------
// The full Store A verdict
// ---------------------------------------------------------------------------

/// The verdict for a parsed response: a non-zero status is invalid
/// outright; otherwise the subscription or the one-time-product rule
/// applies, depending on whether the matching transaction carries an
/// expiry.
pub open spec fn spec_apple_verdict(resp: AppleResponseV, tid: Seq<char>, now: int) -> PurchaseResponseV {
    if resp.status == 0 {
        if spec_is_subscription(resp, tid) {
            spec_apple_subscription(resp.latest_receipt_info, tid, now)
        } else {
            spec_apple_package(resp, tid)
        }
    } else {
        PurchaseResponseV { valid: false, product_id: spec_get_product_id(resp, tid) }
    }
}

/// Computes the verdict for a parsed Store A response against the
/// reference time `now_ms`.
///
/// The dispatch goes by the receipt's own transaction records: the
/// subscription rule (and with it the renewal history) applies only when
/// the transaction matching `transaction_id` carries an expiry field. A
/// response that carries renewal history but no matching transaction in
/// `receipt.in_app` takes the one-time-product rule and is judged invalid;
/// to judge such a history on its own, call `validate_apple_subscription`
/// directly.
pub fn validate_apple_response(response: &AppleResponse, transaction_id: &str, now_ms: i64) -> (r:
    PurchaseResponse)
    ensures
        r@ == spec_apple_verdict(response@, transaction_id@, now_ms as int),
{
    if response.status == 0 {
        if response.is_subscription(transaction_id) {
            validate_apple_subscription(response, transaction_id, now_ms)
        } else {
            validate_apple_package(response, transaction_id)
        }
    } else {
        PurchaseResponse { valid: false, product_id: response.get_product_id(transaction_id) }
    }
}

// ---------------------------------------------------------------------------
// Laws of the evaluators
// ---------------------------------------------------------------------------

/// The fallback entry has the greatest expiry key, and is the first entry
/// with that key.
pub proof fn lemma_best_index_max(rs: Seq<AppleLatestReceiptV>, j: int)
    requires
        rs.len() > 0,
        0 <= j < rs.len(),
    ensures
        0 <= spec_best_index(rs) < rs.len(),
        spec_expiry_key(rs[spec_best_index(rs)]) >= spec_expiry_key(rs[j]),
    decreases rs.len(),
{
    if rs.len() > 1 {
        let d = rs.drop_last();
        if j < d.len() {
            lemma_best_index_max(d, j);
        } else {
            lemma_best_index_max(d, 0);
        }
    }
}

/// Among entries of equal greatest expiry, the first occurrence wins:
/// every earlier entry has a strictly smaller key.
pub proof fn lemma_best_index_first(rs: Seq<AppleLatestReceiptV>, j: int)
    requires
        rs.len() > 0,
        0 <= j < spec_best_index(rs),
    ensures
        spec_expiry_key(rs[j]) < spec_expiry_key(rs[spec_best_index(rs)]),
    decreases rs.len(),
{
    if rs.len() > 1 {
        let d = rs.drop_last();
        let b = spec_best_index(rs);
        let bd = spec_best_index(d);
        lemma_best_index_max(d, 0);
        assert(d[bd] == rs[bd]);
        if spec_expiry_key(rs.last()) > spec_expiry_key(rs[bd]) {
            assert(b == rs.len() - 1);
            assert(j < d.len());
            lemma_best_index_max(d, j);
            assert(d[j] == rs[j]);
            assert(spec_expiry_key(rs[j]) <= spec_expiry_key(rs[bd]));
        } else {
            assert(b == bd);
            lemma_best_index_first(d, j);
            assert(d[j] == rs[j]);
        }
    }
}

/// A found index lies within the history and names a matching entry.
pub proof fn lemma_find_latest_bounds(rs: Seq<AppleLatestReceiptV>, tid: Seq<char>, i: int)
    requires
        0 <= i <= rs.len(),
    ensures
        match spec_find_latest_from(rs, tid, i) {
            Some(k) => i <= k < rs.len() && rs[k].transaction_id == tid,
            None => true,
        },
    decreases rs.len() - i,
{
    if 0 <= i < rs.len() && !(rs[i].transaction_id == tid) {
        lemma_find_latest_bounds(rs, tid, i + 1);
    }
}

/// Whenever some entry's expiry parses and lies strictly after `now`, the
/// subscription verdict is valid: the selected entry can only have a
/// greater expiry.
pub proof fn lemma_active_record_means_valid(
    rs: Seq<AppleLatestReceiptV>,
    tid: Seq<char>,
    now: int,
    j: int,
)
    requires
        0 <= j < rs.len(),
        parse_decimal_i64(rs[j].expires_date_ms) matches Some(e) && e > now,
    ensures
        spec_apple_subscription(Some(rs), tid, now).valid,
{
    lemma_best_index_max(rs, j);
    let b = spec_best_index(rs);
    assert(spec_expiry_key(rs[j]) > now);
    assert(spec_expiry_key(rs[b]) > now);
    assert(spec_expiry_key(rs[b]) > (i64::MIN as int) - 1);
    assert(parse_decimal_i64(rs[b].expires_date_ms) is Some);
}

/// When every entry's expiry is at or before `now` (or unparsable), the
/// subscription verdict is invalid.
pub proof fn lemma_all_expired_means_invalid(rs: Seq<AppleLatestReceiptV>, tid: Seq<char>, now: int)
    requires
        forall|j: int|
            0 <= j < rs.len() ==> (match parse_decimal_i64(#[trigger] rs[j].expires_date_ms) {
                Some(e) => e <= now,
                None => true,
            }),
    ensures
        !spec_apple_subscription(Some(rs), tid, now).valid,
{
    lemma_find_latest_bounds(rs, tid, 0);
    if rs.len() > 0 {
        lemma_best_index_max(rs, 0);
    }
}

/// A status other than 0 and the test code yields an invalid verdict, and
/// no second call is made.
pub proof fn lemma_other_status_fails_without_retry(resp: AppleResponseV, tid: Seq<char>, now: int)
    requires
        resp.status != 0,
        resp.status != 21007,
    ensures
        !spec_apple_retry(resp.status, false),
        !spec_apple_verdict(resp, tid, now).valid,
{
}

} // verus!
