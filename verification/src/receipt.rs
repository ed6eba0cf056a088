//! The receipt envelope delivered by the purchasing plugin, and the verdict
//! returned to its caller: the input and output types of the whole library,
//! with their wire format.

use vstd::prelude::*;

use crate::error::Error;
use crate::json::parse_object;
use crate::json::push_quoted;
use crate::json::spec_parse_object;
use crate::json::spec_quote;
use crate::json::spec_req_bool;
use crate::json::spec_req_str;
use crate::json::spec_opt_str;
use crate::json::req_bool;
use crate::json::req_str;
use crate::json::opt_str;
use crate::json::PrimV;
use crate::text::chars_to_string;
use crate::text::push_str_chars;
use crate::text::str_chars;

verus! {

/// The platform on which the purchase that created the receipt was made.
#[derive(Clone, Copy, Debug, PartialEq, Eq, Structural)]
pub enum Platform {
    /// iOS and macOS.
    AppleAppStore,
    /// Android.
    GooglePlay,
}

impl Default for Platform {
    /// The platform assumed when none is given.
    fn default() -> (r: Self)
        ensures
            r == Platform::AppleAppStore,
    {
        Platform::AppleAppStore
    }
}

/// The name under which a platform appears in the wire format.
pub open spec fn spec_platform_str(p: Platform) -> Seq<char> {
    match p {
        Platform::AppleAppStore => "AppleAppStore"@,
        Platform::GooglePlay => "GooglePlay"@,
    }
}

/// The platform named by `s`, if any.
pub open spec fn spec_platform_of(s: Seq<char>) -> Option<Platform> {
    if s == "AppleAppStore"@ {
        Some(Platform::AppleAppStore)
    } else if s == "GooglePlay"@ {
        Some(Platform::GooglePlay)
    } else {
        None
    }
}

/// The deserialized contents of the JSON string delivered by the
/// purchasing plugin.
#[derive(Clone, Debug)]
pub struct UnityPurchaseReceipt {
    /// The platform on which the purchase was made.
    pub store: Platform,
    /// The store-specific receipt blob to be processed by the validator.
    pub payload: String,
    /// The transaction identifier.
    pub transaction_id: String,
}

/// The mathematical content of a `UnityPurchaseReceipt`.
#[verifier::ext_equal]
pub struct UnityPurchaseReceiptV {
    /// The platform on which the purchase was made.
    pub store: Platform,
    /// The store-specific receipt blob.
    pub payload: Seq<char>,
    /// The transaction identifier.
    pub transaction_id: Seq<char>,
}

impl View for UnityPurchaseReceipt {
    type V = UnityPurchaseReceiptV;

    open spec fn view(&self) -> UnityPurchaseReceiptV {
        UnityPurchaseReceiptV {
            store: self.store,
            payload: self.payload@,
            transaction_id: self.transaction_id@,
        }
    }
}

/// What the receipt wire format denotes: a JSON object with a `Store` name
/// naming a known platform and string `Payload` and `TransactionID` fields.
pub open spec fn spec_receipt_of_members(l: Seq<(Seq<char>, PrimV)>) -> Option<
    UnityPurchaseReceiptV,
> {
    match (spec_req_str(l, "Store"@), spec_req_str(l, "Payload"@), spec_req_str(
        l,
        "TransactionID"@,
    )) {
        (Some(st), Some(p), Some(t)) => match spec_platform_of(st) {
            Some(pl) => Some(
                UnityPurchaseReceiptV { store: pl, payload: p, transaction_id: t },
            ),
            None => None,
        },
        _ => None,
    }
}

/// The receipt denoted by the JSON text `s`, if it is well-formed.
pub open spec fn spec_parse_receipt(s: Seq<char>) -> Option<UnityPurchaseReceiptV> {
    match spec_parse_object(s) {
        Some(l) => spec_receipt_of_members(l),
        None => None,
    }
}

/// The wire form of a receipt.
pub open spec fn spec_encode_receipt(r: UnityPurchaseReceiptV) -> Seq<char> {
    seq!['{'] + spec_quote("Store"@) + seq![':'] + spec_quote(spec_platform_str(r.store))
        + seq![','] + spec_quote("Payload"@) + seq![':'] + spec_quote(r.payload) + seq![',']
        + spec_quote("TransactionID"@) + seq![':'] + spec_quote(r.transaction_id) + seq!['}']
}

impl UnityPurchaseReceipt {
    /// Creates a `UnityPurchaseReceipt` from the JSON string delivered by
    /// the purchasing plugin, rejecting malformed input.
    pub fn from(json_str: &str) -> (r: Result<UnityPurchaseReceipt, Error>)
        ensures
            match r {
                Ok(rec) => spec_parse_receipt(json_str@) == Some(rec@),
                Err(e) => spec_parse_receipt(json_str@) is None && e == Error::DecodeError,
            },
    {
        let chars = str_chars(json_str);
        let members = match parse_object(&chars) {
            Some(l) => l,
            None => {
                return Err(Error::DecodeError);
            },
        };
        let store_s = match req_str(&members, "Store") {
            Some(s) => s,
            None => {
                return Err(Error::DecodeError);
            },
        };
        let payload = match req_str(&members, "Payload") {
            Some(s) => s,
            None => {
                return Err(Error::DecodeError);
            },
        };
        let transaction_id = match req_str(&members, "TransactionID") {
            Some(s) => s,
            None => {
                return Err(Error::DecodeError);
            },
        };
        let store_chars = str_chars(store_s.as_str());
        let store = if crate::text::chars_eq_str(&store_chars, "AppleAppStore") {
            Platform::AppleAppStore
        } else if crate::text::chars_eq_str(&store_chars, "GooglePlay") {
            Platform::GooglePlay
        } else {
            return Err(Error::DecodeError);
        };
        Ok(UnityPurchaseReceipt { store, payload, transaction_id })
    }

    /// Writes the receipt in its wire form.
    pub fn to_json(&self) -> (r: String)
        ensures
            r@ == spec_encode_receipt(self@),
    {
        let mut out: Vec<char> = Vec::new();
        out.push('{');
        push_quoted(&mut out, "Store");
        out.push(':');
        match self.store {
            Platform::AppleAppStore => push_quoted(&mut out, "AppleAppStore"),
            Platform::GooglePlay => push_quoted(&mut out, "GooglePlay"),
        }
        out.push(',');
        push_quoted(&mut out, "Payload");
        out.push(':');
        push_quoted(&mut out, self.payload.as_str());
        out.push(',');
        push_quoted(&mut out, "TransactionID");
        out.push(':');
        push_quoted(&mut out, self.transaction_id.as_str());
        out.push('}');
        proof {
            assert(out@ =~= spec_encode_receipt(self@));
        }
        chars_to_string(&out)
    }
}

/// What validation reports back: whether the receipt stands for a valid
/// purchase (an unexpired subscription, or a purchased product), and the
/// product it names.
#[derive(Clone, Debug, PartialEq)]
pub struct PurchaseResponse {
    /// The purchase is valid.
    pub valid: bool,
    /// The product identifier, where one could be determined.
    pub product_id: Option<String>,
}

/// The mathematical content of a `PurchaseResponse`.
#[verifier::ext_equal]
pub struct PurchaseResponseV {
    /// The purchase is valid.
    pub valid: bool,
    /// The product identifier, where one could be determined.
    pub product_id: Option<Seq<char>>,
}

impl View for PurchaseResponse {
    type V = PurchaseResponseV;

    open spec fn view(&self) -> PurchaseResponseV {
        PurchaseResponseV {
            valid: self.valid,
            product_id: match self.product_id {
                Some(s) => Some(s@),
                None => None,
            },
        }
    }
}

impl Default for PurchaseResponse {
    /// The verdict before any evaluation: invalid, with no product.
    fn default() -> (r: Self)
        ensures
            !r.valid && r.product_id is None,
    {
        PurchaseResponse { valid: false, product_id: None }
    }
}

/// What the verdict wire format denotes: a JSON object with a boolean
/// `valid` field and an optional string `product_id` field.
pub open spec fn spec_purchase_response_of_members(l: Seq<(Seq<char>, PrimV)>) -> Option<
    PurchaseResponseV,
> {
    match (spec_req_bool(l, "valid"@), spec_opt_str(l, "product_id"@)) {
        (Some(b), Some(p)) => Some(PurchaseResponseV { valid: b, product_id: p }),
        _ => None,
    }
}

/// The verdict denoted by the JSON text `s`, if it is well-formed.
pub open spec fn spec_parse_purchase_response(s: Seq<char>) -> Option<PurchaseResponseV> {
    match spec_parse_object(s) {
        Some(l) => spec_purchase_response_of_members(l),
        None => None,
    }
}

/// The wire form of a verdict.
pub open spec fn spec_encode_purchase_response(p: PurchaseResponseV) -> Seq<char> {
    seq!['{'] + spec_quote("valid"@) + seq![':'] + (if p.valid {
        "true"@
    } else {
        "false"@
    }) + seq![','] + spec_quote("product_id"@) + seq![':'] + (match p.product_id {
        Some(s) => spec_quote(s),
        None => "null"@,
    }) + seq!['}']
}

impl PurchaseResponse {
    /// Creates a `PurchaseResponse` from its wire form, rejecting
    /// malformed input.
    pub fn from_json(json_str: &str) -> (r: Result<PurchaseResponse, Error>)
        ensures
            match r {
                Ok(pr) => spec_parse_purchase_response(json_str@) == Some(pr@),
                Err(e) => spec_parse_purchase_response(json_str@) is None && e
                    == Error::DecodeError,
            },
    {
        let chars = str_chars(json_str);
        let members = match parse_object(&chars) {
            Some(l) => l,
            None => {
                return Err(Error::DecodeError);
            },
        };
        let valid = match req_bool(&members, "valid") {
            Some(b) => b,
            None => {
                return Err(Error::DecodeError);
            },
        };
        let product_id = match opt_str(&members, "product_id") {
            Some(o) => o,
            None => {
                return Err(Error::DecodeError);
            },
        };
        Ok(PurchaseResponse { valid, product_id })
    }

    /// Writes the verdict in its wire form.
    pub fn to_json(&self) -> (r: String)
        ensures
            r@ == spec_encode_purchase_response(self@),
    {
        let mut out: Vec<char> = Vec::new();
        out.push('{');
        push_quoted(&mut out, "valid");
        out.push(':');
        if self.valid {
            push_str_chars(&mut out, "true");
        } else {
            push_str_chars(&mut out, "false");
        }
        out.push(',');
        push_quoted(&mut out, "product_id");
        out.push(':');
        match &self.product_id {
            Some(s) => push_quoted(&mut out, s.as_str()),
            None => push_str_chars(&mut out, "null"),
        }
        out.push('}');
        proof {
            assert(out@ =~= spec_encode_purchase_response(self@));
        }
        chars_to_string(&out)
    }
}

/// Encoding a receipt and decoding the result yields the receipt
/// unchanged, field for field, for every receipt.
#[verifier::rlimit(100)]
pub proof fn lemma_receipt_round_trip(r: UnityPurchaseReceiptV)
    ensures
        spec_parse_receipt(spec_encode_receipt(r)) == Some(r),
{
    let s = spec_encode_receipt(r);
    let k1 = "Store"@;
    let v1 = crate::json::PrimV::Str(spec_platform_str(r.store));
    let k2 = "Payload"@;
    let v2 = crate::json::PrimV::Str(r.payload);
    let k3 = "TransactionID"@;
    let v3 = crate::json::PrimV::Str(r.transaction_id);
    let m1 = crate::json::spec_member_text(k1, v1);
    let m2 = crate::json::spec_member_text(k2, v2);
    let m3 = crate::json::spec_member_text(k3, v3);
    assert(s =~= seq!['{'] + m1 + seq![','] + m2 + seq![','] + m3 + seq!['}']);
    crate::json::lemma_parse_object_three(s, k1, v1, k2, v2, k3, v3);
    let l = seq![(k1, v1), (k2, v2), (k3, v3)];
    reveal_strlit("Store");
    reveal_strlit("Payload");
    reveal_strlit("TransactionID");
    assert(k1 != k2 && k1 != k3 && k2 != k3);
    assert(l.drop_last() =~= seq![(k1, v1), (k2, v2)]);
    assert(l.drop_last().drop_last() =~= seq![(k1, v1)]);
    assert(crate::json::spec_find_key(l, k3) == Some(v3));
    assert(crate::json::spec_find_key(l, k2) == crate::json::spec_find_key(l.drop_last(), k2));
    assert(crate::json::spec_find_key(l.drop_last(), k2) == Some(v2));
    assert(crate::json::spec_find_key(l, k1) == crate::json::spec_find_key(l.drop_last(), k1));
    assert(crate::json::spec_find_key(l.drop_last(), k1) == crate::json::spec_find_key(
        l.drop_last().drop_last(),
        k1,
    ));
    assert(crate::json::spec_find_key(l.drop_last().drop_last(), k1) == Some(v1));
    reveal_strlit("AppleAppStore");
    reveal_strlit("GooglePlay");
    assert(spec_platform_of(spec_platform_str(r.store)) == Some(r.store));
    assert(spec_receipt_of_members(l) matches Some(rr) && rr =~= r);
}

/// Encoding a verdict and decoding the result yields the verdict
/// unchanged, field for field, for every verdict.
#[verifier::rlimit(100)]
pub proof fn lemma_purchase_response_round_trip(p: PurchaseResponseV)
    ensures
        spec_parse_purchase_response(spec_encode_purchase_response(p)) == Some(p),
{
    let s = spec_encode_purchase_response(p);
    let k1 = "valid"@;
    let v1 = crate::json::PrimV::Bool(p.valid);
    let k2 = "product_id"@;
    let v2 = match p.product_id {
        Some(c) => crate::json::PrimV::Str(c),
        None => crate::json::PrimV::Null,
    };
    let m1 = crate::json::spec_member_text(k1, v1);
    let m2 = crate::json::spec_member_text(k2, v2);
    assert(s =~= seq!['{'] + m1 + seq![','] + m2 + seq!['}']);
    crate::json::lemma_parse_object_two(s, k1, v1, k2, v2);
    let l = seq![(k1, v1), (k2, v2)];
    reveal_strlit("valid");
    reveal_strlit("product_id");
    assert(k1 != k2);
    assert(l.drop_last() =~= seq![(k1, v1)]);
    assert(crate::json::spec_find_key(l, k2) == Some(v2));
    assert(crate::json::spec_find_key(l, k1) == crate::json::spec_find_key(l.drop_last(), k1));
    assert(crate::json::spec_find_key(l.drop_last(), k1) == Some(v1));
    assert(spec_purchase_response_of_members(l) matches Some(pp) && pp =~= p);
}

} // verus!
