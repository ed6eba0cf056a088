//! The wire formats: receipt decoding, payload decoding, response parsing,
//! encoding, and the round trips between them.

use iap::apple::{apple_request_body, AppleRequest, AppleResponse};
use iap::error::Error;
use iap::google::{backfill_product_id, google_request_uri, GooglePlayData, GoogleResponse, SkuType};
use iap::receipt::{Platform, PurchaseResponse, UnityPurchaseReceipt};

#[test]
fn test_deserialize_apple() {
    let body = "{\n  \"status\": 0,\n  \"environment\": \"Production\",\n  \"latest_receipt\": \"bGF0ZXN0\",\n  \"latest_receipt_info\": [\n    {\n      \"quantity\": \"1\",\n      \"expires_date_ms\": \"1600086400000\",\n      \"expires_date\": \"2020-09-14\",\n      \"original_purchase_date\": \"2020-08-14\",\n      \"product_id\": \"com.example.sub\",\n      \"purchase_date\": \"2020-08-14\",\n      \"transaction_id\": \"1000000\"\n    }\n  ],\n  \"receipt\": {\n    \"in_app\": [\n      {\n        \"product_id\": \"com.example.sub\",\n        \"transaction_id\": \"1000000\",\n        \"expires_date_ms\": \"1600086400000\"\n      }\n    ]\n  }\n}";
    let response = AppleResponse::parse(body).unwrap();
    assert!(response.latest_receipt.is_some());
    assert!(response.latest_receipt_info.is_some());
    assert!(response.environment.is_some());
    assert_eq!(response.status, 0);
    let infos = response.latest_receipt_info.as_ref().unwrap();
    assert_eq!(infos.len(), 1);
    assert_eq!(infos[0].expires_date_ms, "1600086400000");
    assert_eq!(infos[0].product_id, "com.example.sub");
    let in_app = response.receipt.as_ref().unwrap().in_app.as_ref().unwrap();
    assert_eq!(in_app[0].transaction_id.as_deref(), Some("1000000"));
}

#[test]
fn test_deserialize_google() {
    let body = "{\n  \"expiryTimeMillis\": \"1600086400000\",\n  \"priceCurrencyCode\": \"USD\",\n  \"priceAmountMicros\": \"1990000\",\n  \"orderId\": \"GPA.1234\",\n  \"purchaseType\": 0,\n  \"kind\": \"androidpublisher#subscriptionPurchase\"\n}";
    let response = GoogleResponse::parse(body).unwrap();
    assert_eq!(response.expiry_time.as_deref(), Some("1600086400000"));
    assert_eq!(response.order_id, "GPA.1234");
    assert_eq!(response.purchase_type, Some(0));
    assert_eq!(response.product_id, None);
}

#[test]
fn receipt_decodes_from_plugin_json() {
    let receipt = UnityPurchaseReceipt::from(
        "{ \"Store\": \"GooglePlay\", \"TransactionID\": \"txn-1\", \"Payload\": \"blob\" }",
    )
    .unwrap();
    assert!(matches!(receipt.store, Platform::GooglePlay));
    assert_eq!(receipt.transaction_id, "txn-1");
    assert_eq!(receipt.payload, "blob");
}

#[test]
fn receipt_rejects_unknown_store() {
    let r = UnityPurchaseReceipt::from(
        "{\"Store\":\"SomeOtherStore\",\"TransactionID\":\"t\",\"Payload\":\"p\"}",
    );
    assert_eq!(r.unwrap_err(), Error::DecodeError);
}

#[test]
fn receipt_rejects_malformed_json() {
    assert_eq!(UnityPurchaseReceipt::from("not json").unwrap_err(), Error::DecodeError);
    assert_eq!(UnityPurchaseReceipt::from("{\"Store\":\"GooglePlay\"").unwrap_err(), Error::DecodeError);
    // A required field is missing.
    assert_eq!(
        UnityPurchaseReceipt::from("{\"Store\":\"GooglePlay\",\"Payload\":\"p\"}").unwrap_err(),
        Error::DecodeError
    );
    // Trailing text after the object.
    assert_eq!(
        UnityPurchaseReceipt::from(
            "{\"Store\":\"GooglePlay\",\"TransactionID\":\"t\",\"Payload\":\"p\"} x"
        )
        .unwrap_err(),
        Error::DecodeError
    );
}

#[test]
fn receipt_decodes_escapes() {
    // Escaped quote, backslash, newline, a \u escape, and a surrogate
    // pair, all inside the payload.
    let receipt = UnityPurchaseReceipt::from(
        "{\"Store\":\"AppleAppStore\",\"TransactionID\":\"t\",\"Payload\":\"a\\\"b\\\\c\\nd\\u0041e\\uD83D\\uDE00f\"}",
    )
    .unwrap();
    assert_eq!(receipt.payload, "a\"b\\c\ndAe\u{1F600}f");
}

#[test]
fn receipt_round_trip_populated() {
    let receipt = UnityPurchaseReceipt {
        store: Platform::GooglePlay,
        payload: "payload with \"quotes\", back\\slashes,\nnewlines and caf\u{e9} \u{1F600}".to_string(),
        transaction_id: "GPA.1234-5678".to_string(),
    };
    let encoded = receipt.to_json();
    let decoded = UnityPurchaseReceipt::from(&encoded).unwrap();
    assert!(matches!(decoded.store, Platform::GooglePlay));
    assert_eq!(decoded.payload, receipt.payload);
    assert_eq!(decoded.transaction_id, receipt.transaction_id);
}

#[test]
fn receipt_round_trip_default() {
    let receipt = UnityPurchaseReceipt {
        store: Platform::default(),
        payload: String::new(),
        transaction_id: String::new(),
    };
    let decoded = UnityPurchaseReceipt::from(&receipt.to_json()).unwrap();
    assert!(matches!(decoded.store, Platform::AppleAppStore));
    assert_eq!(decoded.payload, "");
    assert_eq!(decoded.transaction_id, "");
}

#[test]
fn purchase_response_round_trip() {
    let populated = PurchaseResponse {
        valid: true,
        product_id: Some("com.example.sub \"pro\"".to_string()),
    };
    assert_eq!(PurchaseResponse::from_json(&populated.to_json()).unwrap(), populated);

    let default = PurchaseResponse::default();
    assert_eq!(PurchaseResponse::from_json(&default.to_json()).unwrap(), default);
}

#[test]
fn encoded_output_is_json_for_other_readers() {
    // A reference JSON implementation reads the encoders' output and sees
    // the same fields.
    let receipt = UnityPurchaseReceipt {
        store: Platform::AppleAppStore,
        payload: "pay\"load\n\u{1F600}".to_string(),
        transaction_id: "t-9".to_string(),
    };
    let value: serde_json::Value = serde_json::from_str(&receipt.to_json()).unwrap();
    assert_eq!(value["Store"].as_str(), Some("AppleAppStore"));
    assert_eq!(value["Payload"].as_str(), Some("pay\"load\n\u{1F600}"));
    assert_eq!(value["TransactionID"].as_str(), Some("t-9"));

    let verdict = PurchaseResponse { valid: false, product_id: None };
    let value: serde_json::Value = serde_json::from_str(&verdict.to_json()).unwrap();
    assert_eq!(value["valid"].as_bool(), Some(false));
    assert!(value["product_id"].is_null());
}

#[test]
fn parses_what_a_reference_writer_emits() {
    // A body serialized by a reference JSON implementation parses to the
    // same record.
    let mut map = serde_json::Map::new();
    map.insert("Store".to_string(), serde_json::Value::String("GooglePlay".to_string()));
    map.insert("Payload".to_string(), serde_json::Value::String("p\u{e9}\n".to_string()));
    map.insert("TransactionID".to_string(), serde_json::Value::String("t".to_string()));
    let text = serde_json::to_string(&serde_json::Value::Object(map)).unwrap();
    let receipt = UnityPurchaseReceipt::from(&text).unwrap();
    assert!(matches!(receipt.store, Platform::GooglePlay));
    assert_eq!(receipt.payload, "p\u{e9}\n");
}

#[test]
fn play_data_decodes_envelope() {
    let payload = "{\"json\":\"{\\\"packageName\\\":\\\"com.example.app\\\"}\",\"signature\":\"sig==\",\"skuDetails\":\"{\\\"type\\\":\\\"subs\\\"}\"}";
    let data = GooglePlayData::from(payload).unwrap();
    assert_eq!(data.json, "{\"packageName\":\"com.example.app\"}");
    assert_eq!(data.signature, "sig==");
    assert_eq!(data.sku_details, "{\"type\":\"subs\"}");
}

#[test]
fn play_data_rejects_bad_envelope() {
    assert_eq!(GooglePlayData::from("{}").unwrap_err(), Error::DecodeError);
    assert_eq!(GooglePlayData::from("[1,2]").unwrap_err(), Error::DecodeError);
}

#[test]
fn sku_details_types() {
    let subs = GooglePlayData {
        json: String::new(),
        signature: String::new(),
        sku_details: "{\"type\":\"subs\",\"price\":\"$1\"}".to_string(),
    };
    assert!(matches!(subs.get_sku_details().unwrap().sku_type, SkuType::Subs));

    let inapp = GooglePlayData {
        sku_details: "{\"type\":\"inapp\"}".to_string(),
        ..subs.clone()
    };
    assert!(matches!(inapp.get_sku_details().unwrap().sku_type, SkuType::Inapp));
}

#[test]
fn unknown_sku_type_is_a_decode_error() {
    // An unrecognized type must fail, not default to a guess.
    let data = GooglePlayData {
        json: String::new(),
        signature: String::new(),
        sku_details: "{\"type\":\"rental\"}".to_string(),
    };
    assert_eq!(data.get_sku_details().unwrap_err(), Error::DecodeError);
}

#[test]
fn google_uri_is_derived_from_payload() {
    let data = GooglePlayData {
        json: "{\"packageName\":\"com.example.app\",\"productId\":\"sku1\",\"purchaseToken\":\"tok\",\"acknowledged\":true,\"purchaseTime\":1600000000000,\"orderId\":\"GPA.1\",\"purchaseState\":1}".to_string(),
        signature: String::new(),
        sku_details: String::new(),
    };
    assert_eq!(
        data.get_uri(&SkuType::Subs).unwrap(),
        "https://androidpublisher.googleapis.com/androidpublisher/v3/applications/com.example.app/purchases/subscriptions/sku1/tokens/tok"
    );
    assert_eq!(
        data.get_uri(&SkuType::Inapp).unwrap(),
        "https://androidpublisher.googleapis.com/androidpublisher/v3/applications/com.example.app/purchases/products/sku1/tokens/tok"
    );
    // Incomplete parameters fail the decode.
    let incomplete = GooglePlayData {
        json: "{\"packageName\":\"com.example.app\"}".to_string(),
        ..data
    };
    assert_eq!(incomplete.get_uri(&SkuType::Subs).unwrap_err(), Error::DecodeError);
}

#[test]
fn google_request_uri_distinguishes_test_calls() {
    assert_eq!(google_request_uri("http://h/x", true), "http://h/x");
    assert_eq!(google_request_uri("http://h/x", false), "http://h/x/test");
}

#[test]
fn google_response_parse_failure_is_parse_error() {
    let err = GoogleResponse::parse("<html>denied</html>").unwrap_err();
    assert_eq!(err, Error::ParseError);
    assert!(err.message().contains("service account key"));
    // A response without the required order id also fails.
    assert_eq!(GoogleResponse::parse("{}").unwrap_err(), Error::ParseError);
}

#[test]
fn apple_response_parse_errors() {
    assert_eq!(AppleResponse::parse("").unwrap_err(), Error::ParseError);
    // The status is required.
    assert_eq!(AppleResponse::parse("{}").unwrap_err(), Error::ParseError);
    // A status out of 32-bit range is rejected.
    assert_eq!(AppleResponse::parse("{\"status\": 4294967296}").unwrap_err(), Error::ParseError);
    // Unknown fields of any shape are skipped, among them non-integer
    // numbers.
    let body = format!(
        "{{\"status\": 0, \"extra\": [1, {{\"deep\": [true, null, 1{}5e3, -0{}25]}}]}}",
        ".", "."
    );
    let response = AppleResponse::parse(&body).unwrap();
    assert_eq!(response.status, 0);
}

#[test]
fn backfill_fills_missing_product_id() {
    let data = GooglePlayData {
        json: "{\"packageName\":\"p\",\"productId\":\"sku-from-payload\",\"purchaseToken\":\"t\",\"acknowledged\":false,\"purchaseTime\":1,\"orderId\":\"o\",\"purchaseState\":1}".to_string(),
        signature: String::new(),
        sku_details: String::new(),
    };
    let bare = GoogleResponse::default();
    let filled = backfill_product_id(bare, Some(&data)).unwrap();
    assert_eq!(filled.product_id.as_deref(), Some("sku-from-payload"));

    // An already-present product id is kept.
    let present = GoogleResponse {
        product_id: Some("echoed".to_string()),
        ..Default::default()
    };
    let kept = backfill_product_id(present, Some(&data)).unwrap();
    assert_eq!(kept.product_id.as_deref(), Some("echoed"));

    // Without payload data there is nothing to fill from.
    let untouched = backfill_product_id(GoogleResponse::default(), None).unwrap();
    assert_eq!(untouched.product_id, None);
}

#[test]
fn apple_request_body_requires_secret() {
    let receipt = UnityPurchaseReceipt {
        store: Platform::AppleAppStore,
        payload: "blob==".to_string(),
        transaction_id: String::new(),
    };
    assert_eq!(apple_request_body(&receipt, None).unwrap_err(), Error::MissingCredential);

    let secret = "shared-secret".to_string();
    let body = apple_request_body(&receipt, Some(&secret)).unwrap();
    let value: serde_json::Value = serde_json::from_str(&body).unwrap();
    assert_eq!(value["receipt-data"].as_str(), Some("blob=="));
    assert_eq!(value["password"].as_str(), Some("shared-secret"));
}

#[test]
fn apple_request_encoding_is_exact() {
    let request = AppleRequest {
        receipt_data: "abc".to_string(),
        password: "p\"w".to_string(),
    };
    assert_eq!(request.to_json(), "{\"receipt-data\":\"abc\",\"password\":\"p\\\"w\"}");
}

#[test]
fn repeated_keys_last_occurrence_wins() {
    // Both response parsers agree: a repeated member overwrites the
    // earlier occurrence.
    let apple = AppleResponse::parse("{\"status\": 1, \"status\": 2}").unwrap();
    assert_eq!(apple.status, 2);

    let google = GoogleResponse::parse(
        "{\"orderId\":\"o\",\"productId\":\"first\",\"productId\":\"second\"}",
    )
    .unwrap();
    assert_eq!(google.product_id.as_deref(), Some("second"));
}

#[test]
fn json_numbers_reject_leading_zeros() {
    // "01" is not a JSON number token, so the object fails to parse.
    assert_eq!(AppleResponse::parse("{\"status\": 01}").unwrap_err(), Error::ParseError);
    assert_eq!(AppleResponse::parse("{\"status\": -0}").unwrap().status, 0);
}

#[test]
fn expiry_strings_accept_a_plus_sign() {
    // The expiry field is parsed like `str::parse::<i64>`, which accepts
    // an explicit plus sign even though JSON numbers do not.
    let response = GoogleResponse {
        expiry_time: Some("+1600000000001".to_string()),
        ..Default::default()
    };
    assert!(iap::google::validate_google_subscription(&response, 1_600_000_000_000).valid);
}

#[test]
fn error_messages_name_each_kind() {
    assert!(Error::DecodeError.message().contains("decoded"));
    assert!(Error::MissingCredential.message().contains("secret"));
    assert!(Error::TransportError.message().contains("request"));
    assert!(Error::AuthError.message().contains("credential"));
    assert!(Error::ParseError.message().contains("service account key"));
    assert!(Error::UnsupportedOperation.message().contains("not supported"));
}
