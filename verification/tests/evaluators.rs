//! Verdict evaluation: subscription expiry, record selection, the sandbox
//! fallback rule, and the per-store package rules.

use iap::apple::{
    apple_should_retry, apple_verify_url, validate_apple_package, validate_apple_response,
    validate_apple_subscription, AppleInAppReceipt, AppleLatestReceipt, AppleReceipt,
    AppleResponse, AppleUrls,
};
use iap::google::{
    validate_google_package, validate_google_response, validate_google_subscription,
    GoogleResponse, SkuType,
};

const NOW: i64 = 1_600_000_000_000;
const DAY: i64 = 86_400_000;

fn latest(expiry_ms: i64, product: &str, txn: &str) -> AppleLatestReceipt {
    AppleLatestReceipt {
        expires_date_ms: expiry_ms.to_string(),
        product_id: product.to_string(),
        transaction_id: txn.to_string(),
        ..Default::default()
    }
}

#[test]
fn test_sandbox_response() {
    // Production reports a test-environment receipt: exactly one retry
    // against the sandbox, whose response then decides the verdict.
    let production = AppleResponse::parse("{\"status\": 21007}").unwrap();
    assert_eq!(production.status, 21007);
    assert!(apple_should_retry(production.status, false));

    let sandbox = AppleResponse {
        latest_receipt: Some(String::new()),
        latest_receipt_info: Some(vec![latest(NOW + DAY, "sub1", "t1")]),
        ..Default::default()
    };
    // Whatever the sandbox answers is final: no second retry.
    assert!(!apple_should_retry(sandbox.status, true));
    assert!(!apple_should_retry(21007, true));
    assert!(validate_apple_subscription(&sandbox, "", NOW).valid);
}

#[test]
fn test_invalid_receipt() {
    let response = AppleResponse {
        latest_receipt: Some(String::new()),
        receipt: Some(AppleReceipt {
            in_app: Some(vec![AppleInAppReceipt {
                expires_date_ms: Some(NOW.to_string()),
                transaction_id: Some("txn".to_string()),
                ..Default::default()
            }]),
        }),
        latest_receipt_info: Some(vec![latest(NOW, "sub1", "")]),
        ..Default::default()
    };
    // The expiry equals the reference time: strictly-greater fails.
    assert!(!validate_apple_response(&response, "txn", NOW).valid);
}

#[test]
fn test_most_recent_receipt() {
    // With no transaction id to match, the record with the greatest
    // expiry wins.
    let infos = vec![
        latest(NOW, "a", ""),
        latest(NOW + DAY, "b", ""),
        latest(NOW - DAY, "c", ""),
    ];
    let response = AppleResponse {
        latest_receipt: Some(String::new()),
        latest_receipt_info: Some(infos),
        ..Default::default()
    };
    let verdict = validate_apple_subscription(&response, "", NOW);
    assert!(verdict.valid);
    assert_eq!(verdict.product_id.as_deref(), Some("b"));
}

#[test]
fn test_apple_fail() {
    let response = AppleResponse::parse("{\"status\": 333}").unwrap();
    // Not 0 and not the test code: invalid, and no second call.
    assert!(!apple_should_retry(response.status, false));
    assert!(!validate_apple_response(&response, "", NOW).valid);
}

#[test]
fn test_google_fail() {
    let response = GoogleResponse {
        expiry_time: Some(NOW.to_string()),
        ..Default::default()
    };
    assert!(!validate_google_subscription(&response, NOW).valid);
}

#[test]
fn test_google() {
    let response = GoogleResponse {
        expiry_time: Some((NOW + DAY).to_string()),
        ..Default::default()
    };
    assert!(validate_google_subscription(&response, NOW).valid);
}

#[test]
fn subscription_matched_transaction_wins() {
    let infos = vec![latest(NOW + DAY, "a", "t1"), latest(NOW + 2 * DAY, "b", "t2")];
    let response = AppleResponse {
        latest_receipt_info: Some(infos),
        ..Default::default()
    };
    // A matching, unexpired transaction beats the one with the greater
    // expiry.
    let verdict = validate_apple_subscription(&response, "t1", NOW);
    assert!(verdict.valid);
    assert_eq!(verdict.product_id.as_deref(), Some("a"));
}

#[test]
fn subscription_expired_match_falls_back() {
    let infos = vec![latest(NOW - DAY, "a", "t1"), latest(NOW + DAY, "b", "t2")];
    let response = AppleResponse {
        latest_receipt_info: Some(infos),
        ..Default::default()
    };
    // The matched record is expired: the latest renewal decides instead.
    let verdict = validate_apple_subscription(&response, "t1", NOW);
    assert!(verdict.valid);
    assert_eq!(verdict.product_id.as_deref(), Some("b"));
}

#[test]
fn subscription_equal_expiry_first_wins() {
    // Equal expiries: the first occurrence is selected.
    let infos = vec![latest(NOW + DAY, "first", ""), latest(NOW + DAY, "second", "")];
    let response = AppleResponse {
        latest_receipt_info: Some(infos),
        ..Default::default()
    };
    let verdict = validate_apple_subscription(&response, "", NOW);
    assert!(verdict.valid);
    assert_eq!(verdict.product_id.as_deref(), Some("first"));
}

#[test]
fn subscription_unparsable_expiry_never_selected() {
    let infos = vec![latest(NOW - DAY, "old", ""), AppleLatestReceipt {
        expires_date_ms: "not-a-number".to_string(),
        product_id: "bad".to_string(),
        ..Default::default()
    }];
    let response = AppleResponse {
        latest_receipt_info: Some(infos),
        ..Default::default()
    };
    // The unparsable expiry ranks below the parsable one: the expired
    // record is selected and judged, so the verdict is invalid but names
    // the parsable record.
    let verdict = validate_apple_subscription(&response, "", NOW);
    assert!(!verdict.valid);
    assert_eq!(verdict.product_id.as_deref(), Some("old"));
}

#[test]
fn subscription_no_records_fails_closed() {
    let response = AppleResponse::default();
    let verdict = validate_apple_subscription(&response, "", NOW);
    assert!(!verdict.valid);
    assert!(verdict.product_id.is_none());
}

#[test]
fn subscription_all_unparsable_fails_closed() {
    let response = AppleResponse {
        latest_receipt_info: Some(vec![AppleLatestReceipt {
            expires_date_ms: String::new(),
            ..Default::default()
        }]),
        ..Default::default()
    };
    let verdict = validate_apple_subscription(&response, "", NOW);
    assert!(!verdict.valid);
    assert!(verdict.product_id.is_none());
}

#[test]
fn subscription_expiry_bounds() {
    // The greatest expiry that still parses as a 64-bit integer.
    let response = AppleResponse {
        latest_receipt_info: Some(vec![AppleLatestReceipt {
            expires_date_ms: "9223372036854775807".to_string(),
            product_id: "max".to_string(),
            ..Default::default()
        }]),
        ..Default::default()
    };
    assert!(validate_apple_subscription(&response, "", NOW).valid);

    // One more does not parse, so the verdict fails closed.
    let overflow = AppleResponse {
        latest_receipt_info: Some(vec![AppleLatestReceipt {
            expires_date_ms: "9223372036854775808".to_string(),
            ..Default::default()
        }]),
        ..Default::default()
    };
    assert!(!validate_apple_subscription(&overflow, "", NOW).valid);
}

#[test]
fn apple_package_requires_status_and_match() {
    let receipt = AppleReceipt {
        in_app: Some(vec![AppleInAppReceipt {
            product_id: Some("prod".to_string()),
            transaction_id: Some("t1".to_string()),
            expires_date_ms: None,
        }]),
    };
    let good = AppleResponse {
        receipt: Some(receipt),
        ..Default::default()
    };
    let verdict = validate_apple_package(&good, "t1");
    assert!(verdict.valid);
    assert_eq!(verdict.product_id.as_deref(), Some("prod"));

    // No matching transaction: invalid.
    assert!(!validate_apple_package(&good, "t2").valid);

    // Non-zero status: invalid even with a match, but the product id is
    // still reported.
    let bad = AppleResponse {
        status: 1,
        ..good.clone()
    };
    let verdict = validate_apple_package(&bad, "t1");
    assert!(!verdict.valid);
    assert_eq!(verdict.product_id.as_deref(), Some("prod"));
}

#[test]
fn apple_package_match_counts_without_product_id() {
    // The match alone decides: a matching transaction whose product id
    // was not echoed is still a valid purchase, with no product to name.
    let response = AppleResponse {
        receipt: Some(AppleReceipt {
            in_app: Some(vec![AppleInAppReceipt {
                product_id: None,
                transaction_id: Some("t1".to_string()),
                expires_date_ms: None,
            }]),
        }),
        ..Default::default()
    };
    let verdict = validate_apple_package(&response, "t1");
    assert!(verdict.valid);
    assert_eq!(verdict.product_id, None);
}

#[test]
fn facade_judges_subscriptions_by_receipt_records() {
    // The facade consults the renewal history only when the receipt's
    // matching transaction carries an expiry. A response holding renewal
    // history alone takes the one-time-product rule and fails its match.
    let history_only = AppleResponse {
        latest_receipt_info: Some(vec![latest(NOW + DAY, "sub1", "t1")]),
        ..Default::default()
    };
    assert!(!validate_apple_response(&history_only, "t1", NOW).valid);
    assert!(validate_apple_subscription(&history_only, "t1", NOW).valid);

    // With the matching transaction marked as a subscription, the facade
    // reaches the renewal history and validates.
    let subscription = AppleResponse {
        receipt: Some(AppleReceipt {
            in_app: Some(vec![AppleInAppReceipt {
                product_id: Some("sub1".to_string()),
                transaction_id: Some("t1".to_string()),
                expires_date_ms: Some((NOW + DAY).to_string()),
            }]),
        }),
        ..history_only.clone()
    };
    let verdict = validate_apple_response(&subscription, "t1", NOW);
    assert!(verdict.valid);
    assert_eq!(verdict.product_id.as_deref(), Some("sub1"));
}

#[test]
fn apple_is_subscription_and_product_id() {
    let response = AppleResponse {
        receipt: Some(AppleReceipt {
            in_app: Some(vec![
                AppleInAppReceipt {
                    product_id: Some("one-time".to_string()),
                    transaction_id: Some("t1".to_string()),
                    expires_date_ms: None,
                },
                AppleInAppReceipt {
                    product_id: Some("sub".to_string()),
                    transaction_id: Some("t2".to_string()),
                    expires_date_ms: Some("123".to_string()),
                },
            ]),
        }),
        ..Default::default()
    };
    assert!(!response.is_subscription("t1"));
    assert!(response.is_subscription("t2"));
    assert!(!response.is_subscription("t3"));
    assert_eq!(response.get_product_id("t1").as_deref(), Some("one-time"));
    assert_eq!(response.get_product_id("t2").as_deref(), Some("sub"));
    assert_eq!(response.get_product_id("t3"), None);
}

#[test]
fn apple_receipt_get_transaction_first_match() {
    let receipt = AppleReceipt {
        in_app: Some(vec![
            AppleInAppReceipt {
                product_id: Some("a".to_string()),
                transaction_id: Some("t".to_string()),
                expires_date_ms: None,
            },
            AppleInAppReceipt {
                product_id: Some("b".to_string()),
                transaction_id: Some("t".to_string()),
                expires_date_ms: None,
            },
        ]),
    };
    let t = receipt.get_transaction("t").unwrap();
    assert_eq!(t.product_id.as_deref(), Some("a"));
}

#[test]
fn google_package_states() {
    for (state, expected) in [(0u32, true), (1u32, false), (2u32, false)] {
        let response = GoogleResponse {
            purchase_state: Some(state),
            product_id: Some("sku1".to_string()),
            ..Default::default()
        };
        let verdict = validate_google_package(&response);
        assert_eq!(verdict.valid, expected);
        assert_eq!(verdict.product_id.as_deref(), Some("sku1"));
    }
    // No state at all is not a purchase.
    assert!(!validate_google_package(&GoogleResponse::default()).valid);
}

#[test]
fn google_missing_or_bad_expiry_is_invalid_not_error() {
    let missing = GoogleResponse::default();
    assert!(!validate_google_subscription(&missing, NOW).valid);

    let unparsable = GoogleResponse {
        expiry_time: Some("garbage".to_string()),
        ..Default::default()
    };
    assert!(!validate_google_subscription(&unparsable, NOW).valid);
}

#[test]
fn google_verdict_dispatches_on_sku_type() {
    let response = GoogleResponse {
        expiry_time: Some((NOW + DAY).to_string()),
        purchase_state: Some(1),
        product_id: Some("p".to_string()),
        ..Default::default()
    };
    // As a subscription the unexpired expiry wins; as a product the
    // canceled state loses.
    assert!(validate_google_response(&response, SkuType::Subs, NOW).valid);
    assert!(!validate_google_response(&response, SkuType::Inapp, NOW).valid);
}

#[test]
fn apple_urls_and_endpoint() {
    let urls = AppleUrls::default();
    assert_eq!(urls.production, "https://buy.itunes.apple.com");
    assert_eq!(urls.sandbox, "https://sandbox.itunes.apple.com");
    assert_eq!(
        apple_verify_url(urls.production),
        "https://buy.itunes.apple.com/verifyReceipt"
    );
    assert_eq!(apple_verify_url("http://localhost:1234"), "http://localhost:1234/verifyReceipt");
}
