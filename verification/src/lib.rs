//! Verification of in-app-purchase receipts from two storefronts: the Apple
//! App Store and the Google Play store.
//!
//! The library decodes the receipt envelope delivered by Unity's IAP plugin,
//! decides which request each store's verification endpoint must receive,
//! parses the store's response, and computes a validity verdict for the
//! purchase. All of that logic is verified; the network calls themselves are
//! left to the embedding application.

pub mod apple;
pub mod error;
pub mod google;
pub mod json;
pub mod receipt;
pub mod text;
