use vstd::prelude::*;

verus! {

/// The kinds of failure that receipt validation can surface to a caller.
///
/// A business-logic "invalid purchase" verdict is never reported through this
/// type: evaluators express it as `valid == false` in a `PurchaseResponse`.
/// These variants cover the ways a validation attempt can fail outright.
#[derive(Clone, Copy, Debug, PartialEq, Eq, Structural)]
pub enum Error {
    /// The receipt envelope or one of its nested JSON payloads is malformed.
    DecodeError,
    /// A required secret (Apple shared secret) is absent.
    MissingCredential,
    /// The network call to the store endpoint failed.
    TransportError,
    /// Exchanging the service-account credential for a bearer token failed.
    AuthError,
    /// The store's response body is not valid JSON or lacks a required field.
    ParseError,
    /// The purchase type is not supported by this library.
    UnsupportedOperation,
}

impl Error {
    /// The description of each error kind, as a sequence of characters.
    pub open spec fn message_spec(self) -> Seq<char> {
        match self {
            Error::DecodeError => "the receipt payload could not be decoded"@,
            Error::MissingCredential => "no apple secret has been set"@,
            Error::TransportError => "the request to the store endpoint failed"@,
            Error::AuthError => "the service account credential could not be exchanged for a token"@,
            Error::ParseError => "failed to parse the store response; was the service account key set?"@,
            Error::UnsupportedOperation => "this purchase type is not supported"@,
        }
    }

    /// A short human-readable description of the error.
    pub fn message(&self) -> (r: &'static str)
        ensures
            r@ == self.message_spec(),
    {
        match self {
            Error::DecodeError => "the receipt payload could not be decoded",
            Error::MissingCredential => "no apple secret has been set",
            Error::TransportError => "the request to the store endpoint failed",
            Error::AuthError => "the service account credential could not be exchanged for a token",
            Error::ParseError => "failed to parse the store response; was the service account key set?",
            Error::UnsupportedOperation => "this purchase type is not supported",
        }
    }
}

} // verus!
