//! The three-legged PIN credential bundle.
use vstd::prelude::*;

verus! {

/// An opaque bundle of four secrets. Immutable once constructed; owned
/// by the signer and never logged or serialized.
#[derive(Debug, Clone)]
pub struct Twitter3Pin {
    pub consumer_key: String,
    pub consumer_secret: String,
    pub access_token: String,
    pub access_token_secret: String,
}

} // verus!
