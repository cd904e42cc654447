//! The calls into the `urlencoding` crate and the `base64` crate.

use vstd::prelude::*;

verus! {

/// A text with every byte percent-encoded but letters, digits and `-`, `_`, `.`, `~`.
pub uninterp spec fn url_encoded(s: Seq<char>) -> Seq<char>;

/// A percent-encoded text decoded; `None` where what comes out is not valid UTF-8.
pub uninterp spec fn url_decoded(s: Seq<char>) -> Option<Seq<char>>;

/// `urlencoding::encode`. The contract names the result.
#[verifier::external_body]
pub(crate) fn url_encode(s: &str) -> (r: String)
    ensures
        r@ == url_encoded(s@),
{
    urlencoding::encode(s).into_owned()
}

/// `urlencoding::decode`, with its error dropped. The contract names the result.
#[verifier::external_body]
pub(crate) fn url_decode(s: &str) -> (r: Option<String>)
    ensures
        match r {
            Some(t) => url_decoded(s@) == Some(t@),
            None => url_decoded(s@) is None,
        },
{
    urlencoding::decode(s).ok().map(|t| t.into_owned())
}

/// The bytes of a file in base 64, with the standard alphabet and padding.
pub uninterp spec fn base64_of(bytes: Seq<u8>) -> Seq<char>;

/// `base64::Engine::encode` of the standard engine. The contract names the result.
#[verifier::external_body]
pub(crate) fn base64_encode(bytes: &[u8]) -> (r: String)
    ensures
        r@ == base64_of(bytes@),
{
    base64::Engine::encode(&base64::engine::general_purpose::STANDARD, bytes)
}

} // verus!
