//! Making upstream responses deterministic, so that replicas that make the
//! same call independently agree on the bytes: headers are dropped and a JSON
//! body is rewritten in one canonical form.
use vstd::prelude::*;
use crate::validate::HttpHeader;

verus! {

/// An HTTP response as the host hands it over.
pub struct HttpResponse {
    pub status: u128,
    pub headers: Vec<HttpHeader>,
    pub body: Vec<u8>,
}

/// The canonical JSON form of `body`: keys of every object in sorted order,
/// no whitespace; `None` where `body` is not JSON.
pub uninterp spec fn canonical_json(body: Seq<u8>) -> Option<Seq<u8>>;

/// Relies on serde_json::from_slice, into a `serde_json::Value` (whose objects
/// are ordered maps, as no crate here enables `preserve_order`), and on
/// serde_json::to_vec, which writes it back compactly. The result depends on
/// the bytes alone.
#[verifier::external_body]
fn canonicalize_json(body: &Vec<u8>) -> (r: Option<Vec<u8>>)
    ensures
        match r {
            Some(c) => canonical_json(body@) == Some(c@),
            None => canonical_json(body@) is None,
        },
{
    match serde_json::from_slice::<serde_json::Value>(body.as_slice()) {
        Ok(value) => serde_json::to_vec(&value).ok(),
        Err(_) => None,
    }
}

/// The body after canonicalization: its canonical JSON form, or the body
/// itself where it is not JSON.
pub open spec fn canonical_body(body: Seq<u8>) -> Seq<u8> {
    match canonical_json(body) {
        Some(c) => c,
        None => body,
    }
}

/// The response with its headers dropped and its body replaced by
/// `canonical`, where that is given.
pub fn normalized_response(response: HttpResponse, canonical: Option<Vec<u8>>) -> (r: HttpResponse)
    ensures
        r.status == response.status,
        r.headers@.len() == 0,
        r.body@ == match canonical {
            Some(c) => c@,
            None => response.body@,
        },
{
    HttpResponse {
        status: response.status,
        headers: Vec::new(),
        body: match canonical {
            Some(c) => c,
            None => response.body,
        },
    }
}

/// Drops every header and canonicalizes a JSON body; a body that is not JSON
/// passes unchanged. The status passes unchanged.
pub fn transform(response: HttpResponse) -> (r: HttpResponse)
    ensures
        r.status == response.status,
        r.headers@.len() == 0,
        r.body@ == canonical_body(response.body@),
{
    let canonical = canonicalize_json(&response.body);
    normalized_response(response, canonical)
}

/// Drops every header; status and body pass unchanged.
pub fn transform_evm_rpc(response: HttpResponse) -> (r: HttpResponse)
    ensures
        r.status == response.status,
        r.headers@.len() == 0,
        r.body@ == response.body@,
{
    normalized_response(response, None)
}

/// Transforming twice gives what transforming once gave, wherever the
/// canonical form of a JSON body is itself canonical.
pub proof fn lemma_canonical_body_idempotent(body: Seq<u8>)
    requires
        canonical_json(body) matches Some(c) ==> canonical_json(c) == Some(c),
    ensures
        canonical_body(canonical_body(body)) == canonical_body(body),
{
}

} // verus!
