//! Checks on the endpoint data that a provider registers: the hostname must be
//! on the allowlist, the credential path must start a path or a query, and the
//! credential headers may not set the content type.
use vstd::prelude::*;
use crate::text::str_eq;

verus! {

/// The header that the gateway sets itself on every upstream call.
pub const CONTENT_TYPE_HEADER: &'static str = "Content-Type";

/// An HTTP header: a name and a value.
pub struct HttpHeader {
    pub name: String,
    pub value: String,
}

/// Why endpoint data was refused; each variant carries the offending text.
pub enum ValidationError {
    HostNotAllowed(String),
    CredentialPathNotAllowed(String),
    CredentialHeaderNotAllowed(String),
}

/// The hostnames that providers may register.
pub open spec fn is_allowed_host(h: Seq<char>) -> bool {
    ||| h == "cloudflare-eth.com"@
    ||| h == "ethereum.publicnode.com"@
    ||| h == "ethereum-sepolia.publicnode.com"@
    ||| h == "eth-mainnet.g.alchemy.com"@
    ||| h == "eth-sepolia.g.alchemy.com"@
    ||| h == "rpc.flashbots.net"@
    ||| h == "eth-mainnet.blastapi.io"@
    ||| h == "ethereum-mainnet.core.chainstack.com"@
    ||| h == "rpc.ankr.com"@
    ||| h == "eth.llamarpc.com"@
    ||| h == "rpc.sepolia.org"@
    ||| h == "mainnet.infura.io"@
    ||| h == "sepolia.infura.io"@
}

/// A credential path is empty or begins a path (`/`) or a query (`?`).
pub open spec fn is_allowed_credential_path(p: Seq<char>) -> bool {
    p.len() == 0 || p[0] == '/' || p[0] == '?'
}

/// Some header of the list sets the content type.
pub open spec fn sets_content_type(headers: Seq<HttpHeader>) -> bool {
    exists|i: int| 0 <= i < headers.len() && #[trigger] headers[i].name@ == CONTENT_TYPE_HEADER@
}

pub fn validate_hostname(hostname: &str) -> (r: Result<(), ValidationError>)
    ensures
        r is Ok <==> is_allowed_host(hostname@),
        r matches Err(e) ==> e matches ValidationError::HostNotAllowed(s) && s@ == hostname@,
{
    let allowed = str_eq(hostname, "cloudflare-eth.com")
        || str_eq(hostname, "ethereum.publicnode.com")
        || str_eq(hostname, "ethereum-sepolia.publicnode.com")
        || str_eq(hostname, "eth-mainnet.g.alchemy.com")
        || str_eq(hostname, "eth-sepolia.g.alchemy.com")
        || str_eq(hostname, "rpc.flashbots.net")
        || str_eq(hostname, "eth-mainnet.blastapi.io")
        || str_eq(hostname, "ethereum-mainnet.core.chainstack.com")
        || str_eq(hostname, "rpc.ankr.com")
        || str_eq(hostname, "eth.llamarpc.com")
        || str_eq(hostname, "rpc.sepolia.org")
        || str_eq(hostname, "mainnet.infura.io")
        || str_eq(hostname, "sepolia.infura.io");
    if allowed {
        Ok(())
    } else {
        Err(ValidationError::HostNotAllowed(hostname.to_owned()))
    }
}

pub fn validate_credential_path(credential_path: &str) -> (r: Result<(), ValidationError>)
    ensures
        r is Ok <==> is_allowed_credential_path(credential_path@),
        r matches Err(e) ==> e matches ValidationError::CredentialPathNotAllowed(s) && s@
            == credential_path@,
{
    let n = credential_path.unicode_len();
    if n == 0 {
        return Ok(());
    }
    let first = credential_path.get_char(0);
    if first == '/' || first == '?' {
        Ok(())
    } else {
        Err(ValidationError::CredentialPathNotAllowed(credential_path.to_owned()))
    }
}

pub fn validate_credential_headers(credential_headers: &[HttpHeader]) -> (r: Result<
    (),
    ValidationError,
>)
    ensures
        r is Ok <==> !sets_content_type(credential_headers@),
        r matches Err(e) ==> e matches ValidationError::CredentialHeaderNotAllowed(s) && s@
            == CONTENT_TYPE_HEADER@,
{
    let mut i: usize = 0;
    while i < credential_headers.len()
        invariant
            i <= credential_headers@.len(),
            forall|k: int|
                0 <= k < i ==> #[trigger] credential_headers@[k].name@ != CONTENT_TYPE_HEADER@,
        decreases credential_headers@.len() - i,
    {
        if str_eq(credential_headers[i].name.as_str(), CONTENT_TYPE_HEADER) {
            return Err(ValidationError::CredentialHeaderNotAllowed(CONTENT_TYPE_HEADER.to_owned()));
        }
        i = i + 1;
    }
    Ok(())
}

} // verus!
