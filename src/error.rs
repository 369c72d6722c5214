//! The errors that a call through the gateway can end in.
use vstd::prelude::*;
use crate::registry::ProviderError;
use crate::validate::ValidationError;

verus! {

pub enum RpcError {
    ProviderError(ProviderError),
    ValidationError(ValidationError),
    HttpOutcallError { code: u32, message: String },
}

} // verus!
