//! Checking that a message was signed by the holder of an Ethereum address:
//! the signer is recovered from the signature and compared with the address.
use vstd::prelude::*;
use crate::text::bytes_eq;

verus! {

/// What was signed: the message itself, or its 32-byte hash.
pub enum Message {
    Data(Vec<u8>),
    Hash([u8; 32]),
}

/// A claimed signer, a message and a 65-byte signature (r, s, v).
pub struct SignedMessage {
    pub address: Vec<u8>,
    pub message: Message,
    pub signature: Vec<u8>,
}

/// The hash that signing `data` as an Ethereum signed message signs.
pub uninterp spec fn signed_message_hash(data: Seq<u8>) -> Seq<u8>;

/// The address recovered from `signature` over the 32-byte `hash`, if any.
pub uninterp spec fn recovered_signer(signature: Seq<u8>, hash: Seq<u8>) -> Option<Seq<u8>>;

/// Relies on ethers_core::utils::hash_message: the Keccak-256 hash, 32 bytes,
/// of `data` behind the Ethereum signed-message prefix.
#[verifier::external_body]
fn hash_message(data: &Vec<u8>) -> (r: Vec<u8>)
    ensures
        r@ == signed_message_hash(data@),
        r@.len() == 32,
{
    ethers_core::utils::hash_message(data.as_slice()).as_bytes().to_vec()
}

/// Relies on ethers_core's `Signature::try_from(&[u8])`, which reads a 65-byte
/// signature and refuses any other length, and on `Signature::recover` over a
/// hash, which yields a 20-byte address or an error.
#[verifier::external_body]
fn recover_signer(signature: &Vec<u8>, hash: &Vec<u8>) -> (r: Option<Vec<u8>>)
    requires
        hash@.len() == 32,
    ensures
        match r {
            Some(a) => recovered_signer(signature@, hash@) == Some(a@) && a@.len() == 20,
            None => recovered_signer(signature@, hash@) is None,
        },
{
    let hash = ethers_core::types::H256::from_slice(hash.as_slice());
    match ethers_core::types::Signature::try_from(signature.as_slice()) {
        Ok(sig) => match sig.recover(ethers_core::types::RecoveryMessage::Hash(hash)) {
            Ok(address) => Some(address.as_bytes().to_vec()),
            Err(_) => None,
        },
        Err(_) => None,
    }
}

/// The hash that a signature over `m` signs.
pub open spec fn message_hash(m: Message) -> Seq<u8> {
    match m {
        Message::Data(d) => signed_message_hash(d@),
        Message::Hash(h) => h@,
    }
}

/// `address` is a 20-byte address and is the signer that was recovered.
pub open spec fn is_signer(address: Seq<u8>, recovered: Option<Seq<u8>>) -> bool {
    address.len() == 20 && recovered == Some(address)
}

/// Whether the signed message verifies.
pub open spec fn signature_verifies(m: SignedMessage) -> bool {
    is_signer(m.address@, recovered_signer(m.signature@, message_hash(m.message)))
}

/// Compares a claimed address with the signer recovered from a signature.
pub fn signer_matches(address: &Vec<u8>, recovered: &Option<Vec<u8>>) -> (r: bool)
    ensures
        r == is_signer(
            address@,
            match recovered {
                Some(a) => Some(a@),
                None => None,
            },
        ),
{
    if address.len() != 20 {
        return false;
    }
    match recovered {
        Some(a) => bytes_eq(a, address),
        None => false,
    }
}

/// True exactly where the signature over the message recovers to the
/// claimed address; malformed input gives false.
pub fn verify_signature(signed_message: SignedMessage) -> (r: bool)
    ensures
        r == signature_verifies(signed_message),
{
    let hash = match &signed_message.message {
        Message::Data(d) => hash_message(d),
        Message::Hash(h) => vstd::slice::slice_to_vec(h.as_slice()),
    };
    let recovered = recover_signer(&signed_message.signature, &hash);
    signer_matches(&signed_message.address, &recovered)
}

} // verus!
