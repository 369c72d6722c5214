use ethers_core::k256::ecdsa::SigningKey;
use evm_gateway::auth::Auth;
use evm_gateway::error::RpcError;
use evm_gateway::gateway::Gateway;
use evm_gateway::registry::{ProviderError, RegisterProvider, Source, UpdateProvider};
use evm_gateway::signature::{signer_matches, verify_signature, Message, SignedMessage};
use evm_gateway::transform::{normalized_response, transform, transform_evm_rpc, HttpResponse};
use evm_gateway::validate::HttpHeader;

fn response(body: &[u8]) -> HttpResponse {
    HttpResponse {
        status: 200,
        headers: vec![HttpHeader { name: "Date".to_string(), value: "today".to_string() }],
        body: body.to_vec(),
    }
}

fn sign(key: &SigningKey, data: &[u8]) -> (Vec<u8>, Vec<u8>) {
    let hash = ethers_core::utils::hash_message(data);
    let (sig, recid) = key.sign_prehash_recoverable(hash.as_bytes()).unwrap();
    let mut bytes = sig.to_bytes().to_vec();
    bytes.push(27 + recid.to_byte());
    let address = ethers_core::utils::secret_key_to_address(key).as_bytes().to_vec();
    (address, bytes)
}

fn key() -> SigningKey {
    SigningKey::from_slice(&[7u8; 32]).unwrap()
}

#[test]
fn transform_strips_headers_and_sorts_keys() {
    let r = transform(response(br#"{ "b": 1, "a": {"d": [1, 2], "c": null} }"#));
    assert_eq!(r.status, 200);
    assert!(r.headers.is_empty());
    assert_eq!(r.body, br#"{"a":{"c":null,"d":[1,2]},"b":1}"#.to_vec());
}

#[test]
fn transform_key_permutations_agree() {
    let x = transform(response(br#"{"id":1,"jsonrpc":"2.0","result":"0x1"}"#));
    let y = transform(response(br#"{"result":"0x1","jsonrpc":"2.0","id":1}"#));
    assert_eq!(x.body, y.body);
}

#[test]
fn transform_is_idempotent() {
    for body in [&br#"{"z":[{"y":2,"x":1}],"a":true}"#[..], b"not json", b"", b"[1, 2.5, \"s\"]"] {
        let once = transform(response(body));
        let twice = transform(HttpResponse { status: once.status, headers: vec![], body: once.body.clone() });
        assert_eq!(once.body, twice.body);
        assert_eq!(once.status, twice.status);
    }
}

#[test]
fn transform_passes_non_json() {
    let r = transform(response(b"<html>busy</html>"));
    assert_eq!(r.body, b"<html>busy</html>".to_vec());
    assert!(r.headers.is_empty());
    let r = transform_evm_rpc(response(br#"{"b":1,"a":2}"#));
    assert_eq!(r.body, br#"{"b":1,"a":2}"#.to_vec());
    assert!(r.headers.is_empty());
    let r = normalized_response(response(b"x"), Some(b"y".to_vec()));
    assert_eq!(r.body, b"y".to_vec());
}

#[test]
fn signature_recovers_signer() {
    let key = key();
    let (address, signature) = sign(&key, b"hello");
    let m = SignedMessage { address: address.clone(), message: Message::Data(b"hello".to_vec()), signature: signature.clone() };
    assert!(verify_signature(m));
    let hash = ethers_core::utils::hash_message(b"hello").0;
    let m = SignedMessage { address: address.clone(), message: Message::Hash(hash), signature: signature.clone() };
    assert!(verify_signature(m));
    let m = SignedMessage { address, message: Message::Data(b"hellO".to_vec()), signature };
    assert!(!verify_signature(m));
}

#[test]
fn signature_bit_flip_fails() {
    let key = key();
    let (address, signature) = sign(&key, b"payload");
    for i in [0usize, 31, 40, 63] {
        let mut bad = signature.clone();
        bad[i] ^= 1;
        let m = SignedMessage { address: address.clone(), message: Message::Data(b"payload".to_vec()), signature: bad };
        assert!(!verify_signature(m));
    }
    let short = SignedMessage { address: address.clone(), message: Message::Data(b"payload".to_vec()), signature: signature[..64].to_vec() };
    assert!(!verify_signature(short));
    let bad_address = SignedMessage { address: address[..19].to_vec(), message: Message::Data(b"payload".to_vec()), signature };
    assert!(!verify_signature(bad_address));
}

#[test]
fn signer_comparison() {
    let a = vec![1u8; 20];
    assert!(signer_matches(&a, &Some(a.clone())));
    assert!(!signer_matches(&a, &Some(vec![2u8; 20])));
    assert!(!signer_matches(&a, &None));
    assert!(!signer_matches(&vec![1u8; 3], &Some(vec![1u8; 3])));
}

#[test]
fn open_access_request_end_to_end() {
    let mut gw = Gateway::new();
    let owner = "owner".to_string();
    gw.authorize(&owner, true, &owner, Auth::RegisterProvider).ok().unwrap();
    let reg = |host: &str| RegisterProvider {
        chain_id: 1,
        hostname: host.to_string(),
        credential_path: "/v1".to_string(),
        cycles_per_call: 1000,
        cycles_per_message_byte: 2,
    };
    let other = gw.register_provider(&owner, reg("rpc.ankr.com")).ok().unwrap();
    let primary = gw.register_provider(&owner, reg("cloudflare-eth.com")).ok().unwrap();
    let patch = UpdateProvider {
        provider_id: primary,
        hostname: None,
        credential_path: None,
        cycles_per_call: None,
        cycles_per_message_byte: None,
        primary: Some(true),
    };
    gw.update_provider(&owner, patch).ok().unwrap();

    let caller = "anyone".to_string();
    let payload = r#"{"jsonrpc":"2.0","id":1,"method":"eth_blockNumber"}"#;
    let expected = (1000 + (payload.len() as u128 + 1000) * 2) * 13;
    assert_eq!(gw.request_cost(Source::Chain(1), payload, 1000).ok(), Some(expected));
    let plan = gw.admit_request(&caller, Source::Chain(1), payload, 1000, expected).ok().unwrap();
    assert_eq!(plan.url, "https://cloudflare-eth.com/v1");
    assert_eq!(plan.cost, expected);
    assert_eq!(plan.provider_id, Some(primary));
    assert_eq!(gw.registry.cycles_owed(primary), Some(expected));
    assert_eq!(gw.registry.cycles_owed(other), Some(0));
    assert_eq!(gw.metrics.requests, 1);
    assert_eq!(gw.metrics.request_cycles_charged, expected);
    assert_eq!(gw.metrics.host_requests.len(), 1);
    assert_eq!(gw.metrics.host_requests[0].count, 1);

    let r = transform(response(br#"{"result":"0x10","id":1,"jsonrpc":"2.0"}"#));
    assert!(r.headers.is_empty());
    assert_eq!(r.body, br#"{"id":1,"jsonrpc":"2.0","result":"0x10"}"#.to_vec());

    assert!(gw.record_outcall_failure(&plan));
    assert_eq!(gw.registry.cycles_owed(primary), Some(0));
    assert_eq!(gw.metrics.request_err_http, 1);
    assert_eq!(gw.metrics.request_cycles_refunded, expected);
}

#[test]
fn request_admission_errors() {
    let mut gw = Gateway::new();
    let admin = "admin".to_string();
    let caller = "caller".to_string();
    gw.set_open_rpc_access(&admin, true, false).ok().unwrap();
    let r = gw.admit_request(&caller, Source::Url("https://x.org".to_string()), "{}", 10, u128::MAX);
    assert!(matches!(r, Err(RpcError::ProviderError(ProviderError::NoPermission))));
    assert_eq!(gw.metrics.request_err_no_permission, 1);
    gw.authorize(&admin, true, &caller, Auth::Rpc).ok().unwrap();
    let r = gw.admit_request(&caller, Source::Chain(99), "{}", 10, u128::MAX);
    assert!(matches!(r, Err(RpcError::ProviderError(ProviderError::ProviderNotFound))));
    let r = gw.admit_request(&caller, Source::Url("https://x.org".to_string()), "{}", 10, 5);
    match r {
        Err(RpcError::ProviderError(ProviderError::TooFewCycles { expected, received })) => {
            assert_eq!(received, 5);
            assert!(expected > 5);
        }
        _ => panic!("expected TooFewCycles"),
    }
    gw.authorize(&admin, true, &caller, Auth::FreeRpc).ok().unwrap();
    let plan = gw.admit_request(&caller, Source::Url("https://x.org".to_string()), "{}", 10, 0).ok().unwrap();
    assert_eq!(plan.cost, 0);
    assert_eq!(plan.url, "https://x.org");
    assert_eq!(plan.provider_id, None);
}

#[test]
fn register_rejects_bad_endpoint_data() {
    let mut gw = Gateway::new();
    let owner = "owner".to_string();
    gw.authorize(&owner, true, &owner, Auth::Admin).ok().unwrap();
    let mut args = RegisterProvider {
        chain_id: 1,
        hostname: "unknown.host".to_string(),
        credential_path: "/k".to_string(),
        cycles_per_call: 0,
        cycles_per_message_byte: 0,
    };
    assert!(matches!(
        gw.register_provider(&owner, RegisterProvider { hostname: args.hostname.clone(), credential_path: args.credential_path.clone(), ..args }),
        Err(RpcError::ValidationError(_))
    ));
    args.hostname = "rpc.ankr.com".to_string();
    args.credential_path = "k".to_string();
    assert!(matches!(gw.register_provider(&owner, args), Err(RpcError::ValidationError(_))));
    assert!(gw.registry.providers.is_empty());
    assert_eq!(gw.metrics.request_err_host_not_allowed, 1);
}
