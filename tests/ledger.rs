use evm_gateway::auth::{Auth, AuthTable};
use evm_gateway::cost::{get_call_cost, get_request_cost, URL_CYCLES_PER_CALL, URL_CYCLES_PER_MESSAGE_BYTE};
use evm_gateway::gateway::{Gateway, DEFAULT_NODES_IN_SUBNET};
use evm_gateway::ledger::MINIMUM_WITHDRAWAL_CYCLES;
use evm_gateway::registry::{Provider, ProviderError, RegisterProvider, ResolvedSource};

fn provider(cycles_per_call: u64, cycles_per_message_byte: u64) -> Provider {
    Provider {
        provider_id: 3,
        owner: "o".to_string(),
        chain_id: 1,
        hostname: "rpc.ankr.com".to_string(),
        credential_path: String::new(),
        cycles_per_call,
        cycles_per_message_byte,
        cycles_owed: 0,
        primary: false,
    }
}

fn gateway_with_provider(owner: &str) -> (Gateway, u64) {
    let mut gw = Gateway::new();
    let owner = owner.to_string();
    gw.authorize(&owner, true, &owner, Auth::RegisterProvider).ok().unwrap();
    let args = RegisterProvider {
        chain_id: 1,
        hostname: "rpc.ankr.com".to_string(),
        credential_path: String::new(),
        cycles_per_call: 100,
        cycles_per_message_byte: 1,
    };
    let id = gw.register_provider(&owner, args).ok().unwrap();
    (gw, id)
}

#[test]
fn rights_are_independent_bits() {
    let mut t = AuthTable::new();
    let a = "a".to_string();
    let b = "b".to_string();
    assert!(!t.is_authorized(&a, Auth::Rpc));
    t.authorize(&a, Auth::Rpc);
    t.authorize(&a, Auth::FreeRpc);
    t.authorize(&b, Auth::Admin);
    assert!(t.is_authorized(&a, Auth::Rpc));
    assert!(t.is_authorized(&a, Auth::FreeRpc));
    assert!(!t.is_authorized(&a, Auth::Admin));
    assert!(!t.is_authorized(&b, Auth::Rpc));
    t.deauthorize(&a, Auth::Rpc);
    assert!(!t.is_authorized(&a, Auth::Rpc));
    assert!(t.is_authorized(&a, Auth::FreeRpc));
    assert_eq!(t.get_authorized(Auth::FreeRpc), vec!["a".to_string()]);
    assert_eq!(t.get_authorized(Auth::Admin), vec!["b".to_string()]);
    assert!(t.get_authorized(Auth::RegisterProvider).is_empty());
    assert_eq!(Auth::RegisterProvider.bit(), 4);
}

#[test]
fn admin_operations_need_admin() {
    let mut gw = Gateway::new();
    let x = "x".to_string();
    assert!(gw.set_nodes_in_subnet(&x, false, 34).is_err());
    assert_eq!(gw.get_nodes_in_subnet(&x, true).ok(), Some(DEFAULT_NODES_IN_SUBNET));
    gw.authorize(&x, true, &x, Auth::Admin).ok().unwrap();
    assert!(gw.set_nodes_in_subnet(&x, false, 34).is_ok());
    assert_eq!(gw.get_nodes_in_subnet(&x, false).ok(), Some(34));
    assert!(gw.set_open_rpc_access(&x, false, false).is_ok());
    assert_eq!(gw.get_open_rpc_access(&x, false).ok(), Some(false));
    assert_eq!(gw.get_authorized(&x, false, Auth::Admin).ok(), Some(vec!["x".to_string()]));
    assert!(gw.get_authorized(&"y".to_string(), false, Auth::Admin).is_err());
}

#[test]
fn provider_cost_formula() {
    let src = ResolvedSource::Provider(provider(1000, 10));
    // (1000 + (3 + 100) * 10) * 13
    assert_eq!(get_request_cost(&src, "abc", 100, 13), 26390);
    assert_eq!(get_request_cost(&src, "abc", 100, 0), 0);
    assert_eq!(get_call_cost(0, 0, 5, 5, 13), 0);
}

#[test]
fn url_cost_uses_baseline_rates() {
    let src = ResolvedSource::Url("https://example.org".to_string());
    let expected = (URL_CYCLES_PER_CALL as u128 + 10 * URL_CYCLES_PER_MESSAGE_BYTE as u128) * 2;
    assert_eq!(get_request_cost(&src, "12345", 5, 2), expected);
}

#[test]
fn cost_is_monotone_and_linear() {
    let src = ResolvedSource::Provider(provider(500, 3));
    let base = get_request_cost(&src, "{}", 10, 1);
    assert!(get_request_cost(&src, "{\"a\":1}", 10, 1) >= base);
    assert!(get_request_cost(&src, "{}", 11, 1) >= base);
    assert_eq!(get_request_cost(&src, "{}", 10, 7), 7 * base);
    assert_eq!(get_request_cost(&src, "{}", 10, 28), 28 * base);
}

#[test]
fn cost_saturates() {
    assert_eq!(get_call_cost(u64::MAX, u64::MAX, usize::MAX, u64::MAX, u32::MAX), u128::MAX);
}

#[test]
fn failed_withdrawal_restores_balance() {
    let (mut gw, id) = gateway_with_provider("owner");
    let owner = "owner".to_string();
    assert!(gw.registry.accrue(id, 5_000_000_000));
    for _ in 0..3 {
        let amount = gw.begin_withdrawal(&owner, id).ok().unwrap();
        assert_eq!(amount, 5_000_000_000);
        assert_eq!(gw.registry.cycles_owed(id), Some(0));
        assert!(gw.settle_withdrawal(id, amount, false));
        assert_eq!(gw.registry.cycles_owed(id), Some(5_000_000_000));
    }
    let amount = gw.begin_withdrawal(&owner, id).ok().unwrap();
    assert!(gw.settle_withdrawal(id, amount, true));
    assert_eq!(gw.registry.cycles_owed(id), Some(0));
}

#[test]
fn refund_goes_to_current_state() {
    let (mut gw, id) = gateway_with_provider("owner");
    let owner = "owner".to_string();
    gw.registry.accrue(id, 2_000_000_000);
    let amount = gw.begin_withdrawal(&owner, id).ok().unwrap();
    gw.registry.accrue(id, 7);
    assert!(gw.settle_withdrawal(id, amount, false));
    assert_eq!(gw.registry.cycles_owed(id), Some(2_000_000_007));
    let amount = gw.begin_withdrawal(&owner, id).ok().unwrap();
    assert_eq!(gw.unregister_provider(&owner, id).ok(), Some(true));
    assert!(!gw.settle_withdrawal(id, amount, false));
}

#[test]
fn withdrawal_below_minimum_is_refused() {
    let (mut gw, id) = gateway_with_provider("owner");
    let owner = "owner".to_string();
    gw.registry.accrue(id, MINIMUM_WITHDRAWAL_CYCLES - 1);
    match gw.begin_withdrawal(&owner, id) {
        Err(ProviderError::TooFewCycles { expected, received }) => {
            assert_eq!(expected, MINIMUM_WITHDRAWAL_CYCLES);
            assert_eq!(received, MINIMUM_WITHDRAWAL_CYCLES - 1);
        }
        _ => panic!("expected TooFewCycles"),
    }
    assert_eq!(gw.registry.cycles_owed(id), Some(MINIMUM_WITHDRAWAL_CYCLES - 1));
    gw.registry.accrue(id, 1);
    assert_eq!(gw.begin_withdrawal(&owner, id).ok(), Some(MINIMUM_WITHDRAWAL_CYCLES));
}

#[test]
fn withdrawal_is_for_the_owner() {
    let (mut gw, id) = gateway_with_provider("owner");
    let other = "other".to_string();
    gw.registry.accrue(id, MINIMUM_WITHDRAWAL_CYCLES);
    assert!(matches!(gw.begin_withdrawal(&other, id), Err(ProviderError::NoPermission)));
    gw.authorize(&other, true, &other, Auth::RegisterProvider).ok().unwrap();
    assert!(matches!(gw.begin_withdrawal(&other, id), Err(ProviderError::NoPermission)));
    assert!(matches!(gw.get_accumulated_cycle_count(&other, id), Err(ProviderError::NoPermission)));
    assert!(matches!(
        gw.begin_withdrawal(&"owner".to_string(), 9),
        Err(ProviderError::ProviderNotFound)
    ));
    assert_eq!(
        gw.get_accumulated_cycle_count(&"owner".to_string(), id).ok(),
        Some(MINIMUM_WITHDRAWAL_CYCLES)
    );
}

#[test]
fn host_requests_are_counted_per_host() {
    let mut m = evm_gateway::gateway::Metrics::new();
    let a = "rpc.ankr.com".to_string();
    let b = "cloudflare-eth.com".to_string();
    m.count_host(&a);
    m.count_host(&b);
    m.count_host(&a);
    assert_eq!(m.host_requests.len(), 2);
    assert_eq!(m.host_requests[0].host, "rpc.ankr.com");
    assert_eq!(m.host_requests[0].count, 2);
    assert_eq!(m.host_requests[1].count, 1);
    assert_eq!(m.requests, 0);
}

#[test]
fn cost_counts_payload_bytes() {
    let src = ResolvedSource::Provider(provider(1000, 10));
    // "éé" is two characters and four UTF-8 bytes.
    assert_eq!(get_request_cost(&src, "éé", 0, 1), 1000 + 4 * 10);
    assert!(get_request_cost(&src, "éé", 0, 1) > get_request_cost(&src, "aaa", 0, 1));
}
