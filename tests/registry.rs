use evm_gateway::auth::Auth;
use evm_gateway::gateway::{default_providers, Gateway, DEFAULT_NODES_IN_SUBNET};
use evm_gateway::registry::{
    ProviderError, RegisterProvider, Registry, ResolvedSource, Source, UpdateProvider,
};
use evm_gateway::validate::{
    validate_credential_headers, validate_credential_path, validate_hostname, HttpHeader,
    ValidationError,
};

fn args(chain_id: u64, hostname: &str) -> RegisterProvider {
    RegisterProvider {
        chain_id,
        hostname: hostname.to_string(),
        credential_path: "/key".to_string(),
        cycles_per_call: 1000,
        cycles_per_message_byte: 10,
    }
}

fn resolved_id(r: Result<ResolvedSource, ProviderError>) -> Option<u64> {
    match r {
        Ok(ResolvedSource::Provider(p)) => Some(p.provider_id),
        _ => None,
    }
}

#[test]
fn hostname_allowlist() {
    assert!(validate_hostname("cloudflare-eth.com").is_ok());
    assert!(validate_hostname("rpc.ankr.com").is_ok());
    match validate_hostname("evil.example.com") {
        Err(ValidationError::HostNotAllowed(h)) => assert_eq!(h, "evil.example.com"),
        _ => panic!("expected HostNotAllowed"),
    }
    assert!(validate_hostname("").is_err());
}

#[test]
fn credential_path_rules() {
    assert!(validate_credential_path("").is_ok());
    assert!(validate_credential_path("/v2/key").is_ok());
    assert!(validate_credential_path("?apikey=1").is_ok());
    match validate_credential_path("key") {
        Err(ValidationError::CredentialPathNotAllowed(p)) => assert_eq!(p, "key"),
        _ => panic!("expected CredentialPathNotAllowed"),
    }
}

#[test]
fn credential_headers_rules() {
    let ok = vec![HttpHeader { name: "Authorization".to_string(), value: "x".to_string() }];
    assert!(validate_credential_headers(&ok).is_ok());
    assert!(validate_credential_headers(&[]).is_ok());
    let bad = vec![
        HttpHeader { name: "Authorization".to_string(), value: "x".to_string() },
        HttpHeader { name: "Content-Type".to_string(), value: "text/plain".to_string() },
    ];
    match validate_credential_headers(&bad) {
        Err(ValidationError::CredentialHeaderNotAllowed(h)) => assert_eq!(h, "Content-Type"),
        _ => panic!("expected CredentialHeaderNotAllowed"),
    }
}

#[test]
fn register_assigns_increasing_ids() {
    let mut reg = Registry::new();
    let owner = "owner".to_string();
    assert_eq!(reg.register(owner.clone(), args(1, "rpc.ankr.com")).ok(), Some(0));
    assert_eq!(reg.register(owner.clone(), args(5, "cloudflare-eth.com")).ok(), Some(1));
    assert!(reg.register(owner.clone(), args(1, "bad.host")).is_err());
    assert_eq!(reg.next_provider_id, 2);
    assert_eq!(reg.providers.len(), 2);
    let p = &reg.providers[1];
    assert_eq!(p.provider_id, 1);
    assert_eq!(p.cycles_owed, 0);
    assert!(!p.primary);
    assert_eq!(p.service_url(), "https://cloudflare-eth.com/key");
}

#[test]
fn resolve_prefers_primary_then_first() {
    let mut reg = Registry::new();
    let owner = "owner".to_string();
    let b = reg.register(owner.clone(), args(1, "rpc.ankr.com")).ok().unwrap();
    let a = reg.register(owner.clone(), args(1, "cloudflare-eth.com")).ok().unwrap();
    let patch = UpdateProvider {
        provider_id: a,
        hostname: None,
        credential_path: None,
        cycles_per_call: None,
        cycles_per_message_byte: None,
        primary: Some(true),
    };
    assert!(reg.update(&owner, false, patch).is_ok());
    assert_eq!(resolved_id(Source::Chain(1).resolve(&reg)), Some(a));
    assert_eq!(resolved_id(Source::Chain(1).resolve(&reg)), Some(a));
    assert_eq!(reg.unregister(&owner, false, a).ok(), Some(true));
    assert_eq!(resolved_id(Source::Chain(1).resolve(&reg)), Some(b));
}

#[test]
fn resolve_unknown_chain_fails() {
    let mut reg = Registry::new();
    assert!(matches!(Source::Chain(99).resolve(&reg), Err(ProviderError::ProviderNotFound)));
    reg.register("o".to_string(), args(1, "rpc.ankr.com")).ok().unwrap();
    assert!(matches!(Source::Chain(99).resolve(&reg), Err(ProviderError::ProviderNotFound)));
    assert!(matches!(Source::Provider(7).resolve(&reg), Err(ProviderError::ProviderNotFound)));
}

#[test]
fn resolve_url_provider_and_service() {
    let mut reg = Registry::new();
    let o = "o".to_string();
    let x = reg.register(o.clone(), args(1, "rpc.ankr.com")).ok().unwrap();
    let y = reg.register(o.clone(), args(5, "rpc.ankr.com")).ok().unwrap();
    match Source::Url("https://example.org".to_string()).resolve(&reg) {
        Ok(ResolvedSource::Url(u)) => assert_eq!(u, "https://example.org"),
        _ => panic!("expected a URL"),
    }
    assert_eq!(resolved_id(Source::Provider(y).resolve(&reg)), Some(y));
    let any = Source::Service { hostname: "rpc.ankr.com".to_string(), chain_id: None };
    assert_eq!(resolved_id(any.resolve(&reg)), Some(x));
    let on5 = Source::Service { hostname: "rpc.ankr.com".to_string(), chain_id: Some(5) };
    assert_eq!(resolved_id(on5.resolve(&reg)), Some(y));
    let other = Source::Service { hostname: "cloudflare-eth.com".to_string(), chain_id: None };
    assert!(matches!(other.resolve(&reg), Err(ProviderError::ProviderNotFound)));
}

#[test]
fn update_checks_owner_and_fields() {
    let mut reg = Registry::new();
    let owner = "owner".to_string();
    let id = reg.register(owner.clone(), args(1, "rpc.ankr.com")).ok().unwrap();
    let patch = |hostname: Option<&str>| UpdateProvider {
        provider_id: id,
        hostname: hostname.map(|h| h.to_string()),
        credential_path: None,
        cycles_per_call: Some(7),
        cycles_per_message_byte: None,
        primary: None,
    };
    assert!(reg.update(&"stranger".to_string(), false, patch(None)).is_err());
    assert!(reg.update(&owner, false, patch(Some("bad.host"))).is_err());
    assert_eq!(reg.providers[0].cycles_per_call, 1000);
    assert!(reg.update(&"admin".to_string(), true, patch(Some("eth.llamarpc.com"))).is_ok());
    assert_eq!(reg.providers[0].cycles_per_call, 7);
    assert_eq!(reg.providers[0].hostname, "eth.llamarpc.com");
    let missing = UpdateProvider { provider_id: 42, ..patch(None) };
    assert!(reg.update(&owner, false, missing).is_err());
}

#[test]
fn unregister_rules() {
    let mut reg = Registry::new();
    let owner = "owner".to_string();
    let id = reg.register(owner.clone(), args(1, "rpc.ankr.com")).ok().unwrap();
    assert!(matches!(
        reg.unregister(&"stranger".to_string(), false, id),
        Err(ProviderError::NoPermission)
    ));
    assert_eq!(reg.unregister(&owner, false, 99).ok(), Some(false));
    assert_eq!(reg.unregister(&owner, false, id).ok(), Some(true));
    assert!(reg.providers.is_empty());
}

#[test]
fn register_provider_needs_the_right() {
    let mut gw = Gateway::new();
    let caller = "someone".to_string();
    let r = gw.register_provider(&caller, args(1, "rpc.ankr.com"));
    assert!(matches!(
        r,
        Err(evm_gateway::error::RpcError::ProviderError(ProviderError::NoPermission))
    ));
    assert!(gw.registry.providers.is_empty());
    assert!(gw.get_providers().is_empty());
    assert!(gw.authorize(&caller, true, &caller, Auth::RegisterProvider).is_ok());
    assert_eq!(gw.register_provider(&caller, args(1, "rpc.ankr.com")).ok(), Some(0));
    let views = gw.get_providers();
    assert_eq!(views.len(), 1);
    assert_eq!(views[0].owner, "someone");
    assert_eq!(views[0].hostname, "rpc.ankr.com");
}

#[test]
fn install_registers_default_providers() {
    let installer = "installer".to_string();
    let gw = Gateway::install(&installer, default_providers()).ok().unwrap();
    assert_eq!(gw.registry.providers.len(), 5);
    assert_eq!(gw.registry.next_provider_id, 5);
    for (i, p) in gw.registry.providers.iter().enumerate() {
        assert_eq!(p.provider_id, i as u64);
        assert_eq!(p.owner, "installer");
        assert_eq!(p.cycles_owed, 0);
        assert!(!p.primary);
    }
    assert_eq!(gw.registry.providers[0].service_url(), "https://cloudflare-eth.com/v1/mainnet");
    assert_eq!(gw.registry.providers[3].service_url(), "https://rpc.ankr.com/eth_sepolia");
    assert_eq!(gw.metadata.nodes_in_subnet, DEFAULT_NODES_IN_SUBNET);
    assert_eq!(resolved_id(Source::Chain(11155111).resolve(&gw.registry)), Some(3));
}

#[test]
fn install_refuses_bad_default() {
    let bad = vec![args(1, "rpc.ankr.com"), args(1, "unknown.host")];
    assert!(Gateway::install(&"i".to_string(), bad).is_err());
    assert!(Gateway::install(&"i".to_string(), vec![]).ok().unwrap().registry.providers.is_empty());
}
