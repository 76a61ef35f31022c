use smarthome_mcp::auth::token_proxy::ha_token_valid;
use smarthome_mcp::auth::ip_whitelist::check_whitelist;
use smarthome_mcp::auth::ip_whitelist::Cidr;
use smarthome_mcp::auth::ip_whitelist::IpAddress;
use smarthome_mcp::auth::middleware::bearer_token;
use smarthome_mcp::auth::middleware::check_tool_call_auth;
use smarthome_mcp::auth::middleware::MISSING_SCOPE_CODE;
use smarthome_mcp::auth::scopes::parse_scopes;
use smarthome_mcp::auth::scopes::tool_required_scope;
use smarthome_mcp::auth::scopes::Scope;
use smarthome_mcp::auth::token_proxy::ProxyCheck;
use smarthome_mcp::auth::token_proxy::ProxyValidator;
use smarthome_mcp::auth::token_proxy::TokenCache;
use smarthome_mcp::auth::token_static::check_static_token;
use smarthome_mcp::auth::AuthDecision;
use smarthome_mcp::auth::AuthResolver;
use smarthome_mcp::auth::GrantedScopes;
use smarthome_mcp::config::AuthConfig;
use smarthome_mcp::config::Config;
use smarthome_mcp::config::HaConfig;
use smarthome_mcp::config::ProxyAuthConfig;
use smarthome_mcp::config::ProxyBackend;
use smarthome_mcp::config::ServerConfig;
use smarthome_mcp::config::TokenEntry;
use smarthome_mcp::config::WhitelistEntry;

fn cidr(s: &str) -> Cidr {
    let net: ipnet::IpNet = s.parse().unwrap();
    match net {
        ipnet::IpNet::V4(n) => Cidr::new(IpAddress::V4(u32::from(n.addr())), n.prefix_len()).unwrap(),
        ipnet::IpNet::V6(n) => {
            Cidr::new(IpAddress::V6(u128::from(n.addr())), n.prefix_len()).unwrap()
        }
    }
}

fn ip(s: &str) -> IpAddress {
    let host = if s.contains(':') { format!("{s}/128") } else { format!("{s}/32") };
    let net: ipnet::IpNet = host.parse().unwrap();
    match net {
        ipnet::IpNet::V4(n) => IpAddress::V4(u32::from(n.addr())),
        ipnet::IpNet::V6(n) => IpAddress::V6(u128::from(n.addr())),
    }
}

fn strings(v: &[&str]) -> Vec<String> {
    v.iter().map(|s| s.to_string()).collect()
}

fn whitelist_auth() -> AuthConfig {
    AuthConfig {
        whitelist: vec![
            WhitelistEntry { cidrs: vec![cidr("192.168.1.0/24")], scopes: strings(&["ha:read"]) },
            WhitelistEntry { cidrs: vec![cidr("10.0.0.0/8")], scopes: strings(&["*"]) },
        ],
        tokens: vec![],
        proxy: None,
    }
}

fn token_auth() -> AuthConfig {
    AuthConfig {
        whitelist: vec![],
        tokens: vec![
            TokenEntry { token: "full-access".to_string(), scopes: strings(&["*"]) },
            TokenEntry { token: "read-only".to_string(), scopes: strings(&["ha:read", "z2m:read"]) },
        ],
        proxy: None,
    }
}

// ---- granted scopes ----

#[test]
fn granted_all_allows_everything() {
    let scopes = GrantedScopes::all();
    assert!(scopes.check_tool("ha_entity.get_state").is_ok());
    assert!(scopes.check_tool("ha_light.turn_on").is_ok());
    assert!(scopes.check_tool("z2m_device.set").is_ok());
}

#[test]
fn granted_none_blocks_everything() {
    let scopes = GrantedScopes::none();
    assert!(scopes.check_tool("ha_entity.get_state").is_err());
    assert!(scopes.check_tool("ha_light.turn_on").is_err());
}

#[test]
fn read_only_blocks_control() {
    let scopes = GrantedScopes(parse_scopes(&["ha:read".to_string(), "z2m:read".to_string()]));
    assert!(scopes.check_tool("ha_entity.get_state").is_ok());
    assert!(scopes.check_tool("ha_entity.list").is_ok());
    assert!(scopes.check_tool("z2m_device.list").is_ok());
    assert!(scopes.check_tool("ha_light.turn_on").is_err());
    assert!(scopes.check_tool("z2m_device.set").is_err());
}

#[test]
fn unknown_tool_allowed() {
    let scopes = GrantedScopes::none();
    assert!(scopes.check_tool("unknown_tool").is_ok());
}

#[test]
fn error_message_names_scope() {
    let scopes = GrantedScopes::none();
    let err = scopes.check_tool("ha_light.turn_on").unwrap_err();
    assert!(err.contains("ha:control"));
    assert!(err.contains("ha_light.turn_on"));
}

#[test]
fn error_message_is_exact() {
    let scopes = GrantedScopes::none();
    let err = scopes.check_tool("z2m_group.add").unwrap_err();
    assert_eq!(err, "missing scope 'z2m:control' required for tool 'z2m_group.add'");
}

#[test]
fn has_reports_membership() {
    let g = GrantedScopes(parse_scopes(&strings(&["z2m:control"])));
    assert!(g.has(&Scope::Z2mControl));
    assert!(!g.has(&Scope::Z2mRead));
    assert!(!GrantedScopes::none().has(&Scope::HaRead));
    assert!(GrantedScopes::all().has(&Scope::HaControl));
}

// ---- scopes ----

#[test]
fn parse_wildcard_returns_all() {
    let scopes = parse_scopes(&["*".to_string()]);
    assert!(scopes.contains(&Scope::HaRead));
    assert!(scopes.contains(&Scope::HaControl));
    assert!(scopes.contains(&Scope::Z2mRead));
    assert!(scopes.contains(&Scope::Z2mControl));
}

#[test]
fn parse_specific_scopes() {
    let scopes = parse_scopes(&["ha:read".to_string(), "z2m:read".to_string()]);
    assert!(scopes.contains(&Scope::HaRead));
    assert!(scopes.contains(&Scope::Z2mRead));
    assert!(!scopes.contains(&Scope::HaControl));
    assert!(!scopes.contains(&Scope::Z2mControl));
}

#[test]
fn unknown_scope_ignored() {
    let scopes = parse_scopes(&["ha:read".to_string(), "bogus".to_string()]);
    assert_eq!(scopes.len(), 1);
}

#[test]
fn wildcard_after_other_names_still_grants_all() {
    let scopes = parse_scopes(&strings(&["bogus", "ha:read", "*"]));
    assert_eq!(scopes.len(), 4);
}

#[test]
fn empty_scope_list_grants_nothing() {
    let scopes = parse_scopes(&[]);
    assert!(scopes.is_empty());
    assert_eq!(scopes.len(), 0);
}

#[test]
fn scope_names_round_trip() {
    for s in [Scope::HaRead, Scope::HaControl, Scope::Z2mRead, Scope::Z2mControl] {
        assert_eq!(Scope::parse(s.as_str()), Some(s));
    }
    assert_eq!(Scope::parse("HA:READ"), None);
    assert_eq!(Scope::parse("*"), None);
}

#[test]
fn tool_scope_mapping() {
    assert_eq!(tool_required_scope("ha_entity.get_state"), Some(Scope::HaRead));
    assert_eq!(tool_required_scope("ha_light.turn_on"), Some(Scope::HaControl));
    assert_eq!(tool_required_scope("z2m_device.list"), Some(Scope::Z2mRead));
    assert_eq!(tool_required_scope("z2m_device.set"), Some(Scope::Z2mControl));
    assert_eq!(tool_required_scope("unknown_tool"), None);
}

#[test]
fn tool_scope_mapping_covers_every_tool() {
    for t in ["ha_entity.list", "ha_entity.search", "ha_area.get_status", "ha_area.list", "ha_todo.get_items"] {
        assert_eq!(tool_required_scope(t), Some(Scope::HaRead), "{t}");
    }
    for t in [
        "ha_light.turn_off",
        "ha_light.set_brightness",
        "ha_light.turn_on_in_area",
        "ha_light.turn_off_in_area",
        "ha_todo.add_item",
        "ha_todo.update_item",
        "ha_todo.remove_item",
        "ha_service.call",
    ] {
        assert_eq!(tool_required_scope(t), Some(Scope::HaControl), "{t}");
    }
    for t in ["z2m_device.get_state", "z2m_group.list", "z2m_bridge.info"] {
        assert_eq!(tool_required_scope(t), Some(Scope::Z2mRead), "{t}");
    }
    for t in ["z2m_device.rename", "z2m_group.add", "z2m_bridge.permit_join", "z2m_bridge.networkmap"] {
        assert_eq!(tool_required_scope(t), Some(Scope::Z2mControl), "{t}");
    }
    assert_eq!(tool_required_scope("ping"), None);
    assert_eq!(tool_required_scope("ha_light.turn_on "), None);
}

// ---- IP whitelist ----

#[test]
fn matches_first_rule() {
    let auth = whitelist_auth();
    let scopes = check_whitelist(&auth, &ip("192.168.1.50")).unwrap();
    assert!(scopes.contains(&Scope::HaRead));
    assert!(!scopes.contains(&Scope::HaControl));
}

#[test]
fn matches_second_rule() {
    let auth = whitelist_auth();
    let scopes = check_whitelist(&auth, &ip("10.5.3.1")).unwrap();
    assert!(scopes.contains(&Scope::HaRead));
    assert!(scopes.contains(&Scope::HaControl));
    assert!(scopes.contains(&Scope::Z2mRead));
    assert!(scopes.contains(&Scope::Z2mControl));
}

#[test]
fn ip_whitelist_no_match() {
    let auth = whitelist_auth();
    assert!(check_whitelist(&auth, &ip("172.16.0.1")).is_none());
}

#[test]
fn cidr_bounds_and_families() {
    let net = cidr("192.168.1.0/24");
    assert!(net.contains(&ip("192.168.1.0")));
    assert!(net.contains(&ip("192.168.1.255")));
    assert!(!net.contains(&ip("192.168.2.0")));
    assert!(!net.contains(&ip("::1")));
    assert!(cidr("0.0.0.0/0").contains(&ip("8.8.8.8")));
    assert!(cidr("10.1.2.3/32").contains(&ip("10.1.2.3")));
    assert!(!cidr("10.1.2.3/32").contains(&ip("10.1.2.4")));
    assert!(cidr("fd00::/8").contains(&ip("fd12:3456::1")));
    assert!(!cidr("fd00::/8").contains(&ip("fe80::1")));
    assert!(Cidr::new(IpAddress::V4(0), 33).is_none());
    assert!(Cidr::new(IpAddress::V6(0), 128).is_some());
    assert!(Cidr::new(IpAddress::V6(0), 129).is_none());
}

#[test]
fn whitelist_first_match_wins() {
    let auth = AuthConfig {
        whitelist: vec![
            WhitelistEntry { cidrs: vec![cidr("10.0.0.0/8")], scopes: strings(&["z2m:read"]) },
            WhitelistEntry { cidrs: vec![cidr("10.5.0.0/16")], scopes: strings(&["*"]) },
        ],
        tokens: vec![],
        proxy: None,
    };
    let scopes = check_whitelist(&auth, &ip("10.5.3.1")).unwrap();
    assert_eq!(scopes.len(), 1);
    assert!(scopes.contains(&Scope::Z2mRead));
}

#[test]
fn whitelist_matching() {
    let config = Config {
        server: ServerConfig::default(),
        ha: None,
        z2m: None,
        auth: Some(whitelist_auth()),
    };
    assert_eq!(config.matches_whitelist(&ip("192.168.1.50")).unwrap(), &["ha:read"]);
    assert_eq!(config.matches_whitelist(&ip("10.5.3.1")).unwrap(), &["*"]);
    assert!(config.matches_whitelist(&ip("172.16.0.1")).is_none());
}

// ---- static tokens ----

#[test]
fn matches_full_access() {
    let auth = token_auth();
    let scopes = check_static_token(&auth, "full-access").unwrap();
    assert!(scopes.contains(&Scope::HaControl));
    assert!(scopes.contains(&Scope::Z2mControl));
}

#[test]
fn matches_read_only() {
    let auth = token_auth();
    let scopes = check_static_token(&auth, "read-only").unwrap();
    assert!(scopes.contains(&Scope::HaRead));
    assert!(scopes.contains(&Scope::Z2mRead));
    assert!(!scopes.contains(&Scope::HaControl));
}

#[test]
fn token_static_no_match() {
    let auth = token_auth();
    assert!(check_static_token(&auth, "wrong-token").is_none());
}

#[test]
fn token_match_is_exact() {
    let auth = token_auth();
    assert!(check_static_token(&auth, "read-onl").is_none());
    assert!(check_static_token(&auth, "read-only ").is_none());
    assert!(check_static_token(&auth, "").is_none());
}

// ---- the resolver ----

fn full_config() -> Config {
    let mut auth = whitelist_auth();
    auth.tokens = token_auth().tokens;
    auth.proxy = Some(ProxyAuthConfig {
        backend: ProxyBackend::Ha,
        scopes: strings(&["ha:read"]),
        cache_ttl: 300,
    });
    Config {
        server: ServerConfig::default(),
        ha: Some(HaConfig { url: "http://ha.local:8123/".to_string(), token: "t".to_string() }),
        z2m: None,
        auth: Some(auth),
    }
}

fn granted(d: AuthDecision) -> GrantedScopes {
    match d {
        AuthDecision::Granted(g) => g,
        AuthDecision::CheckProxy => panic!("expected a decision"),
    }
}

#[test]
fn open_mode_grants_everything() {
    let config = Config::default();
    let resolver = AuthResolver::new(&config);
    let g = granted(resolver.resolve(&ip("203.0.113.9"), None));
    assert_eq!(g.0.len(), 4);
}

#[test]
fn resolver_order_whitelist_token_proxy() {
    let resolver = AuthResolver::new(&full_config());
    // whitelisted: the token does not matter
    let g = granted(resolver.resolve(&ip("192.168.1.7"), Some("full-access")));
    assert_eq!(g.0.len(), 1);
    assert!(g.has(&Scope::HaRead));
    // static token
    let g = granted(resolver.resolve(&ip("203.0.113.9"), Some("full-access")));
    assert_eq!(g.0.len(), 4);
    // unknown token goes to the proxy
    assert!(matches!(resolver.resolve(&ip("203.0.113.9"), Some("other")), AuthDecision::CheckProxy));
    // no token: nothing
    let g = granted(resolver.resolve(&ip("203.0.113.9"), None));
    assert!(g.0.is_empty());
}

#[test]
fn unknown_token_without_proxy_gets_nothing() {
    let mut config = full_config();
    config.auth.as_mut().unwrap().proxy = None;
    let resolver = AuthResolver::new(&config);
    let g = granted(resolver.resolve(&ip("203.0.113.9"), Some("other")));
    assert!(g.0.is_empty());
}

#[test]
fn resolver_proxy_round() {
    let mut resolver = AuthResolver::new(&full_config());
    match resolver.proxy_validate("tok", 1_000) {
        ProxyCheck::CheckHa(url) => assert_eq!(url, "http://ha.local:8123/api/"),
        _ => panic!("expected an HA check"),
    }
    let g = resolver.proxy_conclude("tok", true, 1_000);
    assert_eq!(g.0.len(), 1);
    assert!(g.has(&Scope::HaRead));
    match resolver.proxy_validate("tok", 2_000) {
        ProxyCheck::Cached(s) => assert!(s.contains(&Scope::HaRead)),
        _ => panic!("expected a cached answer"),
    }
    let g = resolver.proxy_conclude("bad", false, 1_000);
    assert!(g.0.is_empty());
}

// ---- proxy validation ----

fn proxy(backend: ProxyBackend, ttl: u64, ha_url: Option<&str>) -> ProxyValidator {
    ProxyValidator::new(
        ProxyAuthConfig { backend, scopes: strings(&["*"]), cache_ttl: ttl },
        ha_url.map(|s| s.to_string()),
    )
}

#[test]
fn proxy_cache_serves_until_expiry() {
    let mut p = proxy(ProxyBackend::Ha, 300, Some("http://ha///"));
    assert!(matches!(p.validate("tok", 0), ProxyCheck::CheckHa(_)));
    let s = p.conclude("tok", true, 0).unwrap();
    assert_eq!(s.len(), 4);
    assert!(matches!(p.validate("tok", 299_999), ProxyCheck::Cached(_)));
    match p.validate("tok", 300_000) {
        ProxyCheck::CheckHa(url) => assert_eq!(url, "http://ha/api/"),
        _ => panic!("expired token served from cache"),
    }
    assert!(matches!(p.validate("other", 10), ProxyCheck::CheckHa(_)));
}

#[test]
fn proxy_invalid_token_not_cached() {
    let mut p = proxy(ProxyBackend::Ha, 300, Some("http://ha"));
    assert!(p.conclude("tok", false, 0).is_none());
    assert!(matches!(p.validate("tok", 1), ProxyCheck::CheckHa(_)));
}

#[test]
fn proxy_zero_ttl_never_caches() {
    let mut p = proxy(ProxyBackend::Ha, 0, Some("http://ha"));
    assert!(p.conclude("tok", true, 0).is_some());
    assert!(matches!(p.validate("tok", 1), ProxyCheck::CheckHa(_)));
}

#[test]
fn proxy_without_ha_url_or_with_mqtt_rejects() {
    let p = proxy(ProxyBackend::Ha, 0, None);
    assert!(matches!(p.validate("tok", 0), ProxyCheck::Reject));
    let p = proxy(ProxyBackend::Mqtt, 60, Some("http://ha"));
    assert!(matches!(p.validate("tok", 0), ProxyCheck::Reject));
}

#[test]
fn token_cache_drops_expired_on_insert() {
    let mut c = TokenCache::new();
    let s = parse_scopes(&strings(&["ha:read"]));
    c.insert("a", s, 0, 10);
    c.insert("b", s, 5, 20);
    assert_eq!(c.len(), 2);
    c.insert("c", s, 15, 30);
    assert_eq!(c.len(), 2);
    assert!(c.lookup("a", 15).is_none());
    assert!(c.lookup("b", 15).is_some());
    assert!(c.lookup("b", 20).is_none());
}

// ---- the HTTP layer ----

#[test]
fn bearer_token_extraction() {
    assert_eq!(bearer_token("Bearer abc").as_deref(), Some("abc"));
    assert_eq!(bearer_token("Bearer ").as_deref(), Some(""));
    assert_eq!(bearer_token("bearer abc"), None);
    assert_eq!(bearer_token("Basic xyz"), None);
    assert_eq!(bearer_token("Bearer"), None);
}

#[test]
fn tool_call_denial() {
    let g = GrantedScopes(parse_scopes(&strings(&["ha:read"])));
    let d = check_tool_call_auth(Some("tools/call"), Some("ha_light.turn_on"), &g).unwrap();
    assert_eq!(d.code, MISSING_SCOPE_CODE);
    assert_eq!(d.code, -32001);
    assert_eq!(d.message, "missing scope 'ha:control' required for tool 'ha_light.turn_on'");
    assert!(check_tool_call_auth(Some("tools/call"), Some("ha_entity.list"), &g).is_none());
    assert!(check_tool_call_auth(Some("tools/list"), Some("ha_light.turn_on"), &g).is_none());
    assert!(check_tool_call_auth(Some("tools/call"), None, &g).is_none());
    assert!(check_tool_call_auth(None, Some("ha_light.turn_on"), &g).is_none());
    assert!(check_tool_call_auth(Some("tools/call"), Some("ping"), &g).is_none());
}

#[test]
fn cidr_contains_agrees_with_ipnet() {
    let nets = ["0.0.0.0/0", "10.0.0.0/8", "192.168.1.0/24", "192.168.1.7/32", "172.16.0.0/12", "fe80::/10", "::/0", "2001:db8::/32", "2001:db8::1/128"];
    let addrs = ["10.1.2.3", "11.0.0.1", "192.168.1.7", "192.168.1.8", "192.168.2.1", "172.31.255.255", "172.32.0.0", "0.0.0.0", "255.255.255.255", "fe80::1", "fec0::1", "2001:db8::1", "2001:db8::2", "2001:db9::1", "::1"];
    for n in nets {
        let net: ipnet::IpNet = n.parse().unwrap();
        let c = cidr(n);
        for a in addrs {
            let host = if a.contains(':') { format!("{a}/128") } else { format!("{a}/32") };
            let host: ipnet::IpNet = host.parse().unwrap();
            assert_eq!(c.contains(&ip(a)), net.contains(&host), "{n} {a}");
        }
    }
}

#[test]
fn resolver_caches_valid_token_for_its_lifetime() {
    let mut resolver = AuthResolver::new(&full_config());
    let g = resolver.proxy_conclude("tok", true, 5_000);
    assert!(g.has(&Scope::HaRead));
    match resolver.proxy_validate("tok", 5_000) {
        ProxyCheck::Cached(s) => assert_eq!(s, g.0),
        _ => panic!("expected a cached answer"),
    }
    assert!(matches!(resolver.proxy_validate("other", 5_000), ProxyCheck::CheckHa(_)));
    assert!(matches!(resolver.proxy_validate("tok", 304_999), ProxyCheck::Cached(_)));
    assert!(matches!(resolver.proxy_validate("tok", 305_000), ProxyCheck::CheckHa(_)));
}

#[test]
fn ha_token_verdicts() {
    assert!(ha_token_valid(Some(200)));
    assert!(ha_token_valid(Some(299)));
    assert!(!ha_token_valid(Some(199)));
    assert!(!ha_token_valid(Some(300)));
    assert!(!ha_token_valid(Some(401)));
    assert!(!ha_token_valid(None));
}
