use chain_indexer::address::Address;
use chain_indexer::config::AppConfig;
use chain_indexer::registry::AddressCache;
use chain_indexer::registry::ContractAddresses;
use chain_indexer::registry::LogicalName;
use chain_indexer::registry::RegistryError;
use chain_indexer::registry::RegistryRows;
use chain_indexer::registry::load_from_rows;
use chain_indexer::registry::resolve_addresses;

fn base_config() -> AppConfig {
    AppConfig {
        rpc_http_url: String::from("http://localhost:8545"),
        rpc_ws_url: String::from("ws://localhost:8546"),
        database_url: String::from("postgres://localhost/db"),
        redis_url: String::from("redis://localhost"),
        jwt_secret: String::from("SECRET-REDACTED"),
        qr_hmac_secret: String::from("SECRET-REDACTED"),
        listen_addr: String::from("0.0.0.0:8080"),
        ticket_manager_addr: None,
        event_manager_addr: None,
        marketplace_addr: None,
        token_swap_addr: None,
    }
}

fn hex_addr(b: u8) -> String {
    let mut s = String::from("0x");
    for _ in 0..20 {
        s.push_str(&format!("{:02x}", b));
    }
    s
}

fn full_rows() -> RegistryRows {
    RegistryRows {
        ticket_manager: Some(hex_addr(0x11)),
        event_manager: Some(hex_addr(0x22)),
        marketplace: Some(hex_addr(0x33)),
        token_swap: Some(hex_addr(0x44)),
    }
}

#[test]
fn from_config_complete_override() {
    let mut cfg = base_config();
    cfg.ticket_manager_addr = Some(hex_addr(0xaa));
    cfg.event_manager_addr = Some(hex_addr(0xbb));
    cfg.marketplace_addr = Some(hex_addr(0xcc));
    cfg.token_swap_addr = Some(hex_addr(0xdd));
    let a = ContractAddresses::from_config(&cfg).unwrap();
    assert_eq!(a.ticket_manager.bytes, [0xaa; 20]);
    assert_eq!(a.event_manager.bytes, [0xbb; 20]);
    assert_eq!(a.marketplace.bytes, [0xcc; 20]);
    assert_eq!(a.token_swap.bytes, [0xdd; 20]);
}

#[test]
fn from_config_partial_override_is_absent() {
    let mut cfg = base_config();
    cfg.ticket_manager_addr = Some(hex_addr(0xaa));
    cfg.event_manager_addr = Some(hex_addr(0xbb));
    cfg.marketplace_addr = Some(hex_addr(0xcc));
    assert!(ContractAddresses::from_config(&cfg).is_none());
}

#[test]
fn from_config_unparseable_override_is_absent() {
    let mut cfg = base_config();
    cfg.ticket_manager_addr = Some(String::from("not an address"));
    cfg.event_manager_addr = Some(hex_addr(0xbb));
    cfg.marketplace_addr = Some(hex_addr(0xcc));
    cfg.token_swap_addr = Some(hex_addr(0xdd));
    assert!(ContractAddresses::from_config(&cfg).is_none());
}

#[test]
fn load_from_rows_complete() {
    let a = load_from_rows(&full_rows()).unwrap();
    assert_eq!(a.ticket_manager.bytes, [0x11; 20]);
    assert_eq!(a.event_manager.bytes, [0x22; 20]);
    assert_eq!(a.marketplace.bytes, [0x33; 20]);
    assert_eq!(a.token_swap.bytes, [0x44; 20]);
}

#[test]
fn load_from_rows_missing_name_fails() {
    let mut rows = full_rows();
    rows.token_swap = None;
    assert!(matches!(
        load_from_rows(&rows),
        Err(RegistryError::Missing(LogicalName::TokenSwap))
    ));
}

#[test]
fn load_from_rows_invalid_address_fails() {
    let mut rows = full_rows();
    rows.event_manager = Some(String::from("0xnothex"));
    assert!(matches!(
        load_from_rows(&rows),
        Err(RegistryError::InvalidAddress(LogicalName::EventManager))
    ));
}

#[test]
fn resolve_prefers_config_override() {
    let mut cfg = base_config();
    cfg.ticket_manager_addr = Some(hex_addr(0xaa));
    cfg.event_manager_addr = Some(hex_addr(0xbb));
    cfg.marketplace_addr = Some(hex_addr(0xcc));
    cfg.token_swap_addr = Some(hex_addr(0xdd));
    let a = resolve_addresses(&cfg, &full_rows()).unwrap();
    assert_eq!(a.ticket_manager.bytes, [0xaa; 20]);
}

#[test]
fn resolve_falls_back_to_rows() {
    let a = resolve_addresses(&base_config(), &full_rows()).unwrap();
    assert_eq!(a.ticket_manager.bytes, [0x11; 20]);
}

#[test]
fn cache_starts_empty() {
    let cache = AddressCache::new();
    assert!(cache.get().is_none());
}

#[test]
fn cache_set_then_get_round_trip() {
    let mut cache = AddressCache::new();
    let a = ContractAddresses {
        ticket_manager: Address { bytes: [0xaa; 20] },
        event_manager: Address { bytes: [0xbb; 20] },
        marketplace: Address { bytes: [0xcc; 20] },
        token_swap: Address { bytes: [0xdd; 20] },
    };
    cache.set(a);
    let got = cache.get().unwrap();
    assert_eq!(got.ticket_manager.bytes, [0xaa; 20]);
    assert_eq!(got.event_manager.bytes, [0xbb; 20]);
    assert_eq!(got.marketplace.bytes, [0xcc; 20]);
    assert_eq!(got.token_swap.bytes, [0xdd; 20]);
}

#[test]
fn failed_reload_preserves_cache() {
    let mut cache = AddressCache::new();
    let a = load_from_rows(&full_rows()).unwrap();
    cache.set(a);
    let mut rows = full_rows();
    rows.marketplace = None;
    cache.apply_reload(&load_from_rows(&rows));
    let kept = cache.get().unwrap();
    assert_eq!(kept.marketplace.bytes, [0x33; 20]);
}

#[test]
fn successful_reload_replaces_cache() {
    let mut cache = AddressCache::new();
    cache.set(load_from_rows(&full_rows()).unwrap());
    let mut rows = full_rows();
    rows.ticket_manager = Some(hex_addr(0xee));
    cache.apply_reload(&load_from_rows(&rows));
    assert_eq!(cache.get().unwrap().ticket_manager.bytes, [0xee; 20]);
}

#[test]
fn logical_name_spelling() {
    assert_eq!(LogicalName::TicketManager.as_str(), "TicketManager");
    assert_eq!(LogicalName::EventManager.as_str(), "EventManager");
    assert_eq!(LogicalName::Marketplace.as_str(), "Marketplace");
    assert_eq!(LogicalName::TokenSwap.as_str(), "TokenSwap");
}
