//! The contract address registry: resolution of the four logical contract
//! names to 20-byte addresses, and the single-slot cache that batches read.
//!
//! Resolution is three-tiered: a static configuration override (all four
//! options present and parseable, else ignored as a whole), then the registry
//! rows handed over from the relational store, then the cache. A resolved
//! value always carries all four addresses; there is no partial result.

use crate::address::Address;
use crate::address::spec_address_str_ok;
use crate::address::spec_parse_address;
use crate::config::AppConfig;
use vstd::prelude::*;
use vstd::string::StringExecFns;

verus! {

/// The four recognized logical contract names.
#[derive(Clone, Copy, PartialEq, Eq, Structural, Debug)]
pub enum LogicalName {
    TicketManager,
    EventManager,
    Marketplace,
    TokenSwap,
}

impl LogicalName {
    /// The spelling under which the registry table keys this name.
    pub fn as_str(&self) -> (r: String)
        ensures
            r@ == match self {
                LogicalName::TicketManager => "TicketManager"@,
                LogicalName::EventManager => "EventManager"@,
                LogicalName::Marketplace => "Marketplace"@,
                LogicalName::TokenSwap => "TokenSwap"@,
            },
    {
        match self {
            LogicalName::TicketManager => String::from_str("TicketManager"),
            LogicalName::EventManager => String::from_str("EventManager"),
            LogicalName::Marketplace => String::from_str("Marketplace"),
            LogicalName::TokenSwap => String::from_str("TokenSwap"),
        }
    }
}

/// Why a resolution attempt failed.
#[derive(Clone, Copy, PartialEq, Eq, Structural, Debug)]
pub enum RegistryError {
    /// The registry holds no row for this name.
    Missing(LogicalName),
    /// The registry row for this name does not hold a well-formed address.
    InvalidAddress(LogicalName),
}

/// One address per recognized logical name.
#[derive(Clone, Copy)]
pub struct ContractAddresses {
    pub ticket_manager: Address,
    pub event_manager: Address,
    pub marketplace: Address,
    pub token_swap: Address,
}

/// The registry rows for one chain, as handed over from the store: for each
/// name, the stored address text, or `None` where the table has no row.
pub struct RegistryRows {
    pub ticket_manager: Option<String>,
    pub event_manager: Option<String>,
    pub marketplace: Option<String>,
    pub token_swap: Option<String>,
}

/// Whether an optional address text is present and well-formed.
pub open spec fn spec_row_ok(o: Option<String>) -> bool {
    o is Some && spec_address_str_ok(o->0@)
}

/// The error reported for an option that failed to yield an address.
pub open spec fn spec_row_error(o: Option<String>, n: LogicalName) -> RegistryError {
    if o is None {
        RegistryError::Missing(n)
    } else {
        RegistryError::InvalidAddress(n)
    }
}

/// Whether the configuration carries a complete, parseable override.
pub open spec fn spec_config_override_ok(cfg: AppConfig) -> bool {
    spec_row_ok(cfg.ticket_manager_addr) && spec_row_ok(cfg.event_manager_addr) && spec_row_ok(
        cfg.marketplace_addr,
    ) && spec_row_ok(cfg.token_swap_addr)
}

/// Whether the registry rows are complete and parseable.
pub open spec fn spec_rows_ok(rows: RegistryRows) -> bool {
    spec_row_ok(rows.ticket_manager) && spec_row_ok(rows.event_manager) && spec_row_ok(
        rows.marketplace,
    ) && spec_row_ok(rows.token_swap)
}

/// Parses one optional address text; `None` unless present and well-formed.
fn parse_row(o: &Option<String>) -> (r: Option<Address>)
    ensures
        r is Some <==> spec_row_ok(*o),
        r is Some ==> r->0@ == spec_parse_address(o->0@),
{
    match o {
        Some(s) => Address::parse(s.as_str()),
        None => None,
    }
}

impl ContractAddresses {
    /// Builds the address set from the static configuration override.
    /// A missing or unparseable entry makes the whole override absent:
    /// there is no partial merge.
    pub fn from_config(cfg: &AppConfig) -> (r: Option<ContractAddresses>)
        ensures
            r is Some <==> spec_config_override_ok(*cfg),
            r is Some ==> r->0.ticket_manager@ == spec_parse_address(cfg.ticket_manager_addr->0@)
                && r->0.event_manager@ == spec_parse_address(cfg.event_manager_addr->0@)
                && r->0.marketplace@ == spec_parse_address(cfg.marketplace_addr->0@)
                && r->0.token_swap@ == spec_parse_address(cfg.token_swap_addr->0@),
    {
        let ticket_manager = match parse_row(&cfg.ticket_manager_addr) {
            Some(a) => a,
            None => {
                return None;
            },
        };
        let event_manager = match parse_row(&cfg.event_manager_addr) {
            Some(a) => a,
            None => {
                return None;
            },
        };
        let marketplace = match parse_row(&cfg.marketplace_addr) {
            Some(a) => a,
            None => {
                return None;
            },
        };
        let token_swap = match parse_row(&cfg.token_swap_addr) {
            Some(a) => a,
            None => {
                return None;
            },
        };
        Some(ContractAddresses { ticket_manager, event_manager, marketplace, token_swap })
    }
}

/// Assembles the address set from registry rows. Fails on the first name, in
/// the fixed order of `LogicalName`, whose row is missing or unparseable; a
/// success always carries all four addresses.
pub fn load_from_rows(rows: &RegistryRows) -> (r: Result<ContractAddresses, RegistryError>)
    ensures
        r is Ok <==> spec_rows_ok(*rows),
        r is Ok ==> r->Ok_0.ticket_manager@ == spec_parse_address(rows.ticket_manager->0@)
            && r->Ok_0.event_manager@ == spec_parse_address(rows.event_manager->0@)
            && r->Ok_0.marketplace@ == spec_parse_address(rows.marketplace->0@)
            && r->Ok_0.token_swap@ == spec_parse_address(rows.token_swap->0@),
        !spec_row_ok(rows.ticket_manager) ==> r == Result::<ContractAddresses,
            RegistryError,
        >::Err(spec_row_error(rows.ticket_manager, LogicalName::TicketManager)),
        spec_row_ok(rows.ticket_manager) && !spec_row_ok(rows.event_manager) ==> r == Result::<
            ContractAddresses,
            RegistryError,
        >::Err(spec_row_error(rows.event_manager, LogicalName::EventManager)),
        spec_row_ok(rows.ticket_manager) && spec_row_ok(rows.event_manager) && !spec_row_ok(
            rows.marketplace,
        ) ==> r == Result::<ContractAddresses, RegistryError>::Err(
            spec_row_error(rows.marketplace, LogicalName::Marketplace),
        ),
        spec_row_ok(rows.ticket_manager) && spec_row_ok(rows.event_manager) && spec_row_ok(
            rows.marketplace,
        ) && !spec_row_ok(rows.token_swap) ==> r == Result::<ContractAddresses,
            RegistryError,
        >::Err(spec_row_error(rows.token_swap, LogicalName::TokenSwap)),
{
    let ticket_manager = match parse_row(&rows.ticket_manager) {
        Some(a) => a,
        None => {
            return Err(row_error(&rows.ticket_manager, LogicalName::TicketManager));
        },
    };
    let event_manager = match parse_row(&rows.event_manager) {
        Some(a) => a,
        None => {
            return Err(row_error(&rows.event_manager, LogicalName::EventManager));
        },
    };
    let marketplace = match parse_row(&rows.marketplace) {
        Some(a) => a,
        None => {
            return Err(row_error(&rows.marketplace, LogicalName::Marketplace));
        },
    };
    let token_swap = match parse_row(&rows.token_swap) {
        Some(a) => a,
        None => {
            return Err(row_error(&rows.token_swap, LogicalName::TokenSwap));
        },
    };
    Ok(ContractAddresses { ticket_manager, event_manager, marketplace, token_swap })
}

/// The error for a row that failed: `Missing` when absent, else
/// `InvalidAddress`.
fn row_error(o: &Option<String>, n: LogicalName) -> (r: RegistryError)
    ensures
        r == spec_row_error(*o, n),
{
    match o {
        None => RegistryError::Missing(n),
        Some(_) => RegistryError::InvalidAddress(n),
    }
}

/// Resolves the address set: the configuration override when it is complete
/// and parseable, else the registry rows.
pub fn resolve_addresses(cfg: &AppConfig, rows: &RegistryRows) -> (r: Result<
    ContractAddresses,
    RegistryError,
>)
    ensures
        r is Ok <==> spec_config_override_ok(*cfg) || spec_rows_ok(*rows),
        spec_config_override_ok(*cfg) ==> r is Ok && r->Ok_0.ticket_manager@ == spec_parse_address(
            cfg.ticket_manager_addr->0@,
        ) && r->Ok_0.event_manager@ == spec_parse_address(cfg.event_manager_addr->0@)
            && r->Ok_0.marketplace@ == spec_parse_address(cfg.marketplace_addr->0@)
            && r->Ok_0.token_swap@ == spec_parse_address(cfg.token_swap_addr->0@),
        !spec_config_override_ok(*cfg) && spec_rows_ok(*rows) ==> r is Ok
            && r->Ok_0.ticket_manager@ == spec_parse_address(rows.ticket_manager->0@)
            && r->Ok_0.event_manager@ == spec_parse_address(rows.event_manager->0@)
            && r->Ok_0.marketplace@ == spec_parse_address(rows.marketplace->0@)
            && r->Ok_0.token_swap@ == spec_parse_address(rows.token_swap->0@),
{
    if let Some(a) = ContractAddresses::from_config(cfg) {
        return Ok(a);
    }
    load_from_rows(rows)
}

/// The single-slot address cache: empty until the first successful resolve,
/// then holding the most recently published address set.
pub struct AddressCache {
    pub slot: Option<ContractAddresses>,
}

/// The cache after publishing `a`.
pub open spec fn spec_cache_set(c: AddressCache, a: ContractAddresses) -> AddressCache {
    AddressCache { slot: Some(a) }
}

/// What a reader of the cache sees.
pub open spec fn spec_cache_get(c: AddressCache) -> Option<ContractAddresses> {
    c.slot
}

impl AddressCache {
    /// An empty cache.
    pub fn new() -> (r: AddressCache)
        ensures
            r.slot is None,
    {
        AddressCache { slot: None }
    }

    /// A snapshot of the cached address set, if any.
    pub fn get(&self) -> (r: Option<ContractAddresses>)
        ensures
            r == spec_cache_get(*self),
    {
        self.slot
    }

    /// Publishes a freshly resolved address set.
    pub fn set(&mut self, v: ContractAddresses)
        ensures
            *final(self) == spec_cache_set(*old(self), v),
    {
        self.slot = Some(v);
    }

    /// Applies the outcome of a reload attempt: a success replaces the cached
    /// set, a failure preserves the previous value.
    pub fn apply_reload(&mut self, outcome: &Result<ContractAddresses, RegistryError>)
        ensures
            outcome is Ok ==> *final(self) == spec_cache_set(*old(self), outcome->Ok_0),
            outcome is Err ==> *final(self) == *old(self),
    {
        match outcome {
            Ok(a) => self.set(*a),
            Err(_) => (),
        }
    }
}

/// A value published to the cache is exactly what the next read returns.
pub proof fn lemma_cache_round_trip(c: AddressCache, a: ContractAddresses)
    ensures
        spec_cache_get(spec_cache_set(c, a)) == Some(a),
{
}

} // verus!
