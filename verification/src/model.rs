//! The registry as a mathematical state, and every operation as a function
//! from state to state.
//!
//! The executable registry refines these functions: each of its operations
//! ensures that the view of the registry afterwards is what the model says.

use crate::allowlist::{allowlist_wf, is_listed, listing_rejection, with_address, AllowlistError};
use crate::collections::{distinct_keys, has_key, lookup, upsert, without_key};
use crate::names::{name_length, valid_name};
use crate::policy::{initial_policy, policy_wf, short_name_allowed, PolicyView};
use crate::records::{is_available, DomainRecordView, ONE_YEAR};
use crate::season::{
    active_season,
    cheapest_applicable,
    created_season,
    creation_rejection,
    fee_of,
    has_capacity,
    ledger_wf,
    season_with_id,
    with_season_deactivated,
    with_slot_released,
    with_slot_reserved,
    CreateSeasonError,
    CreateSeasonRequest,
    DeactivateError,
    SeasonView,
};
use vstd::prelude::*;

verus! {

/// The fee for a renewal in a fresh registry.
pub const INITIAL_BASE_FEE: u64 = 100_000_000;

/// The largest number of characters in a custom endpoint.
pub const MAX_ENDPOINT_CHARS: usize = 200;

/// The mathematical value of a registry.
pub struct RegistryView {
    /// The records, by name, in the order in which the names first arrived.
    pub domains: Seq<(Seq<char>, DomainRecordView)>,
    /// The name that each identity is the holder of.
    pub wallets: Seq<(Seq<u8>, Seq<char>)>,
    /// The seasons; the season with id `n` stands at position `n - 1`.
    pub seasons: Seq<SeasonView>,
    /// The addresses listed for each season, at the season's position.
    pub addresses: Seq<Seq<Seq<char>>>,
    pub policy: PolicyView,
    /// The fee for a renewal.
    pub base_fee: u64,
    /// The code that resources are provisioned with.
    pub domain_canister_wasm: Seq<u8>,
}

/// An entry of the index of holders agrees with the records: the name that
/// the identity holds has a record, and that record names the identity as
/// its owner.
pub open spec fn holds(
    domains: Seq<(Seq<char>, DomainRecordView)>,
    entry: (Seq<u8>, Seq<char>),
) -> bool {
    match lookup(domains, entry.1) {
        Some(record) => record.owner == entry.0,
        None => false,
    }
}

/// The invariant of the registry. Names and holders are stored once; the
/// ledger, the lists and the policy are well-formed; each season has its
/// list; and every name that an identity holds has a record whose owner is
/// that identity.
pub open spec fn registry_wf(s: RegistryView) -> bool {
    &&& distinct_keys(s.domains)
    &&& distinct_keys(s.wallets)
    &&& ledger_wf(s.seasons)
    &&& allowlist_wf(s.addresses)
    &&& s.addresses.len() == s.seasons.len()
    &&& policy_wf(s.policy)
    &&& forall|i: int| 0 <= i < s.wallets.len() ==> holds(s.domains, #[trigger] s.wallets[i])
}

/// A fresh registry with one administrator.
pub open spec fn initial_registry(admin: Seq<u8>) -> RegistryView {
    RegistryView {
        domains: Seq::empty(),
        wallets: Seq::empty(),
        seasons: Seq::empty(),
        addresses: Seq::empty(),
        policy: initial_policy(admin),
        base_fee: INITIAL_BASE_FEE,
        domain_canister_wasm: Seq::empty(),
    }
}

/// Whether `who` administers the registry.
pub open spec fn is_admin(s: RegistryView, who: Seq<u8>) -> bool {
    s.policy.admins.contains(who)
}

/// The three ways in which a name is allocated.
#[derive(Clone, Copy, Debug, PartialEq, Eq, Structural)]
pub enum AllocationKind {
    /// A registration by the holder-to-be.
    Registration,
    /// A gift of an administrator.
    Gift,
    /// A creation by an administrator for a listed address.
    AddressCreation,
}

/// The mathematical value of an allocation that awaits its resource.
pub struct PendingView {
    pub kind: AllocationKind,
    pub domain_name: Seq<char>,
    pub owner: Seq<u8>,
    pub administrator: Seq<u8>,
    pub operator: Seq<u8>,
    pub payment_block: u64,
    pub recipient_address: Option<Seq<char>>,
    pub season_id: Option<u64>,
    pub fee: u128,
    pub was_gifted: bool,
}

/// The mathematical value of the receipt of an allocation.
pub struct ReceiptView {
    pub kind: AllocationKind,
    pub domain_name: Seq<char>,
    pub owner: Seq<u8>,
    pub canister_id: Seq<u8>,
    pub recipient_address: Option<Seq<char>>,
    pub season_id: Option<u64>,
    pub fee: u128,
    pub was_gifted: bool,
}

/// The mathematical value of a refusal to allocate a name.
pub enum AllocationErrorView {
    NotAdmin,
    InvalidFormat,
    Reserved,
    ShortNameDenied,
    WalletAlreadyOwns(Seq<char>),
    RecipientAlreadyOwns(Seq<char>),
    NameUnavailable,
    NoSeason,
    NoActiveSeason,
    SeasonFull,
    AddressNotAuthorized(Seq<char>),
    ProvisioningFailed(Seq<char>),
    ExpirationOverflow,
}

/// Why a renewal was refused.
#[derive(Clone, Copy, Debug, PartialEq, Eq, Structural)]
pub enum RenewError {
    /// No record is stored under the name.
    NotFound,
    /// The caller is neither the owner nor the administrator of the name.
    Unauthorized,
    /// One more year would take the expiration beyond the largest time.
    ExpirationOverflow,
}

/// Why a change of endpoint was refused.
#[derive(Clone, Copy, Debug, PartialEq, Eq, Structural)]
pub enum EndpointError {
    /// No record is stored under the name.
    NotFound,
    /// The caller is neither the owner nor the administrator of the name.
    Unauthorized,
    /// The endpoint does not begin with `https://`, or is too long.
    InvalidEndpoint,
}

/// The mathematical value of a refusal to transfer a name.
pub enum TransferErrorView {
    NotFound,
    Unauthorized,
    NewOwnerAlreadyOwns(Seq<char>),
}

/// Why a registration by `caller` is refused at the time `now`, if it is.
/// The checks come in this order: the syntax of the name, the reserved
/// names, the short-name policy, the one name of a caller who is no
/// administrator, the availability of the name, and for such a caller the
/// season.
pub open spec fn registration_rejection(
    s: RegistryView,
    name: Seq<char>,
    caller: Seq<u8>,
    now: u64,
) -> Option<AllocationErrorView> {
    if !valid_name(name) {
        Some(AllocationErrorView::InvalidFormat)
    } else if s.policy.reserved_names.contains(name) {
        Some(AllocationErrorView::Reserved)
    } else if !short_name_allowed(s.policy, name, caller) {
        Some(AllocationErrorView::ShortNameDenied)
    } else if !is_admin(s, caller) && has_key(s.wallets, caller) {
        Some(AllocationErrorView::WalletAlreadyOwns(lookup(s.wallets, caller)->0))
    } else if !is_available(s.domains, name, now) {
        Some(AllocationErrorView::NameUnavailable)
    } else if !is_admin(s, caller) && cheapest_applicable(s.seasons, name_length(name)) is None {
        Some(AllocationErrorView::NoSeason)
    } else {
        None
    }
}

/// The allocation that a registration by `caller` sets out to make. An
/// administrator pays nothing and uses no season, and the name counts as a
/// gift; anyone else pays the price of the cheapest applicable season.
pub open spec fn registration_plan(
    s: RegistryView,
    name: Seq<char>,
    administrator: Seq<u8>,
    operator: Seq<u8>,
    payment_block: u64,
    caller: Seq<u8>,
) -> PendingView {
    let season = s.seasons[cheapest_applicable(s.seasons, name_length(name))->0];
    PendingView {
        kind: AllocationKind::Registration,
        domain_name: name,
        owner: caller,
        administrator,
        operator,
        payment_block,
        recipient_address: None,
        season_id: if is_admin(s, caller) {
            None
        } else {
            Some(season.season_id)
        },
        fee: if is_admin(s, caller) {
            0
        } else {
            fee_of(season) as u128
        },
        was_gifted: is_admin(s, caller),
    }
}

/// Why a gift of `caller` to `recipient` is refused at the time `now`, if
/// it is. The length of the name plays no part.
pub open spec fn gift_rejection(
    s: RegistryView,
    name: Seq<char>,
    recipient: Seq<u8>,
    caller: Seq<u8>,
    now: u64,
) -> Option<AllocationErrorView> {
    if !is_admin(s, caller) {
        Some(AllocationErrorView::NotAdmin)
    } else if !valid_name(name) {
        Some(AllocationErrorView::InvalidFormat)
    } else if s.policy.reserved_names.contains(name) {
        Some(AllocationErrorView::Reserved)
    } else if !is_available(s.domains, name, now) {
        Some(AllocationErrorView::NameUnavailable)
    } else if has_key(s.wallets, recipient) {
        Some(AllocationErrorView::RecipientAlreadyOwns(lookup(s.wallets, recipient)->0))
    } else {
        match active_season(s.seasons) {
            None => Some(AllocationErrorView::NoActiveSeason),
            Some(season) => if has_capacity(season) {
                None
            } else {
                Some(AllocationErrorView::SeasonFull)
            },
        }
    }
}

/// The allocation that a gift sets out to make: free of charge, from the
/// active season.
pub open spec fn gift_plan(
    s: RegistryView,
    name: Seq<char>,
    recipient: Seq<u8>,
    administrator: Seq<u8>,
    operator: Seq<u8>,
) -> PendingView {
    PendingView {
        kind: AllocationKind::Gift,
        domain_name: name,
        owner: recipient,
        administrator,
        operator,
        payment_block: 0,
        recipient_address: None,
        season_id: Some(active_season(s.seasons)->0.season_id),
        fee: 0,
        was_gifted: true,
    }
}

/// Why the creation of a name for a listed address is refused at the time
/// `now`, if it is: for the reasons of a gift, or because the active season
/// does not list the address.
pub open spec fn address_creation_rejection(
    s: RegistryView,
    name: Seq<char>,
    recipient: Seq<u8>,
    address: Seq<char>,
    caller: Seq<u8>,
    now: u64,
) -> Option<AllocationErrorView> {
    match gift_rejection(s, name, recipient, caller, now) {
        Some(e) => Some(e),
        None => if is_listed(s.addresses, active_season(s.seasons)->0.season_id, address) {
            None
        } else {
            Some(AllocationErrorView::AddressNotAuthorized(address))
        },
    }
}

/// The allocation that a creation for a listed address sets out to make:
/// free of charge, from the active season, and not counted as a gift.
pub open spec fn address_creation_plan(
    s: RegistryView,
    name: Seq<char>,
    recipient: Seq<u8>,
    administrator: Seq<u8>,
    operator: Seq<u8>,
    address: Seq<char>,
) -> PendingView {
    PendingView {
        kind: AllocationKind::AddressCreation,
        domain_name: name,
        owner: recipient,
        administrator,
        operator,
        payment_block: 0,
        recipient_address: Some(address),
        season_id: Some(active_season(s.seasons)->0.season_id),
        fee: 0,
        was_gifted: false,
    }
}

/// The registry after the slot of a pending allocation was reserved.
pub open spec fn reserved_for(s: RegistryView, season_id: Option<u64>) -> RegistryView {
    match season_id {
        Some(id) => RegistryView { seasons: with_slot_reserved(s.seasons, id), ..s },
        None => s,
    }
}

/// The record that a pending allocation becomes once its resource exists:
/// registered at `now`, in force for one year.
pub open spec fn record_of(p: PendingView, canister_id: Seq<u8>, now: u64) -> DomainRecordView {
    DomainRecordView {
        owner: p.owner,
        administrator: p.administrator,
        operator: p.operator,
        canister_id,
        registration_time: now,
        expiration_time: (now + ONE_YEAR) as u64,
        last_payment_block: p.payment_block,
        custom_mcp_endpoint: None,
        was_gifted: p.was_gifted,
        registration_season_id: p.season_id,
    }
}

/// The receipt of a pending allocation whose resource exists.
pub open spec fn receipt_of(p: PendingView, canister_id: Seq<u8>) -> ReceiptView {
    ReceiptView {
        kind: p.kind,
        domain_name: p.domain_name,
        owner: p.owner,
        canister_id,
        recipient_address: p.recipient_address,
        season_id: p.season_id,
        fee: p.fee,
        was_gifted: p.was_gifted,
    }
}

/// The index of holders once the record stored under `name`, if there is
/// one, gives way: the owner of that record, where it holds this name,
/// holds it no longer.
pub open spec fn without_holder_of(s: RegistryView, name: Seq<char>) -> Seq<(Seq<u8>, Seq<char>)> {
    match lookup(s.domains, name) {
        Some(previous) => if lookup(s.wallets, previous.owner) == Some(name) {
            without_key(s.wallets, previous.owner)
        } else {
            s.wallets
        },
        None => s.wallets,
    }
}

/// The registry after a pending allocation was committed: the record is
/// stored under the name, whoever held the name before holds it no longer,
/// and the owner holds the name.
pub open spec fn committed(s: RegistryView, p: PendingView, canister_id: Seq<u8>, now: u64) -> RegistryView {
    RegistryView {
        domains: upsert(s.domains, p.domain_name, record_of(p, canister_id, now)),
        wallets: upsert(without_holder_of(s, p.domain_name), p.owner, p.domain_name),
        ..s
    }
}

/// The registry after a pending allocation was given up: its slot, if it
/// had one, is released.
pub open spec fn rolled_back(s: RegistryView, p: PendingView) -> RegistryView {
    match p.season_id {
        Some(id) => RegistryView { seasons: with_slot_released(s.seasons, id), ..s },
        None => s,
    }
}

/// The second step of an allocation at the time `now`: the state
/// afterwards and what the caller is told. The allocation is given up
/// where provisioning failed, and where one year from `now` lies beyond the
/// largest time; else it is committed.
pub open spec fn completion(
    s: RegistryView,
    p: PendingView,
    outcome: Result<Seq<u8>, Seq<char>>,
    now: u64,
) -> (RegistryView, Result<ReceiptView, AllocationErrorView>) {
    match outcome {
        Err(reason) => (rolled_back(s, p), Err(AllocationErrorView::ProvisioningFailed(reason))),
        Ok(canister_id) => if now + ONE_YEAR > u64::MAX {
            (rolled_back(s, p), Err(AllocationErrorView::ExpirationOverflow))
        } else {
            (committed(s, p, canister_id, now), Ok(receipt_of(p, canister_id)))
        },
    }
}

/// Both steps of an allocation, one after the other, at one time: the state
/// afterwards and what the caller is told. A request that is refused
/// changes nothing. One that is admitted reserves its slot and goes on to
/// the second step.
pub open spec fn allocation_result(
    s: RegistryView,
    rejection: Option<AllocationErrorView>,
    p: PendingView,
    outcome: Result<Seq<u8>, Seq<char>>,
    now: u64,
) -> (RegistryView, Result<ReceiptView, AllocationErrorView>) {
    match rejection {
        Some(e) => (s, Err(e)),
        None => completion(reserved_for(s, p.season_id), p, outcome, now),
    }
}

/// Whether `caller` is the owner or the administrator of the record.
pub open spec fn controls(record: DomainRecordView, caller: Seq<u8>) -> bool {
    caller == record.owner || caller == record.administrator
}

/// Why a renewal is refused, if it is.
pub open spec fn renewal_rejection(s: RegistryView, name: Seq<char>, caller: Seq<u8>) -> Option<
    RenewError,
> {
    match lookup(s.domains, name) {
        None => Some(RenewError::NotFound),
        Some(record) => if !controls(record, caller) {
            Some(RenewError::Unauthorized)
        } else if record.expiration_time + ONE_YEAR > u64::MAX {
            Some(RenewError::ExpirationOverflow)
        } else {
            None
        },
    }
}

/// The record after a renewal: in force one year longer than it was, paid
/// with `payment_block`.
pub open spec fn renewed(record: DomainRecordView, payment_block: u64) -> DomainRecordView {
    DomainRecordView {
        expiration_time: (record.expiration_time + ONE_YEAR) as u64,
        last_payment_block: payment_block,
        ..record
    }
}

/// The registry after the renewal of a name.
pub open spec fn after_renewal(s: RegistryView, name: Seq<char>, payment_block: u64) -> RegistryView {
    RegistryView {
        domains: upsert(s.domains, name, renewed(lookup(s.domains, name)->0, payment_block)),
        ..s
    }
}

/// The fee for a renewal by `caller`: nothing for an administrator, the
/// base fee for anyone else.
pub open spec fn renewal_fee(s: RegistryView, caller: Seq<u8>) -> u64 {
    if is_admin(s, caller) {
        0
    } else {
        s.base_fee
    }
}

/// A custom endpoint begins with `https://` and has at most 200 characters.
pub open spec fn valid_endpoint(endpoint: Seq<char>) -> bool {
    "https://"@.is_prefix_of(endpoint) && endpoint.len() <= MAX_ENDPOINT_CHARS
}

/// Why a change of endpoint is refused, if it is.
pub open spec fn endpoint_rejection(
    s: RegistryView,
    name: Seq<char>,
    endpoint: Option<Seq<char>>,
    caller: Seq<u8>,
) -> Option<EndpointError> {
    match lookup(s.domains, name) {
        None => Some(EndpointError::NotFound),
        Some(record) => if !controls(record, caller) {
            Some(EndpointError::Unauthorized)
        } else if endpoint is Some && !valid_endpoint(endpoint->0) {
            Some(EndpointError::InvalidEndpoint)
        } else {
            None
        },
    }
}

/// The registry after the endpoint of a name was set or cleared.
pub open spec fn after_endpoint_change(
    s: RegistryView,
    name: Seq<char>,
    endpoint: Option<Seq<char>>,
) -> RegistryView {
    RegistryView {
        domains: upsert(
            s.domains,
            name,
            DomainRecordView { custom_mcp_endpoint: endpoint, ..lookup(s.domains, name)->0 },
        ),
        ..s
    }
}

/// Why a transfer is refused, if it is. A new owner who is no administrator
/// must not hold a name.
pub open spec fn transfer_rejection(
    s: RegistryView,
    name: Seq<char>,
    new_owner: Seq<u8>,
    caller: Seq<u8>,
) -> Option<TransferErrorView> {
    match lookup(s.domains, name) {
        None => Some(TransferErrorView::NotFound),
        Some(record) => if !controls(record, caller) {
            Some(TransferErrorView::Unauthorized)
        } else if !is_admin(s, new_owner) && has_key(s.wallets, new_owner) {
            Some(TransferErrorView::NewOwnerAlreadyOwns(lookup(s.wallets, new_owner)->0))
        } else {
            None
        },
    }
}

/// The registry after a transfer: the record names the new owner, the old
/// owner holds nothing, and the new owner holds the name.
pub open spec fn after_transfer(s: RegistryView, name: Seq<char>, new_owner: Seq<u8>) -> RegistryView {
    let record = lookup(s.domains, name)->0;
    RegistryView {
        domains: upsert(s.domains, name, DomainRecordView { owner: new_owner, ..record }),
        wallets: upsert(without_key(s.wallets, record.owner), new_owner, name),
        ..s
    }
}

/// Why the creation of a season is refused, if it is.
pub open spec fn season_creation_rejection(
    s: RegistryView,
    request: CreateSeasonRequest,
    caller: Seq<u8>,
) -> Option<CreateSeasonError> {
    if !is_admin(s, caller) {
        Some(CreateSeasonError::NotAdmin)
    } else {
        creation_rejection(s.seasons, request)
    }
}

/// The registry after a season was created: the season is the last one, and
/// no address is listed for it.
pub open spec fn after_season_creation(
    s: RegistryView,
    request: CreateSeasonRequest,
    caller: Seq<u8>,
    now: u64,
) -> RegistryView {
    RegistryView {
        seasons: s.seasons.push(created_season(s.seasons, request, caller, now)),
        addresses: s.addresses.push(Seq::empty()),
        ..s
    }
}

/// Why the deactivation of a season is refused, if it is.
pub open spec fn deactivation_rejection(s: RegistryView, season_id: u64, caller: Seq<u8>) -> Option<
    DeactivateError,
> {
    if !is_admin(s, caller) {
        Some(DeactivateError::NotAdmin)
    } else if season_with_id(s.seasons, season_id) is None {
        Some(DeactivateError::NotFound)
    } else {
        None
    }
}

/// The registry after a season was deactivated.
pub open spec fn after_deactivation(s: RegistryView, season_id: u64) -> RegistryView {
    RegistryView { seasons: with_season_deactivated(s.seasons, season_id), ..s }
}

/// Why an address is not listed for a season, if it is not.
pub open spec fn address_listing_rejection(s: RegistryView, season_id: u64, caller: Seq<u8>) -> Option<
    AllowlistError,
> {
    if !is_admin(s, caller) {
        Some(AllowlistError::NotAdmin)
    } else {
        listing_rejection(s.seasons, season_id)
    }
}

/// The registry after an address was listed for a season.
pub open spec fn after_address_listing(s: RegistryView, season_id: u64, address: Seq<char>) -> RegistryView {
    RegistryView { addresses: with_address(s.addresses, season_id, address), ..s }
}

/// Whether the active season lists the address.
pub open spec fn authorized_for_current_season(s: RegistryView, address: Seq<char>) -> bool {
    match active_season(s.seasons) {
        Some(season) => is_listed(s.addresses, season.season_id, address),
        None => false,
    }
}

/// The fee quoted for the registration of a name: the price of the cheapest
/// applicable season, or nothing where the name is malformed or reserved or
/// no season applies.
pub open spec fn quoted_fee(s: RegistryView, name: Seq<char>) -> int {
    if !valid_name(name) || s.policy.reserved_names.contains(name) {
        0
    } else {
        match cheapest_applicable(s.seasons, name_length(name)) {
            Some(i) => fee_of(s.seasons[i]),
            None => 0,
        }
    }
}

/// Whether `user` could register `name` at the time `now`, seasons aside.
pub open spec fn can_register(s: RegistryView, name: Seq<char>, user: Seq<u8>, now: u64) -> bool {
    valid_name(name) && !s.policy.reserved_names.contains(name) && is_available(
        s.domains,
        name,
        now,
    ) && short_name_allowed(s.policy, name, user)
}

} // verus!
