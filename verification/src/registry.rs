//! The registry and its allocation engine.
//!
//! An allocation runs in two steps around the provisioning of its resource,
//! which happens outside: the first step admits the request and reserves a
//! slot, the second commits the record once the resource exists, or gives
//! the slot back when provisioning failed.

use crate::allowlist::{addresses_of, AddressAllowlist, AllowlistError};
use crate::collections::{lookup, with_member, without_member, KeyMap};
use crate::identity::Identity;
use crate::invariants::{
    lemma_address_listing_keeps_wf,
    lemma_commit_keeps_wf,
    lemma_deactivation_keeps_wf,
    lemma_policy_change_keeps_wf,
    lemma_reservation_keeps_wf,
    lemma_replacement_keeps_wf,
    lemma_rollback_keeps_wf,
    lemma_season_creation_keeps_wf,
    lemma_transfer_keeps_wf,
    lemma_without_holder,
};
use crate::model::{
    address_creation_plan,
    address_creation_rejection,
    address_listing_rejection,
    allocation_result,
    after_address_listing,
    after_deactivation,
    after_endpoint_change,
    after_renewal,
    after_season_creation,
    after_transfer,
    authorized_for_current_season,
    can_register,
    deactivation_rejection,
    endpoint_rejection,
    gift_plan,
    gift_rejection,
    initial_registry,
    is_admin,
    completion,
    quoted_fee,
    registration_plan,
    registration_rejection,
    registry_wf,
    renewal_fee,
    renewal_rejection,
    reserved_for,
    season_creation_rejection,
    transfer_rejection,
    without_holder_of,
    AllocationErrorView,
    AllocationKind,
    EndpointError,
    PendingView,
    ReceiptView,
    RegistryView,
    RenewError,
    TransferErrorView,
    INITIAL_BASE_FEE,
    MAX_ENDPOINT_CHARS,
};
use crate::names::{byte_length, has_prefix, is_valid_domain_name, name_length};
use crate::policy::{AdminError, AdminPolicy, PolicyView, RegistrationMode};
use crate::records::{
    domain_info,
    effective_endpoint,
    endpoint_of,
    found_by,
    info_of,
    listed,
    registered_since,
    text_of,
    with_timestamp,
    AdminCreateDomainRequest,
    AdminGiftRequest,
    DomainInfo,
    DomainRecord,
    RegistrationRequest,
    RegistryStore,
    SearchResult,
    ONE_YEAR,
};
use crate::season::{
    active_season,
    cheapest_applicable,
    fee_of,
    season_fee,
    season_stats,
    season_with_id,
    stats_of,
    CreateSeasonError,
    CreateSeasonRequest,
    DeactivateError,
    RegistrationSeason,
    SeasonLedger,
    SeasonStats,
    SeasonStatus,
    SlotError,
};
use vstd::prelude::*;
use vstd::string::StrSliceExecFns;

verus! {

/// Why a name was not allocated.
#[derive(Debug, PartialEq, Eq)]
pub enum AllocationError {
    /// The caller is not an administrator.
    NotAdmin,
    /// The name is malformed.
    InvalidFormat,
    /// The name is reserved.
    Reserved,
    /// The short-name policy denies the name to the caller.
    ShortNameDenied,
    /// The caller already holds the given name.
    WalletAlreadyOwns(String),
    /// The recipient already holds the given name.
    RecipientAlreadyOwns(String),
    /// The name is registered and in force.
    NameUnavailable,
    /// No season applies to the length of the name.
    NoSeason,
    /// No season is active.
    NoActiveSeason,
    /// The season has no capacity left.
    SeasonFull,
    /// The active season does not list the given address.
    AddressNotAuthorized(String),
    /// The resource could not be provisioned, for the given reason.
    ProvisioningFailed(String),
    /// One year from the time of the commit lies beyond the largest time.
    ExpirationOverflow,
}

impl View for AllocationError {
    type V = AllocationErrorView;

    open spec fn view(&self) -> AllocationErrorView {
        match self {
            AllocationError::NotAdmin => AllocationErrorView::NotAdmin,
            AllocationError::InvalidFormat => AllocationErrorView::InvalidFormat,
            AllocationError::Reserved => AllocationErrorView::Reserved,
            AllocationError::ShortNameDenied => AllocationErrorView::ShortNameDenied,
            AllocationError::WalletAlreadyOwns(n) => AllocationErrorView::WalletAlreadyOwns(n@),
            AllocationError::RecipientAlreadyOwns(n) => AllocationErrorView::RecipientAlreadyOwns(
                n@,
            ),
            AllocationError::NameUnavailable => AllocationErrorView::NameUnavailable,
            AllocationError::NoSeason => AllocationErrorView::NoSeason,
            AllocationError::NoActiveSeason => AllocationErrorView::NoActiveSeason,
            AllocationError::SeasonFull => AllocationErrorView::SeasonFull,
            AllocationError::AddressNotAuthorized(a) => AllocationErrorView::AddressNotAuthorized(
                a@,
            ),
            AllocationError::ProvisioningFailed(m) => AllocationErrorView::ProvisioningFailed(m@),
            AllocationError::ExpirationOverflow => AllocationErrorView::ExpirationOverflow,
        }
    }
}

/// Why a name was not transferred.
#[derive(Debug, PartialEq, Eq)]
pub enum TransferError {
    /// No record is stored under the name.
    NotFound,
    /// The caller is neither the owner nor the administrator of the name.
    Unauthorized,
    /// The new owner already holds the given name.
    NewOwnerAlreadyOwns(String),
}

impl View for TransferError {
    type V = TransferErrorView;

    open spec fn view(&self) -> TransferErrorView {
        match self {
            TransferError::NotFound => TransferErrorView::NotFound,
            TransferError::Unauthorized => TransferErrorView::Unauthorized,
            TransferError::NewOwnerAlreadyOwns(n) => TransferErrorView::NewOwnerAlreadyOwns(n@),
        }
    }
}

/// An allocation that was admitted and awaits its resource. It is made by
/// the first step of an allocation and consumed by the second.
#[derive(Debug)]
pub struct PendingAllocation {
    kind: AllocationKind,
    domain_name: String,
    owner: Identity,
    administrator: Identity,
    operator: Identity,
    payment_block: u64,
    recipient_address: Option<String>,
    season_id: Option<u64>,
    fee: u128,
    was_gifted: bool,
}

impl View for PendingAllocation {
    type V = PendingView;

    closed spec fn view(&self) -> PendingView {
        PendingView {
            kind: self.kind,
            domain_name: self.domain_name@,
            owner: self.owner@,
            administrator: self.administrator@,
            operator: self.operator@,
            payment_block: self.payment_block,
            recipient_address: text_of(self.recipient_address),
            season_id: self.season_id,
            fee: self.fee,
            was_gifted: self.was_gifted,
        }
    }
}

impl PendingAllocation {
    /// The way in which the name is allocated.
    pub fn kind(&self) -> (r: AllocationKind)
        ensures
            r == self@.kind,
    {
        self.kind
    }

    /// The name to allocate.
    pub fn domain_name(&self) -> (r: &String)
        ensures
            r@ == self@.domain_name,
    {
        &self.domain_name
    }

    /// The owner that the name will have.
    pub fn owner(&self) -> (r: &Identity)
        ensures
            r@ == self@.owner,
    {
        &self.owner
    }

    /// The administrator that the name will have.
    pub fn administrator(&self) -> (r: &Identity)
        ensures
            r@ == self@.administrator,
    {
        &self.administrator
    }

    /// The operator that the name will have.
    pub fn operator(&self) -> (r: &Identity)
        ensures
            r@ == self@.operator,
    {
        &self.operator
    }

    /// The season that a slot was reserved in, if any.
    pub fn season_id(&self) -> (r: Option<u64>)
        ensures
            r == self@.season_id,
    {
        self.season_id
    }

    /// The fee charged, in fee units.
    pub fn fee(&self) -> (r: u128)
        ensures
            r == self@.fee,
    {
        self.fee
    }
}

/// The receipt of an allocation.
#[derive(Debug, PartialEq, Eq)]
pub struct AllocationReceipt {
    pub kind: AllocationKind,
    pub domain_name: String,
    pub owner: Identity,
    /// The handle of the resource that backs the name.
    pub canister_id: Identity,
    pub recipient_address: Option<String>,
    pub season_id: Option<u64>,
    /// The fee charged, in fee units.
    pub fee: u128,
    pub was_gifted: bool,
}

impl View for AllocationReceipt {
    type V = ReceiptView;

    open spec fn view(&self) -> ReceiptView {
        ReceiptView {
            kind: self.kind,
            domain_name: self.domain_name@,
            owner: self.owner@,
            canister_id: self.canister_id@,
            recipient_address: text_of(self.recipient_address),
            season_id: self.season_id,
            fee: self.fee,
            was_gifted: self.was_gifted,
        }
    }
}

/// The mathematical value of what provisioning came to.
pub open spec fn outcome_view(outcome: Result<Identity, String>) -> Result<Seq<u8>, Seq<char>> {
    match outcome {
        Ok(canister_id) => Ok(canister_id@),
        Err(reason) => Err(reason@),
    }
}

/// The mathematical value of what an allocation came to.
pub open spec fn result_view(r: Result<AllocationReceipt, AllocationError>) -> Result<
    ReceiptView,
    AllocationErrorView,
> {
    match r {
        Ok(receipt) => Ok(receipt@),
        Err(e) => Err(e@),
    }
}

/// The registry: the records, the index of holders, the seasons with their
/// address lists, and the policy.
pub struct Registry {
    store: RegistryStore,
    wallets: KeyMap<Identity, String>,
    ledger: SeasonLedger,
    allowlist: AddressAllowlist,
    policy: AdminPolicy,
    base_fee: u64,
    wasm: Vec<u8>,
}

impl View for Registry {
    type V = RegistryView;

    closed spec fn view(&self) -> RegistryView {
        RegistryView {
            domains: self.store@,
            wallets: self.wallets@,
            seasons: self.ledger@,
            addresses: self.allowlist@,
            policy: self.policy@,
            base_fee: self.base_fee,
            domain_canister_wasm: self.wasm@,
        }
    }
}

impl Registry {
    /// The invariant of the registry.
    pub open spec fn wf(&self) -> bool {
        registry_wf(self@)
    }

    /// A fresh registry: no name, no season, `admin` as its one
    /// administrator, and the fixed list of reserved names.
    pub fn init(admin: Identity) -> (r: Self)
        ensures
            r.wf(),
            r@ == initial_registry(admin@),
    {
        Registry {
            store: RegistryStore::new(),
            wallets: KeyMap::new(),
            ledger: SeasonLedger::new(),
            allowlist: AddressAllowlist::new(),
            policy: AdminPolicy::new(admin),
            base_fee: INITIAL_BASE_FEE,
            wasm: Vec::new(),
        }
    }

    /// The first step of a registration by `caller` at the time `now`:
    /// admits the request and, for a caller who is no administrator,
    /// reserves a slot in the cheapest season that applies to the name.
    pub fn begin_registration(
        &mut self,
        request: RegistrationRequest,
        caller: &Identity,
        now: u64,
    ) -> (r: Result<PendingAllocation, AllocationError>)
        requires
            old(self).wf(),
        ensures
            final(self).wf(),
            match r {
                Ok(p) => registration_rejection(old(self)@, request.domain_name@, caller@, now)
                    is None && p@ == registration_plan(
                    old(self)@,
                    request.domain_name@,
                    request.administrator@,
                    request.operator@,
                    request.payment_block,
                    caller@,
                ) && final(self)@ == reserved_for(old(self)@, p@.season_id),
                Err(e) => registration_rejection(old(self)@, request.domain_name@, caller@, now)
                    == Some(e@) && final(self)@ == old(self)@,
            },
    {
        let RegistrationRequest { domain_name, administrator, operator, payment_block } = request;
        if !is_valid_domain_name(domain_name.as_str()) {
            return Err(AllocationError::InvalidFormat);
        }
        if self.policy.is_reserved_name(domain_name.as_str()) {
            return Err(AllocationError::Reserved);
        }
        if !self.policy.can_register_short_domain(domain_name.as_str(), caller) {
            return Err(AllocationError::ShortNameDenied);
        }
        let is_admin_caller = self.policy.is_admin(caller);
        if !is_admin_caller {
            match self.wallets.get(caller) {
                Some(existing) => {
                    return Err(AllocationError::WalletAlreadyOwns(existing.clone()));
                },
                None => {},
            }
        }
        if !self.store.is_available(domain_name.as_str(), now) {
            return Err(AllocationError::NameUnavailable);
        }
        let mut season_id: Option<u64> = None;
        let mut fee: u128 = 0;
        if !is_admin_caller {
            let length = byte_length(domain_name.as_str()) as u64;
            match self.ledger.find_applicable(length) {
                Some(season) => {
                    season_id = Some(season.season_id);
                    fee = season_fee(season);
                },
                None => {
                    return Err(AllocationError::NoSeason);
                },
            }
        }
        match season_id {
            Some(id) => {
                match self.ledger.reserve_slot(id) {
                    Ok(()) => {
                        proof {
                            lemma_reservation_keeps_wf(old(self)@, id);
                        }
                    },
                    Err(SlotError::Full) => {
                        return Err(AllocationError::SeasonFull);
                    },
                    Err(SlotError::NotFound) => {
                        return Err(AllocationError::NoSeason);
                    },
                }
            },
            None => {},
        }
        Ok(
            PendingAllocation {
                kind: AllocationKind::Registration,
                domain_name,
                owner: caller.clone(),
                administrator,
                operator,
                payment_block,
                recipient_address: None,
                season_id,
                fee,
                was_gifted: is_admin_caller,
            },
        )
    }

    /// The first step of a gift of the administrator `caller` at the time
    /// `now`: admits the request and reserves a slot in the active season.
    pub fn begin_gift(&mut self, request: AdminGiftRequest, caller: &Identity, now: u64) -> (r:
        Result<PendingAllocation, AllocationError>)
        requires
            old(self).wf(),
        ensures
            final(self).wf(),
            match r {
                Ok(p) => gift_rejection(
                    old(self)@,
                    request.domain_name@,
                    request.recipient@,
                    caller@,
                    now,
                ) is None && p@ == gift_plan(
                    old(self)@,
                    request.domain_name@,
                    request.recipient@,
                    request.administrator@,
                    request.operator@,
                ) && final(self)@ == reserved_for(old(self)@, p@.season_id),
                Err(e) => gift_rejection(
                    old(self)@,
                    request.domain_name@,
                    request.recipient@,
                    caller@,
                    now,
                ) == Some(e@) && final(self)@ == old(self)@,
            },
    {
        let AdminGiftRequest { domain_name, recipient, administrator, operator } = request;
        let season_id = match self.admit_for_recipient(&domain_name, &recipient, caller, now) {
            Ok(id) => id,
            Err(e) => {
                return Err(e);
            },
        };
        self.reserve_admitted(season_id);
        Ok(
            PendingAllocation {
                kind: AllocationKind::Gift,
                domain_name,
                owner: recipient,
                administrator,
                operator,
                payment_block: 0,
                recipient_address: None,
                season_id: Some(season_id),
                fee: 0,
                was_gifted: true,
            },
        )
    }

    /// The first step of the creation of a name by the administrator
    /// `caller` for a recipient whose address the active season lists:
    /// admits the request and reserves a slot in the active season.
    pub fn begin_address_creation(
        &mut self,
        request: AdminCreateDomainRequest,
        caller: &Identity,
        now: u64,
    ) -> (r: Result<PendingAllocation, AllocationError>)
        requires
            old(self).wf(),
        ensures
            final(self).wf(),
            match r {
                Ok(p) => address_creation_rejection(
                    old(self)@,
                    request.domain_name@,
                    request.recipient@,
                    request.recipient_address@,
                    caller@,
                    now,
                ) is None && p@ == address_creation_plan(
                    old(self)@,
                    request.domain_name@,
                    request.recipient@,
                    request.administrator@,
                    request.operator@,
                    request.recipient_address@,
                ) && final(self)@ == reserved_for(old(self)@, p@.season_id),
                Err(e) => address_creation_rejection(
                    old(self)@,
                    request.domain_name@,
                    request.recipient@,
                    request.recipient_address@,
                    caller@,
                    now,
                ) == Some(e@) && final(self)@ == old(self)@,
            },
    {
        let AdminCreateDomainRequest {
            domain_name,
            recipient,
            administrator,
            operator,
            recipient_address,
        } = request;
        let season_id = match self.admit_for_recipient(&domain_name, &recipient, caller, now) {
            Ok(id) => id,
            Err(e) => {
                return Err(e);
            },
        };
        if !self.allowlist.contains(season_id, recipient_address.as_str()) {
            return Err(AllocationError::AddressNotAuthorized(recipient_address));
        }
        self.reserve_admitted(season_id);
        Ok(
            PendingAllocation {
                kind: AllocationKind::AddressCreation,
                domain_name,
                owner: recipient,
                administrator,
                operator,
                payment_block: 0,
                recipient_address: Some(recipient_address),
                season_id: Some(season_id),
                fee: 0,
                was_gifted: false,
            },
        )
    }

    /// The checks that a gift and a creation for an address share; on
    /// success, the id of the active season.
    fn admit_for_recipient(
        &self,
        domain_name: &String,
        recipient: &Identity,
        caller: &Identity,
        now: u64,
    ) -> (r: Result<u64, AllocationError>)
        requires
            self.wf(),
        ensures
            match r {
                Ok(id) => gift_rejection(self@, domain_name@, recipient@, caller@, now) is None
                    && active_season(self@.seasons) is Some && id == active_season(
                    self@.seasons,
                )->0.season_id,
                Err(e) => gift_rejection(self@, domain_name@, recipient@, caller@, now) == Some(e@),
            },
    {
        if !self.policy.is_admin(caller) {
            return Err(AllocationError::NotAdmin);
        }
        if !is_valid_domain_name(domain_name.as_str()) {
            return Err(AllocationError::InvalidFormat);
        }
        if self.policy.is_reserved_name(domain_name.as_str()) {
            return Err(AllocationError::Reserved);
        }
        if !self.store.is_available(domain_name.as_str(), now) {
            return Err(AllocationError::NameUnavailable);
        }
        match self.wallets.get(recipient) {
            Some(existing) => {
                return Err(AllocationError::RecipientAlreadyOwns(existing.clone()));
            },
            None => {},
        }
        match self.ledger.current() {
            None => Err(AllocationError::NoActiveSeason),
            Some(season) => {
                if season.registered_count >= season.total_allowed {
                    Err(AllocationError::SeasonFull)
                } else {
                    Ok(season.season_id)
                }
            },
        }
    }

    /// Reserves a slot in the active season, whose id is `season_id`.
    fn reserve_admitted(&mut self, season_id: u64)
        requires
            old(self).wf(),
            active_season(old(self)@.seasons) is Some,
            season_id == active_season(old(self)@.seasons)->0.season_id,
        ensures
            final(self).wf(),
            final(self)@ == reserved_for(old(self)@, Some(season_id)),
    {
        proof {
            let i = crate::season::active_position(self@.seasons);
            assert(self@.seasons[i].status == SeasonStatus::Active);
            assert(crate::season::valid_season(self@.seasons[i]));
        }
        // An active season has a free slot, so the reservation goes through.
        match self.ledger.reserve_slot(season_id) {
            Ok(()) => {
                proof {
                    lemma_reservation_keeps_wf(old(self)@, season_id);
                }
            },
            Err(_) => {},
        }
    }

    /// Takes the name away from the owner of the record stored under it,
    /// where that owner holds it.
    fn release_holder(&mut self, domain_name: &String)
        requires
            old(self).wf(),
        ensures
            final(self)@ == (RegistryView {
                wallets: without_holder_of(old(self)@, domain_name@),
                ..old(self)@
            }),
    {
        let previous_owner = match self.store.get(domain_name.as_str()) {
            Some(previous) => Some(previous.owner.clone()),
            None => None,
        };
        match previous_owner {
            Some(holder) => {
                let holds_it = match self.wallets.get(&holder) {
                    Some(held) => *held == *domain_name,
                    None => false,
                };
                if holds_it {
                    self.wallets.remove(&holder);
                }
            },
            None => {},
        }
    }

    /// The second step of an allocation, at the time `now`. Where the
    /// resource was provisioned, the record is stored for one year from
    /// `now`, whoever held the name before holds it no longer, and the
    /// owner holds the name. Where provisioning failed, or one year from
    /// `now` lies beyond the largest time, the reserved slot is released
    /// and the caller is told why.
    pub fn complete_allocation(
        &mut self,
        pending: PendingAllocation,
        outcome: Result<Identity, String>,
        now: u64,
    ) -> (r: Result<AllocationReceipt, AllocationError>)
        requires
            old(self).wf(),
        ensures
            final(self).wf(),
            (final(self)@, result_view(r)) == completion(
                old(self)@,
                pending@,
                outcome_view(outcome),
                now,
            ),
    {
        let ghost plan = pending@;
        let PendingAllocation {
            kind,
            domain_name,
            owner,
            administrator,
            operator,
            payment_block,
            recipient_address,
            season_id,
            fee,
            was_gifted,
        } = pending;
        let provisioned = match outcome {
            Ok(canister_id) => if now > u64::MAX - ONE_YEAR {
                Err(AllocationError::ExpirationOverflow)
            } else {
                Ok(canister_id)
            },
            Err(reason) => Err(AllocationError::ProvisioningFailed(reason)),
        };
        match provisioned {
            Err(e) => {
                match season_id {
                    Some(id) => {
                        self.ledger.release_slot(id);
                    },
                    None => {},
                }
                proof {
                    lemma_rollback_keeps_wf(old(self)@, plan);
                }
                Err(e)
            },
            Ok(canister_id) => {
                let record = DomainRecord {
                    owner: owner.clone(),
                    administrator,
                    operator,
                    canister_id: canister_id.clone(),
                    registration_time: now,
                    expiration_time: now + ONE_YEAR,
                    last_payment_block: payment_block,
                    custom_mcp_endpoint: None,
                    was_gifted,
                    registration_season_id: season_id,
                };
                self.release_holder(&domain_name);
                proof {
                    lemma_without_holder(old(self)@, plan.domain_name);
                }
                self.wallets.put(owner.clone(), domain_name.clone());
                self.store.put(domain_name.clone(), record);
                proof {
                    lemma_commit_keeps_wf(old(self)@, plan, canister_id@, now);
                }
                Ok(
                    AllocationReceipt {
                        kind,
                        domain_name,
                        owner,
                        canister_id,
                        recipient_address,
                        season_id,
                        fee,
                        was_gifted,
                    },
                )
            },
        }
    }

    /// A registration by `caller` at the time `now`, both steps at once,
    /// for a resource whose provisioning came to `outcome`.
    pub fn register_domain(
        &mut self,
        request: RegistrationRequest,
        caller: &Identity,
        now: u64,
        outcome: Result<Identity, String>,
    ) -> (r: Result<AllocationReceipt, AllocationError>)
        requires
            old(self).wf(),
        ensures
            final(self).wf(),
            (final(self)@, result_view(r)) == allocation_result(
                old(self)@,
                registration_rejection(old(self)@, request.domain_name@, caller@, now),
                registration_plan(
                    old(self)@,
                    request.domain_name@,
                    request.administrator@,
                    request.operator@,
                    request.payment_block,
                    caller@,
                ),
                outcome_view(outcome),
                now,
            ),
    {
        match self.begin_registration(request, caller, now) {
            Ok(pending) => self.complete_allocation(pending, outcome, now),
            Err(e) => Err(e),
        }
    }

    /// A gift of the administrator `caller` at the time `now`, both steps
    /// at once, for a resource whose provisioning came to `outcome`.
    pub fn admin_gift_domain(
        &mut self,
        request: AdminGiftRequest,
        caller: &Identity,
        now: u64,
        outcome: Result<Identity, String>,
    ) -> (r: Result<AllocationReceipt, AllocationError>)
        requires
            old(self).wf(),
        ensures
            final(self).wf(),
            (final(self)@, result_view(r)) == allocation_result(
                old(self)@,
                gift_rejection(old(self)@, request.domain_name@, request.recipient@, caller@, now),
                gift_plan(
                    old(self)@,
                    request.domain_name@,
                    request.recipient@,
                    request.administrator@,
                    request.operator@,
                ),
                outcome_view(outcome),
                now,
            ),
    {
        match self.begin_gift(request, caller, now) {
            Ok(pending) => self.complete_allocation(pending, outcome, now),
            Err(e) => Err(e),
        }
    }

    /// The creation of a name by the administrator `caller` for a listed
    /// address at the time `now`, both steps at once, for a resource whose
    /// provisioning came to `outcome`.
    pub fn admin_create_domain_with_address(
        &mut self,
        request: AdminCreateDomainRequest,
        caller: &Identity,
        now: u64,
        outcome: Result<Identity, String>,
    ) -> (r: Result<AllocationReceipt, AllocationError>)
        requires
            old(self).wf(),
        ensures
            final(self).wf(),
            (final(self)@, result_view(r)) == allocation_result(
                old(self)@,
                address_creation_rejection(
                    old(self)@,
                    request.domain_name@,
                    request.recipient@,
                    request.recipient_address@,
                    caller@,
                    now,
                ),
                address_creation_plan(
                    old(self)@,
                    request.domain_name@,
                    request.recipient@,
                    request.administrator@,
                    request.operator@,
                    request.recipient_address@,
                ),
                outcome_view(outcome),
                now,
            ),
    {
        match self.begin_address_creation(request, caller, now) {
            Ok(pending) => self.complete_allocation(pending, outcome, now),
            Err(e) => Err(e),
        }
    }

    /// Renews a name for one year from its current expiration, whether or
    /// not that lies in the past, and records the payment. Only the owner
    /// or the administrator of the name may. Returns the fee: nothing for
    /// an administrator of the registry, the base fee for anyone else.
    pub fn renew_domain(&mut self, domain_name: &str, payment_block: u64, caller: &Identity) -> (r:
        Result<u64, RenewError>)
        requires
            old(self).wf(),
        ensures
            final(self).wf(),
            match r {
                Ok(fee) => renewal_rejection(old(self)@, domain_name@, caller@) is None && fee
                    == renewal_fee(old(self)@, caller@) && final(self)@ == after_renewal(
                    old(self)@,
                    domain_name@,
                    payment_block,
                ),
                Err(e) => renewal_rejection(old(self)@, domain_name@, caller@) == Some(e) && final(self)@ == old(self)@,
            },
    {
        let mut record = match self.store.get(domain_name) {
            Some(stored) => stored.clone(),
            None => {
                return Err(RenewError::NotFound);
            },
        };
        if !caller.same_as(&record.owner) && !caller.same_as(&record.administrator) {
            return Err(RenewError::Unauthorized);
        }
        if record.expiration_time > u64::MAX - ONE_YEAR {
            return Err(RenewError::ExpirationOverflow);
        }
        let fee = if self.policy.is_admin(caller) {
            0
        } else {
            self.base_fee
        };
        record.expiration_time = record.expiration_time + ONE_YEAR;
        record.last_payment_block = payment_block;
        proof {
            lemma_replacement_keeps_wf(old(self)@, domain_name@, record@);
        }
        self.store.put(domain_name.to_owned(), record);
        Ok(fee)
    }

    /// Sets the endpoint of a name, or clears it. Only the owner or the
    /// administrator of the name may. An endpoint begins with `https://`
    /// and has at most 200 characters.
    pub fn set_custom_mcp_endpoint(
        &mut self,
        domain_name: &str,
        custom_endpoint: Option<String>,
        caller: &Identity,
    ) -> (r: Result<(), EndpointError>)
        requires
            old(self).wf(),
        ensures
            final(self).wf(),
            match r {
                Ok(()) => endpoint_rejection(
                    old(self)@,
                    domain_name@,
                    text_of(custom_endpoint),
                    caller@,
                ) is None && final(self)@ == after_endpoint_change(
                    old(self)@,
                    domain_name@,
                    text_of(custom_endpoint),
                ),
                Err(e) => endpoint_rejection(
                    old(self)@,
                    domain_name@,
                    text_of(custom_endpoint),
                    caller@,
                ) == Some(e) && final(self)@ == old(self)@,
            },
    {
        let mut record = match self.store.get(domain_name) {
            Some(stored) => stored.clone(),
            None => {
                return Err(EndpointError::NotFound);
            },
        };
        if !caller.same_as(&record.owner) && !caller.same_as(&record.administrator) {
            return Err(EndpointError::Unauthorized);
        }
        match &custom_endpoint {
            Some(endpoint) => {
                if !has_prefix(endpoint.as_str(), "https://") {
                    return Err(EndpointError::InvalidEndpoint);
                }
                if endpoint.as_str().unicode_len() > MAX_ENDPOINT_CHARS {
                    return Err(EndpointError::InvalidEndpoint);
                }
            },
            None => {},
        }
        record.custom_mcp_endpoint = custom_endpoint;
        proof {
            lemma_replacement_keeps_wf(old(self)@, domain_name@, record@);
        }
        self.store.put(domain_name.to_owned(), record);
        Ok(())
    }

    /// Transfers a name to a new owner. Only the owner or the administrator
    /// of the name may, and a new owner who is no administrator of the
    /// registry must not hold a name. The old owner then holds nothing and
    /// the new owner holds the name.
    pub fn transfer_domain_ownership(
        &mut self,
        domain_name: &str,
        new_owner: Identity,
        caller: &Identity,
    ) -> (r: Result<(), TransferError>)
        requires
            old(self).wf(),
        ensures
            final(self).wf(),
            match r {
                Ok(()) => transfer_rejection(old(self)@, domain_name@, new_owner@, caller@)
                    is None && final(self)@ == after_transfer(
                    old(self)@,
                    domain_name@,
                    new_owner@,
                ),
                Err(e) => transfer_rejection(old(self)@, domain_name@, new_owner@, caller@)
                    == Some(e@) && final(self)@ == old(self)@,
            },
    {
        let mut record = match self.store.get(domain_name) {
            Some(stored) => stored.clone(),
            None => {
                return Err(TransferError::NotFound);
            },
        };
        if !caller.same_as(&record.owner) && !caller.same_as(&record.administrator) {
            return Err(TransferError::Unauthorized);
        }
        if !self.policy.is_admin(&new_owner) {
            match self.wallets.get(&new_owner) {
                Some(existing) => {
                    return Err(TransferError::NewOwnerAlreadyOwns(existing.clone()));
                },
                None => {},
            }
        }
        let old_owner = record.owner;
        record.owner = new_owner.clone();
        proof {
            lemma_transfer_keeps_wf(old(self)@, domain_name@, new_owner@);
        }
        self.store.put(domain_name.to_owned(), record);
        self.wallets.remove(&old_owner);
        self.wallets.put(new_owner, domain_name.to_owned());
        Ok(())
    }

    /// Creates a season. Only an administrator may, and only while no
    /// season is active.
    pub fn create_registration_season(
        &mut self,
        request: CreateSeasonRequest,
        caller: &Identity,
        now: u64,
    ) -> (r: Result<u64, CreateSeasonError>)
        requires
            old(self).wf(),
        ensures
            final(self).wf(),
            match r {
                Ok(id) => season_creation_rejection(old(self)@, request, caller@) is None && id
                    == old(self)@.seasons.len() + 1 && final(self)@ == after_season_creation(
                    old(self)@,
                    request,
                    caller@,
                    now,
                ),
                Err(e) => season_creation_rejection(old(self)@, request, caller@) == Some(e)
                    && final(self)@ == old(self)@,
            },
    {
        if !self.policy.is_admin(caller) {
            return Err(CreateSeasonError::NotAdmin);
        }
        match self.ledger.create_season(request, caller.clone(), now) {
            Ok(id) => {
                self.allowlist.open_season();
                proof {
                    lemma_season_creation_keeps_wf(old(self)@, request, caller@, now);
                }
                Ok(id)
            },
            Err(e) => Err(e),
        }
    }

    /// Deactivates a season. Only an administrator may. A season that is
    /// completed or deactivated stays as it is.
    pub fn deactivate_season(&mut self, season_id: u64, caller: &Identity) -> (r: Result<
        (),
        DeactivateError,
    >)
        requires
            old(self).wf(),
        ensures
            final(self).wf(),
            match r {
                Ok(()) => deactivation_rejection(old(self)@, season_id, caller@) is None && final(self)@ == after_deactivation(old(self)@, season_id),
                Err(e) => deactivation_rejection(old(self)@, season_id, caller@) == Some(e)
                    && final(self)@ == old(self)@,
            },
    {
        if !self.policy.is_admin(caller) {
            return Err(DeactivateError::NotAdmin);
        }
        proof {
            lemma_deactivation_keeps_wf(old(self)@, season_id);
        }
        self.ledger.deactivate(season_id)
    }

    /// Lists an address for a season. Only an administrator may, and only
    /// for an active season.
    pub fn admin_add_address_to_season(
        &mut self,
        season_id: u64,
        address: String,
        caller: &Identity,
    ) -> (r: Result<(), AllowlistError>)
        requires
            old(self).wf(),
        ensures
            final(self).wf(),
            match r {
                Ok(()) => address_listing_rejection(old(self)@, season_id, caller@) is None
                    && final(self)@ == after_address_listing(old(self)@, season_id, address@),
                Err(e) => address_listing_rejection(old(self)@, season_id, caller@) == Some(e)
                    && final(self)@ == old(self)@,
            },
    {
        if !self.policy.is_admin(caller) {
            return Err(AllowlistError::NotAdmin);
        }
        proof {
            lemma_address_listing_keeps_wf(old(self)@, season_id, address@);
        }
        self.allowlist.add(&self.ledger, season_id, address)
    }

    /// Makes `new_admin` an administrator. Only an administrator may.
    pub fn add_admin(&mut self, new_admin: Identity, caller: &Identity) -> (r: Result<
        (),
        AdminError,
    >)
        requires
            old(self).wf(),
        ensures
            final(self).wf(),
            is_admin(old(self)@, caller@) ==> r is Ok && final(self)@ == (RegistryView {
                policy: PolicyView {
                    admins: with_member(old(self)@.policy.admins, new_admin@),
                    ..old(self)@.policy
                },
                ..old(self)@
            }),
            !is_admin(old(self)@, caller@) ==> r == Err::<(), AdminError>(AdminError::NotAdmin)
                && final(self)@ == old(self)@,
    {
        let r = self.policy.add_admin(new_admin, caller);
        proof {
            lemma_policy_change_keeps_wf(old(self)@, self@.policy);
        }
        r
    }

    /// Removes `admin` from the administrators. Only an administrator may,
    /// and not while there is but one administrator.
    pub fn remove_admin(&mut self, admin: &Identity, caller: &Identity) -> (r: Result<
        (),
        AdminError,
    >)
        requires
            old(self).wf(),
        ensures
            final(self).wf(),
            !is_admin(old(self)@, caller@) ==> r == Err::<(), AdminError>(AdminError::NotAdmin)
                && final(self)@ == old(self)@,
            is_admin(old(self)@, caller@) && old(self)@.policy.admins.len() <= 1 ==> r == Err::<
                (),
                AdminError,
            >(AdminError::LastAdmin) && final(self)@ == old(self)@,
            is_admin(old(self)@, caller@) && old(self)@.policy.admins.len() > 1 ==> r is Ok
                && final(self)@ == (RegistryView {
                policy: PolicyView {
                    admins: without_member(old(self)@.policy.admins, admin@),
                    ..old(self)@.policy
                },
                ..old(self)@
            }),
    {
        let r = self.policy.remove_admin(admin, caller);
        proof {
            lemma_policy_change_keeps_wf(old(self)@, self@.policy);
        }
        r
    }

    /// Reserves `name`. Only an administrator may. A reserved name stays
    /// reserved.
    pub fn add_reserved_name(&mut self, name: String, caller: &Identity) -> (r: Result<
        (),
        AdminError,
    >)
        requires
            old(self).wf(),
        ensures
            final(self).wf(),
            is_admin(old(self)@, caller@) ==> r is Ok && final(self)@ == (RegistryView {
                policy: PolicyView {
                    reserved_names: with_member(old(self)@.policy.reserved_names, name@),
                    ..old(self)@.policy
                },
                ..old(self)@
            }),
            !is_admin(old(self)@, caller@) ==> r == Err::<(), AdminError>(AdminError::NotAdmin)
                && final(self)@ == old(self)@,
    {
        let r = self.policy.add_reserved_name(name, caller);
        proof {
            lemma_policy_change_keeps_wf(old(self)@, self@.policy);
        }
        r
    }

    /// Approves `user` for short names. Only an administrator may.
    pub fn approve_user_for_short_names(&mut self, user: Identity, caller: &Identity) -> (r:
        Result<(), AdminError>)
        requires
            old(self).wf(),
        ensures
            final(self).wf(),
            is_admin(old(self)@, caller@) ==> r is Ok && final(self)@ == (RegistryView {
                policy: PolicyView {
                    approved_short_users: with_member(
                        old(self)@.policy.approved_short_users,
                        user@,
                    ),
                    ..old(self)@.policy
                },
                ..old(self)@
            }),
            !is_admin(old(self)@, caller@) ==> r == Err::<(), AdminError>(AdminError::NotAdmin)
                && final(self)@ == old(self)@,
    {
        let r = self.policy.approve_user_for_short_names(user, caller);
        proof {
            lemma_policy_change_keeps_wf(old(self)@, self@.policy);
        }
        r
    }

    /// Withdraws the approval of `user` for short names. Only an
    /// administrator may.
    pub fn revoke_short_name_approval(&mut self, user: &Identity, caller: &Identity) -> (r:
        Result<(), AdminError>)
        requires
            old(self).wf(),
        ensures
            final(self).wf(),
            is_admin(old(self)@, caller@) ==> r is Ok && final(self)@ == (RegistryView {
                policy: PolicyView {
                    approved_short_users: without_member(
                        old(self)@.policy.approved_short_users,
                        user@,
                    ),
                    ..old(self)@.policy
                },
                ..old(self)@
            }),
            !is_admin(old(self)@, caller@) ==> r == Err::<(), AdminError>(AdminError::NotAdmin)
                && final(self)@ == old(self)@,
    {
        let r = self.policy.revoke_short_name_approval(user, caller);
        proof {
            crate::collections::lemma_without_member(
                old(self)@.policy.approved_short_users,
                user@,
            );
            lemma_policy_change_keeps_wf(old(self)@, self@.policy);
        }
        r
    }

    /// Sets the short-name mode. Only an administrator may.
    pub fn set_short_name_mode(&mut self, mode: RegistrationMode, caller: &Identity) -> (r:
        Result<(), AdminError>)
        requires
            old(self).wf(),
        ensures
            final(self).wf(),
            is_admin(old(self)@, caller@) ==> r is Ok && final(self)@ == (RegistryView {
                policy: PolicyView { short_name_mode: mode, ..old(self)@.policy },
                ..old(self)@
            }),
            !is_admin(old(self)@, caller@) ==> r == Err::<(), AdminError>(AdminError::NotAdmin)
                && final(self)@ == old(self)@,
    {
        let r = self.policy.set_short_name_mode(mode, caller);
        proof {
            lemma_policy_change_keeps_wf(old(self)@, self@.policy);
        }
        r
    }

    /// Sets the fee for a renewal. Only an administrator may.
    pub fn set_base_fee(&mut self, new_fee: u64, caller: &Identity) -> (r: Result<(), AdminError>)
        requires
            old(self).wf(),
        ensures
            final(self).wf(),
            is_admin(old(self)@, caller@) ==> r is Ok && final(self)@ == (RegistryView {
                base_fee: new_fee,
                ..old(self)@
            }),
            !is_admin(old(self)@, caller@) ==> r == Err::<(), AdminError>(AdminError::NotAdmin)
                && final(self)@ == old(self)@,
    {
        if !self.policy.is_admin(caller) {
            return Err(AdminError::NotAdmin);
        }
        self.base_fee = new_fee;
        Ok(())
    }

    /// Sets the code that resources are provisioned with. Only an
    /// administrator may.
    pub fn set_domain_canister_wasm(&mut self, wasm: Vec<u8>, caller: &Identity) -> (r: Result<
        (),
        AdminError,
    >)
        requires
            old(self).wf(),
        ensures
            final(self).wf(),
            is_admin(old(self)@, caller@) ==> r is Ok && final(self)@ == (RegistryView {
                domain_canister_wasm: wasm@,
                ..old(self)@
            }),
            !is_admin(old(self)@, caller@) ==> r == Err::<(), AdminError>(AdminError::NotAdmin)
                && final(self)@ == old(self)@,
    {
        if !self.policy.is_admin(caller) {
            return Err(AdminError::NotAdmin);
        }
        self.wasm = wasm;
        Ok(())
    }

    /// Whether `user` administers the registry.
    pub fn is_user_admin(&self, user: &Identity) -> (r: bool)
        ensures
            r == is_admin(self@, user@),
    {
        self.policy.is_admin(user)
    }

    /// The administrators, in the order in which they were added.
    pub fn get_admins(&self) -> (r: Vec<Identity>)
        ensures
            r@.map_values(|k: Identity| k@) == self@.policy.admins,
    {
        self.policy.get_admins()
    }

    /// The identities approved for short names, in the order in which they
    /// were approved.
    pub fn get_approved_short_users(&self) -> (r: Vec<Identity>)
        ensures
            r@.map_values(|k: Identity| k@) == self@.policy.approved_short_users,
    {
        self.policy.get_approved_short_users()
    }

    /// The short-name mode.
    pub fn get_short_name_mode(&self) -> (r: RegistrationMode)
        ensures
            r == self@.policy.short_name_mode,
    {
        self.policy.get_short_name_mode()
    }

    /// The reserved names, in the order in which they were reserved.
    pub fn get_reserved_names(&self) -> (r: Vec<String>)
        ensures
            r@.map_values(|k: String| k@) == self@.policy.reserved_names,
    {
        self.policy.get_reserved_names()
    }

    /// Whether `name` is reserved.
    pub fn is_reserved_name(&self, name: &str) -> (r: bool)
        ensures
            r == self@.policy.reserved_names.contains(name@),
    {
        self.policy.is_reserved_name(name)
    }

    /// Whether `caller` may register `name` as far as its length goes.
    pub fn can_register_short_domain(&self, name: &str, caller: &Identity) -> (r: bool)
        ensures
            r == crate::policy::short_name_allowed(self@.policy, name@, caller@),
    {
        self.policy.can_register_short_domain(name, caller)
    }

    /// The name that `wallet` holds, if any.
    pub fn get_wallet_domain(&self, wallet: &Identity) -> (r: Option<String>)
        requires
            self.wf(),
        ensures
            text_of(r) == lookup(self@.wallets, wallet@),
    {
        match self.wallets.get(wallet) {
            Some(name) => Some(name.clone()),
            None => None,
        }
    }

    /// The number of seasons ever created.
    pub fn season_count(&self) -> (n: usize)
        ensures
            n == self@.seasons.len(),
    {
        self.ledger.len()
    }

    /// The number of names that have a record.
    pub fn domain_count(&self) -> (n: usize)
        ensures
            n == self@.domains.len(),
    {
        self.store.len()
    }

    /// Whether some season is active.
    pub fn has_active_season(&self) -> (r: bool)
        requires
            self.wf(),
        ensures
            r == crate::season::has_active(self@.seasons),
    {
        self.ledger.has_active_season()
    }

    /// The record stored under a name.
    pub fn get_domain_record(&self, domain_name: &str) -> (r: Option<DomainRecord>)
        requires
            self.wf(),
        ensures
            match r {
                Some(record) => lookup(self@.domains, domain_name@) == Some(record@),
                None => lookup(self@.domains, domain_name@) is None,
            },
    {
        match self.store.get(domain_name) {
            Some(record) => Some(record.clone()),
            None => None,
        }
    }

    /// What is reported at the time `now` of a name: active strictly
    /// before its expiration, expired from then on.
    pub fn get_domain_info(&self, domain_name: &str, now: u64) -> (r: Option<DomainInfo>)
        requires
            self.wf(),
        ensures
            match r {
                Some(info) => lookup(self@.domains, domain_name@) is Some && info@ == info_of(
                    domain_name@,
                    lookup(self@.domains, domain_name@)->0,
                    now,
                ),
                None => lookup(self@.domains, domain_name@) is None,
            },
    {
        let owned = domain_name.to_owned();
        match self.store.get(domain_name) {
            Some(record) => Some(domain_info(&owned, record, now)),
            None => None,
        }
    }

    /// The endpoint in force for a name: its own, or else the default one.
    pub fn get_mcp_endpoint(&self, domain_name: &str) -> (r: Option<String>)
        requires
            self.wf(),
        ensures
            match r {
                Some(endpoint) => lookup(self@.domains, domain_name@) is Some && endpoint@
                    == endpoint_of(domain_name@, lookup(self@.domains, domain_name@)->0),
                None => lookup(self@.domains, domain_name@) is None,
            },
    {
        let owned = domain_name.to_owned();
        match self.store.get(domain_name) {
            Some(record) => Some(effective_endpoint(&owned, record)),
            None => None,
        }
    }

    /// What is reported at the time `now` of every name, or of the names of
    /// one owner, in the order in which the names were first registered.
    pub fn list_domains(&self, owner: Option<&Identity>, now: u64) -> (r: Vec<DomainInfo>)
        ensures
            r@.map_values(|i: DomainInfo| i@) == self@.domains.filter_map(
                listed(
                    match owner {
                        Some(o) => Some(o@),
                        None => None,
                    },
                    now,
                ),
            ),
    {
        self.store.list(owner, now)
    }

    /// The names registered after `timestamp`, each with what is reported
    /// of it at the time `now`.
    pub fn get_domains_since_timestamp(&self, timestamp: u64, now: u64) -> (r: Vec<
        (String, DomainInfo),
    >)
        ensures
            r@.map_values(|e: (String, DomainInfo)| (e.0@, e.1@)) == self@.domains.filter_map(
                registered_since(timestamp, now),
            ),
    {
        self.store.find_since(timestamp, now)
    }

    /// Every name, with the time of its registration and what is reported
    /// of it at the time `now`.
    pub fn get_all_domains_with_timestamps(&self, now: u64) -> (r: Vec<(String, u64, DomainInfo)>)
        ensures
            r@.map_values(|e: (String, u64, DomainInfo)| (e.0@, e.1, e.2@))
                == self@.domains.filter_map(with_timestamp(now)),
    {
        self.store.all_with_timestamps(now)
    }

    /// The names in force at the time `now` that `query` matches, ignoring
    /// case; an empty query matches them all.
    pub fn discover_domains(&self, query: &str, now: u64) -> (r: Vec<SearchResult>)
        ensures
            r@.map_values(|s: SearchResult| s@) == self@.domains.filter_map(found_by(query@, now)),
    {
        self.store.search(query, now)
    }

    /// The season that a registration of `domain_name` is allocated from,
    /// with its id: the cheapest active season that admits the length of
    /// the name and has capacity, the one with the lowest id among equals.
    pub fn find_applicable_season(&self, domain_name: &str) -> (r: Option<
        (u64, RegistrationSeason),
    >)
        ensures
            match r {
                Some((id, season)) => cheapest_applicable(
                    self@.seasons,
                    name_length(domain_name@),
                ) is Some && season@ == self@.seasons[cheapest_applicable(
                    self@.seasons,
                    name_length(domain_name@),
                )->0] && id == season@.season_id,
                None => cheapest_applicable(self@.seasons, name_length(domain_name@)) is None,
            },
    {
        let length = byte_length(domain_name) as u64;
        match self.ledger.find_applicable(length) {
            Some(season) => Some((season.season_id, season.clone())),
            None => None,
        }
    }

    /// The season that a registration of `domain_name` is allocated from.
    pub fn get_applicable_season_for_domain(&self, domain_name: &str) -> (r: Option<
        RegistrationSeason,
    >)
        ensures
            match r {
                Some(season) => cheapest_applicable(self@.seasons, name_length(domain_name@))
                    is Some && season@ == self@.seasons[cheapest_applicable(
                    self@.seasons,
                    name_length(domain_name@),
                )->0],
                None => cheapest_applicable(self@.seasons, name_length(domain_name@)) is None,
            },
    {
        match self.find_applicable_season(domain_name) {
            Some((_, season)) => Some(season),
            None => None,
        }
    }

    /// The fee for the registration of `domain_name`, in fee units: the
    /// price of the season that it is allocated from. `None` where no
    /// season applies.
    pub fn calculate_registration_fee(&self, domain_name: &str) -> (r: Option<u128>)
        ensures
            match r {
                Some(fee) => cheapest_applicable(self@.seasons, name_length(domain_name@))
                    is Some && fee == fee_of(
                    self@.seasons[cheapest_applicable(
                        self@.seasons,
                        name_length(domain_name@),
                    )->0],
                ),
                None => cheapest_applicable(self@.seasons, name_length(domain_name@)) is None,
            },
    {
        let length = byte_length(domain_name) as u64;
        match self.ledger.find_applicable(length) {
            Some(season) => Some(season_fee(season)),
            None => None,
        }
    }

    /// The fee quoted for the registration of `domain_name`, in fee units;
    /// nothing where the name is malformed or reserved or no season
    /// applies.
    pub fn get_registration_fee(&self, domain_name: &str) -> (r: u128)
        ensures
            r == quoted_fee(self@, domain_name@),
    {
        if !is_valid_domain_name(domain_name) {
            return 0;
        }
        if self.policy.is_reserved_name(domain_name) {
            return 0;
        }
        match self.calculate_registration_fee(domain_name) {
            Some(fee) => fee,
            None => 0,
        }
    }

    /// The fee for a renewal, in fee units.
    pub fn calculate_renewal_fee(&self) -> (r: u64)
        ensures
            r == self@.base_fee,
    {
        self.base_fee
    }

    /// The fee for a renewal, in fee units.
    pub fn get_renewal_fee(&self) -> (r: u64)
        ensures
            r == self@.base_fee,
    {
        self.calculate_renewal_fee()
    }

    /// Whether `user` could register `domain_name` at the time `now`,
    /// seasons aside: the name is well-formed, not reserved, available, and
    /// the short-name policy admits the user.
    pub fn can_register_domain(&self, domain_name: &str, user: &Identity, now: u64) -> (r: bool)
        requires
            self.wf(),
        ensures
            r == can_register(self@, domain_name@, user@, now),
    {
        if !is_valid_domain_name(domain_name) {
            return false;
        }
        if self.policy.is_reserved_name(domain_name) {
            return false;
        }
        if !self.store.is_available(domain_name, now) {
            return false;
        }
        self.policy.can_register_short_domain(domain_name, user)
    }

    /// The season with the given id.
    pub fn get_registration_season(&self, season_id: u64) -> (r: Option<RegistrationSeason>)
        ensures
            season_views(r) == season_with_id(self@.seasons, season_id),
    {
        match self.ledger.get(season_id) {
            Some(season) => Some(season.clone()),
            None => None,
        }
    }

    /// The active seasons, by id.
    pub fn get_active_seasons(&self) -> (r: Vec<RegistrationSeason>)
        ensures
            r@.map_values(|s: RegistrationSeason| s@) == self@.seasons.filter_map(
                crate::season::if_active(),
            ),
    {
        self.ledger.active()
    }

    /// All seasons, by id.
    pub fn get_all_seasons(&self) -> (r: Vec<RegistrationSeason>)
        ensures
            r@.map_values(|s: RegistrationSeason| s@) == self@.seasons,
    {
        self.ledger.all()
    }

    /// The active season, if there is one.
    pub fn get_current_season(&self) -> (r: Option<RegistrationSeason>)
        requires
            self.wf(),
        ensures
            season_views(r) == active_season(self@.seasons),
    {
        match self.ledger.current() {
            Some(season) => Some(season.clone()),
            None => None,
        }
    }

    /// The season that a number stands for: 0 for the season created last,
    /// any other number for the season with that id.
    pub fn get_season_by_number(&self, season_number: u64) -> (r: Option<RegistrationSeason>)
        ensures
            season_views(r) == crate::season::season_by_number(self@.seasons, season_number),
    {
        match self.ledger.by_number(season_number) {
            Some(season) => Some(season.clone()),
            None => None,
        }
    }

    /// The figures of the season with the given id.
    pub fn get_season_stats(&self, season_id: u64) -> (r: Option<SeasonStats>)
        ensures
            r == match season_with_id(self@.seasons, season_id) {
                Some(season) => Some(stats_of(season)),
                None => None,
            },
    {
        match self.ledger.get(season_id) {
            Some(season) => Some(season_stats(season)),
            None => None,
        }
    }

    /// The figures of the season that a number stands for.
    pub fn get_season_stats_by_number(&self, season_number: u64) -> (r: Option<SeasonStats>)
        ensures
            r == match crate::season::season_by_number(self@.seasons, season_number) {
                Some(season) => Some(stats_of(season)),
                None => None,
            },
    {
        match self.ledger.by_number(season_number) {
            Some(season) => Some(season_stats(season)),
            None => None,
        }
    }

    /// The figures of all seasons, by id.
    pub fn get_all_season_stats(&self) -> (r: Vec<SeasonStats>)
        ensures
            r@ == self@.seasons.filter_map(crate::season::every_stats()),
    {
        self.ledger.all_stats()
    }

    /// The addresses listed for the season with the given id, in the order
    /// in which they were listed.
    pub fn get_season_addresses(&self, season_id: u64) -> (r: Vec<String>)
        ensures
            r@.map_values(|a: String| a@) == addresses_of(self@.addresses, season_id),
    {
        self.allowlist.for_season(season_id)
    }

    /// Whether the address is listed for the season with the given id.
    pub fn is_address_in_season(&self, season_id: u64, address: &str) -> (r: bool)
        ensures
            r == crate::allowlist::is_listed(self@.addresses, season_id, address@),
    {
        self.allowlist.contains(season_id, address)
    }

    /// Whether the active season lists the address.
    pub fn is_address_authorized_for_current_season(&self, address: &str) -> (r: bool)
        requires
            self.wf(),
        ensures
            r == authorized_for_current_season(self@, address@),
    {
        match self.ledger.current() {
            Some(season) => self.allowlist.contains(season.season_id, address),
            None => false,
        }
    }
}

/// The mathematical value of an optional season.
pub open spec fn season_views(season: Option<RegistrationSeason>) -> Option<
    crate::season::SeasonView,
> {
    match season {
        Some(s) => Some(s@),
        None => None,
    }
}

} // verus!
