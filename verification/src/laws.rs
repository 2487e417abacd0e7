//! What holds of the registry, proved of the model that the executable
//! registry refines.

use crate::collections::{
    has_key,
    key_index,
    lemma_upsert,
    lemma_without_key,
    lookup,
    without_key,
};
use crate::invariants::{
    lemma_commit_keeps_wf,
    lemma_holder_is_owner,
    lemma_reservation_keeps_wf,
    lemma_rollback_keeps_wf,
    lemma_without_holder,
};
use crate::model::{
    address_creation_rejection,
    after_transfer,
    allocation_result,
    committed,
    completion,
    gift_plan,
    gift_rejection,
    is_admin,
    record_of,
    registration_plan,
    registration_rejection,
    registry_wf,
    reserved_for,
    rolled_back,
    season_creation_rejection,
    transfer_rejection,
    without_holder_of,
    AllocationErrorView,
    PendingView,
    ReceiptView,
    RegistryView,
};
use crate::names::{name_length, valid_name};
use crate::policy::short_name_allowed;
use crate::records::{info_of, is_available, DomainRecordView, DomainStatus, ONE_YEAR};
use crate::season::{
    active_position,
    active_season,
    applicable,
    cheapest_applicable,
    has_active,
    is_cheapest_applicable,
    ledger_wf,
    preferred,
    request_fault,
    reservation_rejection,
    season_position,
    slot_reserved,
    valid_season,
    with_slot_reserved,
    CreateSeasonError,
    CreateSeasonRequest,
    SeasonStatus,
    SeasonView,
    SlotError,
};
use vstd::prelude::*;

verus! {

/// Once the record under `name` has given way and `owner` holds `name`,
/// the index says so, and says of every other identity what it said
/// before, except that nobody else holds `name`.
proof fn lemma_committed_index(s: RegistryView, p: PendingView, canister_id: Seq<u8>, now: u64)
    requires
        registry_wf(s),
    ensures
        lookup(committed(s, p, canister_id, now).domains, p.domain_name) == Some(
            record_of(p, canister_id, now),
        ),
        lookup(committed(s, p, canister_id, now).wallets, p.owner) == Some(p.domain_name),
        forall|h: Seq<u8>|
            h != p.owner ==> #[trigger] lookup(committed(s, p, canister_id, now).wallets, h)
                == if lookup(s.wallets, h) == Some(p.domain_name) {
                None
            } else {
                lookup(s.wallets, h)
            },
{
    let name = p.domain_name;
    let left = without_holder_of(s, name);
    let after = committed(s, p, canister_id, now);
    lemma_upsert(s.domains, name, record_of(p, canister_id, now));
    lemma_without_holder(s, name);
    lemma_upsert(left, p.owner, name);
    assert forall|h: Seq<u8>| h != p.owner implies #[trigger] lookup(after.wallets, h) == if lookup(
        s.wallets,
        h,
    ) == Some(name) {
        None
    } else {
        lookup(s.wallets, h)
    } by {
        assert(lookup(after.wallets, h) == lookup(left, h));
        if has_key(left, h) {
            let i = key_index(left, h);
            assert(left[i].1 != name);
        }
        if lookup(s.wallets, h) == Some(name) {
            let i = key_index(s.wallets, h);
            lemma_holder_is_owner(s, i);
            lemma_without_key(s.wallets, h);
        } else {
            match lookup(s.domains, name) {
                Some(previous) => {
                    if lookup(s.wallets, previous.owner) == Some(name) {
                        lemma_without_key(s.wallets, previous.owner);
                    }
                },
                None => {},
            }
        }
    }
}

/// The second step of an allocation succeeds exactly when the resource was
/// provisioned and one year from `now` is a time. The name is then in
/// force for exactly that year: its record is found under its name, says
/// what the allocation set out to record, was registered at `now`, expires
/// one year later, and is reported as active at every time from `now`
/// until then. The owner holds the name.
pub proof fn law_committed_name_is_active(
    s: RegistryView,
    p: PendingView,
    canister_id: Seq<u8>,
    now: u64,
    at: u64,
)
    requires
        registry_wf(s),
    ensures
        ({
            let result = completion(s, p, Ok(canister_id), now);
            let record = lookup(result.0.domains, p.domain_name);
            &&& result.1 is Ok <==> now + ONE_YEAR <= u64::MAX
            &&& result.1 is Ok ==> {
                &&& registry_wf(result.0)
                &&& record == Some(record_of(p, canister_id, now))
                &&& record->0.owner == p.owner
                &&& record->0.administrator == p.administrator
                &&& record->0.operator == p.operator
                &&& record->0.canister_id == canister_id
                &&& record->0.last_payment_block == p.payment_block
                &&& record->0.custom_mcp_endpoint is None
                &&& record->0.registration_time == now
                &&& record->0.expiration_time == record->0.registration_time + ONE_YEAR
                &&& now <= at < now + ONE_YEAR ==> info_of(p.domain_name, record->0, at).status
                    == DomainStatus::Active
                &&& info_of(p.domain_name, record->0, at).owner == p.owner
                &&& info_of(p.domain_name, record->0, at).expiration_time == now + ONE_YEAR
                &&& lookup(result.0.wallets, p.owner) == Some(p.domain_name)
            }
        }),
{
    if now + ONE_YEAR <= u64::MAX {
        lemma_committed_index(s, p, canister_id, now);
        lemma_commit_keeps_wf(s, p, canister_id, now);
    }
}

/// When an expired name is registered again, or a record is overwritten
/// for any other reason, its former holder holds the name no longer:
/// after the commit nobody but the new owner holds the name, and every
/// other identity holds what it held.
pub proof fn law_former_holder_is_released(
    s: RegistryView,
    p: PendingView,
    canister_id: Seq<u8>,
    now: u64,
    holder: Seq<u8>,
)
    requires
        registry_wf(s),
        holder != p.owner,
    ensures
        ({
            let after = committed(s, p, canister_id, now);
            &&& registry_wf(after)
            &&& lookup(after.wallets, holder) != Some(p.domain_name)
            &&& lookup(s.wallets, holder) == Some(p.domain_name) ==> lookup(after.wallets, holder)
                is None
            &&& lookup(s.wallets, holder) != Some(p.domain_name) ==> lookup(after.wallets, holder)
                == lookup(s.wallets, holder)
        }),
{
    lemma_committed_index(s, p, canister_id, now);
    lemma_commit_keeps_wf(s, p, canister_id, now);
}

/// A registration that is admitted reserves a slot that is there: where
/// the caller is no administrator, the season of the plan is the cheapest
/// applicable one, it is active, and it has a free slot.
pub proof fn lemma_registration_reserves(
    s: RegistryView,
    name: Seq<char>,
    administrator: Seq<u8>,
    operator: Seq<u8>,
    payment_block: u64,
    caller: Seq<u8>,
    now: u64,
)
    requires
        registry_wf(s),
        registration_rejection(s, name, caller, now) is None,
    ensures
        ({
            let plan = registration_plan(s, name, administrator, operator, payment_block, caller);
            &&& is_admin(s, caller) <==> plan.season_id is None
            &&& plan.season_id is Some ==> {
                &&& cheapest_applicable(s.seasons, name_length(name)) is Some
                &&& season_position(s.seasons, plan.season_id->0) == cheapest_applicable(
                    s.seasons,
                    name_length(name),
                )
                &&& s.seasons[plan.season_id->0 - 1].status == SeasonStatus::Active
                &&& reservation_rejection(s.seasons, plan.season_id->0) is None
            }
            &&& registry_wf(reserved_for(s, plan.season_id))
        }),
{
    let plan = registration_plan(s, name, administrator, operator, payment_block, caller);
    if !is_admin(s, caller) {
        let i = cheapest_applicable(s.seasons, name_length(name))->0;
        assert(is_cheapest_applicable(s.seasons, name_length(name), i));
        assert(s.seasons[i].season_id == i + 1);
        lemma_reservation_keeps_wf(s, plan.season_id->0);
    }
}

/// A gift or a creation for an address that is admitted reserves a slot
/// that is there: the active season has a free one.
pub proof fn lemma_gift_reserves(
    s: RegistryView,
    name: Seq<char>,
    recipient: Seq<u8>,
    caller: Seq<u8>,
    now: u64,
)
    requires
        registry_wf(s),
        gift_rejection(s, name, recipient, caller, now) is None,
    ensures
        ({
            let id = active_season(s.seasons)->0.season_id;
            &&& has_active(s.seasons)
            &&& season_position(s.seasons, id) == Some(active_position(s.seasons))
            &&& reservation_rejection(s.seasons, id) is None
            &&& registry_wf(reserved_for(s, Some(id)))
        }),
{
    let i = active_position(s.seasons);
    assert(s.seasons[i].status == SeasonStatus::Active);
    assert(s.seasons[i].season_id == i + 1);
    lemma_reservation_keeps_wf(s, (i + 1) as u64);
}

/// A registration that succeeds leaves a record that the caller owns and
/// that says what the request said. The record was registered at the time
/// of the call, expires one year later, and is reported as active at every
/// time from the call until then. An admitted registration succeeds
/// exactly when the resource was provisioned and one year from the time of
/// the call is a time.
pub proof fn law_registered_name_is_active(
    s: RegistryView,
    name: Seq<char>,
    administrator: Seq<u8>,
    operator: Seq<u8>,
    payment_block: u64,
    caller: Seq<u8>,
    outcome: Result<Seq<u8>, Seq<char>>,
    now: u64,
    at: u64,
)
    requires
        registry_wf(s),
    ensures
        ({
            let rejection = registration_rejection(s, name, caller, now);
            let plan = registration_plan(s, name, administrator, operator, payment_block, caller);
            let result = allocation_result(s, rejection, plan, outcome, now);
            let record = lookup(result.0.domains, name);
            &&& registry_wf(result.0)
            &&& result.1 is Ok <==> rejection is None && outcome is Ok && now + ONE_YEAR
                <= u64::MAX
            &&& result.1 is Ok ==> {
                &&& record is Some
                &&& record->0.owner == caller
                &&& record->0.administrator == administrator
                &&& record->0.operator == operator
                &&& record->0.canister_id == outcome->Ok_0
                &&& record->0.last_payment_block == payment_block
                &&& record->0.custom_mcp_endpoint is None
                &&& record->0.registration_time == now
                &&& record->0.expiration_time == record->0.registration_time + ONE_YEAR
                &&& now <= at < now + ONE_YEAR ==> info_of(name, record->0, at).status
                    == DomainStatus::Active
                &&& info_of(name, record->0, at).name == name
                &&& info_of(name, record->0, at).owner == caller
                &&& info_of(name, record->0, at).expiration_time == now + ONE_YEAR
                &&& lookup(result.0.wallets, caller) == Some(name)
            }
        }),
{
    let rejection = registration_rejection(s, name, caller, now);
    let plan = registration_plan(s, name, administrator, operator, payment_block, caller);
    if rejection is None {
        lemma_registration_reserves(s, name, administrator, operator, payment_block, caller, now);
        let reserved = reserved_for(s, plan.season_id);
        match outcome {
            Ok(canister_id) => {
                law_committed_name_is_active(reserved, plan, canister_id, now, at);
                if now + ONE_YEAR > u64::MAX {
                    lemma_rollback_keeps_wf(reserved, plan);
                }
            },
            Err(_) => {
                lemma_rollback_keeps_wf(reserved, plan);
            },
        }
    }
}

/// In a well-formed registry at most one season is active.
pub proof fn law_one_active_season(s: RegistryView, i: int, j: int)
    requires
        registry_wf(s),
        0 <= i < s.seasons.len(),
        0 <= j < s.seasons.len(),
        s.seasons[i].status == SeasonStatus::Active,
        s.seasons[j].status == SeasonStatus::Active,
    ensures
        i == j,
{
}

/// While a season is active no season is created: the request is refused,
/// and where the caller is an administrator and the request itself is in
/// order, it is refused because of the active season.
pub proof fn law_second_active_season_refused(
    s: RegistryView,
    request: CreateSeasonRequest,
    caller: Seq<u8>,
)
    requires
        has_active(s.seasons),
    ensures
        season_creation_rejection(s, request, caller) is Some,
        is_admin(s, caller) && request_fault(request) is None ==> season_creation_rejection(
            s,
            request,
            caller,
        ) == Some(CreateSeasonError::ActiveSeasonExists),
{
}

/// No season of a well-formed registry holds more names than it allows,
/// and a season that holds as many is not active.
pub proof fn law_capacity_is_respected(s: RegistryView, i: int)
    requires
        registry_wf(s),
        0 <= i < s.seasons.len(),
    ensures
        s.seasons[i].registered_count <= s.seasons[i].total_allowed,
        s.seasons[i].registered_count == s.seasons[i].total_allowed ==> s.seasons[i].status
            != SeasonStatus::Active,
{
    assert(valid_season(s.seasons[i]));
}

/// The reservation that fills an active season completes it, and a full
/// season gives no slot and applies to no name.
pub proof fn law_full_season_is_closed(seasons: Seq<SeasonView>, season_id: u64, length: nat)
    requires
        ledger_wf(seasons),
        season_position(seasons, season_id) is Some,
    ensures
        ({
            let s = seasons[season_id - 1];
            &&& s.status == SeasonStatus::Active && s.registered_count + 1 == s.total_allowed
                ==> with_slot_reserved(seasons, season_id)[season_id - 1].status
                == SeasonStatus::Completed
            &&& s.registered_count == s.total_allowed ==> reservation_rejection(seasons, season_id)
                == Some(SlotError::Full) && !applicable(s, length) && cheapest_applicable(
                seasons,
                length,
            ) != Some(season_id - 1)
        }),
{
    let s = seasons[season_id - 1];
    assert(valid_season(s));
    if s.registered_count == s.total_allowed {
        if cheapest_applicable(seasons, length) == Some(season_id - 1) {
            assert(is_cheapest_applicable(seasons, length, season_id - 1));
        }
    }
}

/// The season that a name is allocated from is applicable, and no
/// applicable season is cheaper, nor as cheap with a lower id.
pub proof fn law_cheapest_season_is_chosen(seasons: Seq<SeasonView>, length: nat, j: int)
    requires
        cheapest_applicable(seasons, length) is Some,
        0 <= j < seasons.len(),
        applicable(seasons[j], length),
    ensures
        ({
            let chosen = seasons[cheapest_applicable(seasons, length)->0];
            &&& applicable(chosen, length)
            &&& chosen.price_icp <= seasons[j].price_icp
            &&& chosen.price_icp == seasons[j].price_icp ==> chosen.season_id
                <= seasons[j].season_id
        }),
{
    let i = cheapest_applicable(seasons, length)->0;
    assert(is_cheapest_applicable(seasons, length, i));
}

/// Whenever some season is applicable, one is chosen.
pub proof fn law_applicable_season_is_found(seasons: Seq<SeasonView>, length: nat, j: int)
    requires
        0 <= j < seasons.len(),
        applicable(seasons[j], length),
    ensures
        cheapest_applicable(seasons, length) is Some,
{
    let best = lemma_some_cheapest(seasons, length, seasons.len() as int, j);
    assert(is_cheapest_applicable(seasons, length, best));
}

/// Among the first `n` seasons, of which the one at `j` is applicable, a
/// position that is the cheapest applicable one.
proof fn lemma_some_cheapest(seasons: Seq<SeasonView>, length: nat, n: int, j: int) -> (best: int)
    requires
        0 <= j < n <= seasons.len(),
        applicable(seasons[j], length),
    ensures
        0 <= best < n,
        applicable(seasons[best], length),
        forall|k: int|
            0 <= k < n && applicable(#[trigger] seasons[k], length) ==> preferred(
                seasons[best],
                seasons[k],
            ),
        forall|k: int|
            0 <= k < best && applicable(#[trigger] seasons[k], length)
                ==> !preferred(seasons[k], seasons[best]),
    decreases n,
{
    if exists|k: int| 0 <= k < n - 1 && applicable(#[trigger] seasons[k], length) {
        let k0 = choose|k: int| 0 <= k < n - 1 && applicable(#[trigger] seasons[k], length);
        let before = lemma_some_cheapest(seasons, length, n - 1, k0);
        let last = seasons[n - 1];
        if applicable(last, length) && !preferred(seasons[before], last) {
            assert forall|k: int|
                0 <= k < n && applicable(#[trigger] seasons[k], length) implies preferred(
                last,
                seasons[k],
            ) by {
                if k < n - 1 {
                    assert(preferred(seasons[before], seasons[k]));
                }
            }
            assert forall|k: int|
                0 <= k < n - 1 && applicable(
                    #[trigger] seasons[k],
                    length,
                ) implies !preferred(seasons[k], last) by {
                assert(preferred(seasons[before], seasons[k]));
            }
            n - 1
        } else {
            before
        }
    } else {
        assert(j == n - 1);
        j
    }
}

/// A caller who is no administrator and holds a name cannot register
/// another: a request that the syntax, the reserved names and the
/// short-name policy let pass is refused because of the name that the
/// caller holds.
///
/// The registry is then as it was: no record is added, the caller holds
/// what it held, and no slot is taken.
pub proof fn law_one_name_per_wallet(
    s: RegistryView,
    name: Seq<char>,
    administrator: Seq<u8>,
    operator: Seq<u8>,
    payment_block: u64,
    caller: Seq<u8>,
    outcome: Result<Seq<u8>, Seq<char>>,
    now: u64,
)
    requires
        has_key(s.wallets, caller),
        !is_admin(s, caller),
    ensures
        ({
            let rejection = registration_rejection(s, name, caller, now);
            let plan = registration_plan(s, name, administrator, operator, payment_block, caller);
            let result = allocation_result(s, rejection, plan, outcome, now);
            &&& rejection is Some
            &&& result.1 is Err
            &&& result.0 == s
            &&& valid_name(name) && !s.policy.reserved_names.contains(name) && short_name_allowed(
                s.policy,
                name,
                caller,
            ) ==> result.1 == Err::<ReceiptView, AllocationErrorView>(
                AllocationErrorView::WalletAlreadyOwns(lookup(s.wallets, caller)->0),
            )
        }),
{
}

/// After a registration was committed, the caller holds the name, so that
/// a second registration by a caller who is no administrator is refused.
pub proof fn law_second_registration_refused(
    s: RegistryView,
    p: PendingView,
    canister_id: Seq<u8>,
    now: u64,
    name: Seq<char>,
    later: u64,
)
    requires
        registry_wf(s),
        !is_admin(s, p.owner),
        valid_name(name),
        !s.policy.reserved_names.contains(name),
        short_name_allowed(s.policy, name, p.owner),
    ensures
        registration_rejection(committed(s, p, canister_id, now), name, p.owner, later) == Some(
            AllocationErrorView::WalletAlreadyOwns(p.domain_name),
        ),
{
    lemma_committed_index(s, p, canister_id, now);
}

/// A transfer moves the name from the old owner to the new one: afterwards
/// the new owner holds the name and, unless both are the same, the old
/// owner holds nothing.
pub proof fn law_transfer_moves_the_name(
    s: RegistryView,
    name: Seq<char>,
    new_owner: Seq<u8>,
    caller: Seq<u8>,
)
    requires
        registry_wf(s),
        transfer_rejection(s, name, new_owner, caller) is None,
    ensures
        ({
            let old_owner = lookup(s.domains, name)->0.owner;
            let after = after_transfer(s, name, new_owner);
            &&& lookup(after.wallets, new_owner) == Some(name)
            &&& old_owner != new_owner ==> lookup(after.wallets, old_owner) is None
            &&& lookup(after.domains, name) is Some
            &&& lookup(after.domains, name)->0.owner == new_owner
        }),
{
    let record = lookup(s.domains, name)->0;
    let removed = without_key(s.wallets, record.owner);
    lemma_without_key(s.wallets, record.owner);
    lemma_upsert(removed, new_owner, name);
    lemma_upsert(
        s.domains,
        name,
        DomainRecordView { owner: new_owner, ..record },
    );
}

/// An administrator who registers a name for itself pays nothing and
/// leaves every season as it was, whatever provisioning comes to. The
/// record that a success leaves counts as a gift and names no season.
pub proof fn law_admin_registration_is_free(
    s: RegistryView,
    name: Seq<char>,
    administrator: Seq<u8>,
    operator: Seq<u8>,
    payment_block: u64,
    caller: Seq<u8>,
    outcome: Result<Seq<u8>, Seq<char>>,
    now: u64,
)
    requires
        registry_wf(s),
        is_admin(s, caller),
    ensures
        ({
            let plan = registration_plan(s, name, administrator, operator, payment_block, caller);
            let result = allocation_result(
                s,
                registration_rejection(s, name, caller, now),
                plan,
                outcome,
                now,
            );
            let record = lookup(result.0.domains, name);
            &&& plan.fee == 0
            &&& plan.season_id is None
            &&& result.0.seasons == s.seasons
            &&& result.1 is Ok ==> {
                &&& result.1->Ok_0.fee == 0
                &&& record is Some
                &&& record->0.was_gifted
                &&& record->0.registration_season_id is None
            }
        }),
{
    let plan = registration_plan(s, name, administrator, operator, payment_block, caller);
    if registration_rejection(s, name, caller, now) is None && outcome is Ok && now + ONE_YEAR
        <= u64::MAX {
        lemma_committed_index(s, plan, outcome->Ok_0, now);
    }
}

/// A recipient who holds a name is given no other, whoever asks: a gift
/// and a creation for an address are refused, and where an administrator
/// asks for a name that is well-formed and not reserved, they are refused
/// because the name is taken or because of the name that the recipient
/// holds. The registry is then as it was, whatever provisioning would have
/// come to.
pub proof fn law_recipient_holds_one_name(
    s: RegistryView,
    name: Seq<char>,
    recipient: Seq<u8>,
    address: Seq<char>,
    caller: Seq<u8>,
    now: u64,
)
    requires
        has_key(s.wallets, recipient),
    ensures
        gift_rejection(s, name, recipient, caller, now) is Some,
        address_creation_rejection(s, name, recipient, address, caller, now) == gift_rejection(
            s,
            name,
            recipient,
            caller,
            now,
        ),
        forall|p: PendingView, outcome: Result<Seq<u8>, Seq<char>>|
            #[trigger] allocation_result(
                s,
                gift_rejection(s, name, recipient, caller, now),
                p,
                outcome,
                now,
            ) == (
                s,
                Err::<ReceiptView, AllocationErrorView>(
                    gift_rejection(s, name, recipient, caller, now)->0,
                ),
            ),
        is_admin(s, caller) && valid_name(name) && !s.policy.reserved_names.contains(name) ==> {
            let held = AllocationErrorView::RecipientAlreadyOwns(lookup(s.wallets, recipient)->0);
            gift_rejection(s, name, recipient, caller, now) == if is_available(
                s.domains,
                name,
                now,
            ) {
                Some(held)
            } else {
                Some(AllocationErrorView::NameUnavailable)
            }
        },
{
}

/// Whatever a registration comes to, it leaves every season within its
/// capacity and takes at most one slot. A registration that succeeds for a
/// caller who is no administrator takes exactly one slot, of the cheapest
/// applicable season: that season is completed if the slot was its last,
/// and stays active if it was not; every other season is as it was.
pub proof fn law_registration_respects_capacity(
    s: RegistryView,
    name: Seq<char>,
    administrator: Seq<u8>,
    operator: Seq<u8>,
    payment_block: u64,
    caller: Seq<u8>,
    outcome: Result<Seq<u8>, Seq<char>>,
    now: u64,
    k: int,
)
    requires
        registry_wf(s),
        0 <= k < s.seasons.len(),
    ensures
        ({
            let rejection = registration_rejection(s, name, caller, now);
            let plan = registration_plan(s, name, administrator, operator, payment_block, caller);
            let result = allocation_result(s, rejection, plan, outcome, now);
            let chosen = cheapest_applicable(s.seasons, name_length(name));
            &&& result.0.seasons.len() == s.seasons.len()
            &&& result.0.seasons[k].registered_count <= result.0.seasons[k].total_allowed
            &&& result.0.seasons[k].registered_count <= s.seasons[k].registered_count + 1
            &&& result.1 is Ok && !is_admin(s, caller) ==> {
                &&& chosen is Some
                &&& result.0.seasons == s.seasons.update(
                    chosen->0,
                    slot_reserved(s.seasons[chosen->0]),
                )
                &&& result.0.seasons[chosen->0].registered_count
                    == s.seasons[chosen->0].registered_count + 1
                &&& result.0.seasons[chosen->0].status == if s.seasons[chosen->0].registered_count
                    + 1 == s.seasons[chosen->0].total_allowed {
                    SeasonStatus::Completed
                } else {
                    SeasonStatus::Active
                }
                &&& k != chosen->0 ==> result.0.seasons[k] == s.seasons[k]
            }
        }),
{
    let rejection = registration_rejection(s, name, caller, now);
    let plan = registration_plan(s, name, administrator, operator, payment_block, caller);
    law_registered_name_is_active(
        s,
        name,
        administrator,
        operator,
        payment_block,
        caller,
        outcome,
        now,
        now,
    );
    let after = allocation_result(s, rejection, plan, outcome, now).0;
    assert(valid_season(s.seasons[k]));
    if rejection is None {
        lemma_registration_reserves(s, name, administrator, operator, payment_block, caller, now);
        if plan.season_id is Some {
            let i = cheapest_applicable(s.seasons, name_length(name))->0;
            assert(valid_season(s.seasons[i]));
        }
    }
    assert(after.seasons.len() == s.seasons.len());
    assert(valid_season(after.seasons[k]));
}

/// A gift that succeeds takes exactly one slot, of the active season: that
/// season is completed if the slot was its last, and stays active if it
/// was not; every other season is as it was. Whatever a gift comes to, it
/// leaves every season within its capacity.
pub proof fn law_gift_takes_a_slot(
    s: RegistryView,
    name: Seq<char>,
    recipient: Seq<u8>,
    administrator: Seq<u8>,
    operator: Seq<u8>,
    caller: Seq<u8>,
    outcome: Result<Seq<u8>, Seq<char>>,
    now: u64,
    k: int,
)
    requires
        registry_wf(s),
        0 <= k < s.seasons.len(),
    ensures
        ({
            let rejection = gift_rejection(s, name, recipient, caller, now);
            let plan = gift_plan(s, name, recipient, administrator, operator);
            let result = allocation_result(s, rejection, plan, outcome, now);
            let a = active_position(s.seasons);
            &&& registry_wf(result.0)
            &&& result.0.seasons.len() == s.seasons.len()
            &&& result.0.seasons[k].registered_count <= result.0.seasons[k].total_allowed
            &&& result.1 is Ok ==> {
                &&& has_active(s.seasons)
                &&& result.0.seasons[a].registered_count == s.seasons[a].registered_count + 1
                &&& result.0.seasons[a].status == SeasonStatus::Completed
                    <==> result.0.seasons[a].registered_count == s.seasons[a].total_allowed
                &&& result.0.seasons[a].status == SeasonStatus::Completed
                    || result.0.seasons[a].status == SeasonStatus::Active
                &&& k != a ==> result.0.seasons[k] == s.seasons[k]
            }
        }),
{
    let rejection = gift_rejection(s, name, recipient, caller, now);
    let plan = gift_plan(s, name, recipient, administrator, operator);
    assert(valid_season(s.seasons[k]));
    if rejection is None {
        lemma_gift_reserves(s, name, recipient, caller, now);
        let a = active_position(s.seasons);
        assert(valid_season(s.seasons[a]));
        let reserved = reserved_for(s, plan.season_id);
        match outcome {
            Ok(canister_id) => {
                if now + ONE_YEAR <= u64::MAX {
                    lemma_commit_keeps_wf(reserved, plan, canister_id, now);
                } else {
                    lemma_rollback_keeps_wf(reserved, plan);
                }
            },
            Err(_) => {
                lemma_rollback_keeps_wf(reserved, plan);
            },
        }
    }
    let after = allocation_result(s, rejection, plan, outcome, now).0;
    assert(after.seasons.len() == s.seasons.len());
    assert(valid_season(after.seasons[k]));
}

/// Provisioning that fails leaves the registry as it was before the
/// request, but for one thing: an active season that the reservation
/// filled stays completed, with its count back where it was.
pub proof fn law_failed_provisioning_is_undone(s: RegistryView, p: PendingView)
    requires
        registry_wf(s),
        p.season_id is Some ==> reservation_rejection(s.seasons, p.season_id->0) is None,
    ensures
        ({
            let after = rolled_back(reserved_for(s, p.season_id), p);
            &&& after.domains == s.domains
            &&& after.wallets == s.wallets
            &&& after.addresses == s.addresses
            &&& after.policy == s.policy
            &&& after.seasons.len() == s.seasons.len()
            &&& forall|i: int|
                0 <= i < s.seasons.len() ==> (#[trigger] after.seasons[i]) == (SeasonView {
                    status: after.seasons[i].status,
                    ..s.seasons[i]
                })
            &&& (p.season_id is None || slot_reserved(s.seasons[p.season_id->0 - 1]).status
                == s.seasons[p.season_id->0 - 1].status) ==> after == s
        }),
{
    let after = rolled_back(reserved_for(s, p.season_id), p);
    match p.season_id {
        Some(id) => {
            let i = id - 1;
            assert(valid_season(s.seasons[i]));
            if slot_reserved(s.seasons[i]).status == s.seasons[i].status {
                assert(after.seasons =~= s.seasons);
            }
        },
        None => {},
    }
}

} // verus!
