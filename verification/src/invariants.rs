//! Every operation of the model keeps the registry well-formed.

use crate::allowlist::lemma_with_address_keeps_wf;
use crate::collections::{
    distinct_keys,
    every_entry,
    has_key,
    lemma_key_at,
    lemma_upsert,
    lemma_without_key,
    lemma_without_key_every_entry,
    lookup,
    upsert,
    without_key,
};
use crate::model::{
    after_address_listing,
    after_deactivation,
    after_season_creation,
    after_transfer,
    committed,
    holds,
    initial_registry,
    record_of,
    registry_wf,
    reserved_for,
    rolled_back,
    season_creation_rejection,
    without_holder_of,
    PendingView,
    RegistryView,
};
use crate::policy::{lemma_initial_policy_is_wf, policy_wf, PolicyView};
use crate::records::DomainRecordView;
use crate::season::{
    lemma_create_keeps_wf,
    lemma_deactivate_keeps_wf,
    lemma_release_keeps_wf,
    lemma_reserve_keeps_wf,
    reservation_rejection,
    CreateSeasonRequest,
};
use vstd::prelude::*;

verus! {

/// The entries of an index that agree with the records `domains`.
pub open spec fn agrees_with(domains: Seq<(Seq<char>, DomainRecordView)>) -> spec_fn(
    (Seq<u8>, Seq<char>),
) -> bool {
    |entry: (Seq<u8>, Seq<char>)| holds(domains, entry)
}

/// In a well-formed registry only the owner of a record can hold its name,
/// and where it does, it is found as the holder.
pub proof fn lemma_holder_is_owner(s: RegistryView, i: int)
    requires
        registry_wf(s),
        0 <= i < s.wallets.len(),
    ensures
        lookup(s.domains, s.wallets[i].1) is Some,
        lookup(s.domains, s.wallets[i].1)->0.owner == s.wallets[i].0,
        lookup(s.wallets, s.wallets[i].0) == Some(s.wallets[i].1),
{
    assert(holds(s.domains, s.wallets[i]));
    lemma_key_at(s.wallets, i);
}

/// Once the record under `name` gives way, nobody holds `name`, and what
/// is left of the index agrees with the records as before.
pub proof fn lemma_without_holder(s: RegistryView, name: Seq<char>)
    requires
        registry_wf(s),
    ensures
        distinct_keys(without_holder_of(s, name)),
        every_entry(without_holder_of(s, name), agrees_with(s.domains)),
        forall|i: int|
            0 <= i < without_holder_of(s, name).len() ==> (#[trigger] without_holder_of(
                s,
                name,
            )[i]).1 != name,
{
    let left = without_holder_of(s, name);
    let p = agrees_with(s.domains);
    assert(every_entry(s.wallets, p)) by {
        assert forall|i: int| 0 <= i < s.wallets.len() implies p(#[trigger] s.wallets[i]) by {
            assert(holds(s.domains, s.wallets[i]));
        }
    }
    match lookup(s.domains, name) {
        Some(previous) => {
            if lookup(s.wallets, previous.owner) == Some(name) {
                lemma_without_key(s.wallets, previous.owner);
                lemma_without_key_every_entry(s.wallets, previous.owner, p);
                assert forall|i: int| 0 <= i < left.len() implies (#[trigger] left[i]).1
                    != name by {
                    assert(p(left[i]));
                }
            } else {
                assert forall|i: int| 0 <= i < left.len() implies (#[trigger] left[i]).1
                    != name by {
                    if left[i].1 == name {
                        lemma_holder_is_owner(s, i);
                    }
                }
            }
        },
        None => {
            assert forall|i: int| 0 <= i < left.len() implies (#[trigger] left[i]).1 != name by {
                assert(p(left[i]));
            }
        },
    }
}

/// Storing a record under a name keeps the registry well-formed as long as
/// the index of holders has distinct keys, names no holder of that name but
/// the owner of the record, and otherwise agrees with the records as they
/// were.
proof fn lemma_store_keeps_wf(
    s: RegistryView,
    name: Seq<char>,
    record: DomainRecordView,
    wallets: Seq<(Seq<u8>, Seq<char>)>,
)
    requires
        registry_wf(s),
        distinct_keys(wallets),
        forall|i: int|
            0 <= i < wallets.len() ==> if (#[trigger] wallets[i]).1 == name {
                wallets[i].0 == record.owner
            } else {
                holds(s.domains, wallets[i])
            },
    ensures
        registry_wf(RegistryView { domains: upsert(s.domains, name, record), wallets, ..s }),
{
    lemma_upsert(s.domains, name, record);
    let after = RegistryView { domains: upsert(s.domains, name, record), wallets, ..s };
    assert forall|i: int| 0 <= i < after.wallets.len() implies holds(
        after.domains,
        #[trigger] after.wallets[i],
    ) by {
        let entry = wallets[i];
        if entry.1 != name {
            assert(holds(s.domains, entry));
            assert(lookup(after.domains, entry.1) == lookup(s.domains, entry.1));
        }
    }
}

/// A fresh registry is well-formed.
pub proof fn lemma_initial_registry_is_wf(admin: Seq<u8>)
    ensures
        registry_wf(initial_registry(admin)),
{
    lemma_initial_policy_is_wf(admin);
}

/// Reserving a slot keeps the registry well-formed.
pub proof fn lemma_reservation_keeps_wf(s: RegistryView, season_id: u64)
    requires
        registry_wf(s),
        reservation_rejection(s.seasons, season_id) is None,
    ensures
        registry_wf(reserved_for(s, Some(season_id))),
{
    lemma_reserve_keeps_wf(s.seasons, season_id);
}

/// Committing an allocation keeps the registry well-formed: the record
/// that gives way takes its holder's entry with it, so that every holder
/// is still the owner of the name it holds.
pub proof fn lemma_commit_keeps_wf(s: RegistryView, p: PendingView, canister_id: Seq<u8>, now: u64)
    requires
        registry_wf(s),
    ensures
        registry_wf(committed(s, p, canister_id, now)),
{
    let left = without_holder_of(s, p.domain_name);
    lemma_without_holder(s, p.domain_name);
    let wallets = upsert(left, p.owner, p.domain_name);
    lemma_upsert(left, p.owner, p.domain_name);
    let record = record_of(p, canister_id, now);
    assert forall|i: int| 0 <= i < wallets.len() implies if (#[trigger] wallets[i]).1
        == p.domain_name {
        wallets[i].0 == record.owner
    } else {
        holds(s.domains, wallets[i])
    } by {
        if wallets[i] != (p.owner, p.domain_name) {
            assert(wallets[i] == left[i]);
            assert(agrees_with(s.domains)(left[i]));
        }
    }
    lemma_store_keeps_wf(s, p.domain_name, record, wallets);
}

/// Giving up an allocation keeps the registry well-formed.
pub proof fn lemma_rollback_keeps_wf(s: RegistryView, p: PendingView)
    requires
        registry_wf(s),
    ensures
        registry_wf(rolled_back(s, p)),
{
    match p.season_id {
        Some(id) => {
            lemma_release_keeps_wf(s.seasons, id);
        },
        None => {},
    }
}

/// Replacing the record of a name by one of the same owner keeps the
/// registry well-formed.
pub proof fn lemma_replacement_keeps_wf(s: RegistryView, name: Seq<char>, record: DomainRecordView)
    requires
        registry_wf(s),
        lookup(s.domains, name) is Some,
        lookup(s.domains, name)->0.owner == record.owner,
    ensures
        registry_wf(RegistryView { domains: upsert(s.domains, name, record), ..s }),
{
    assert forall|i: int| 0 <= i < s.wallets.len() implies if (#[trigger] s.wallets[i]).1 == name {
        s.wallets[i].0 == record.owner
    } else {
        holds(s.domains, s.wallets[i])
    } by {
        assert(holds(s.domains, s.wallets[i]));
    }
    lemma_store_keeps_wf(s, name, record, s.wallets);
}

/// A transfer keeps the registry well-formed.
pub proof fn lemma_transfer_keeps_wf(s: RegistryView, name: Seq<char>, new_owner: Seq<u8>)
    requires
        registry_wf(s),
        has_key(s.domains, name),
    ensures
        registry_wf(after_transfer(s, name, new_owner)),
{
    let record = lookup(s.domains, name)->0;
    let p = agrees_with(s.domains);
    assert(every_entry(s.wallets, p)) by {
        assert forall|i: int| 0 <= i < s.wallets.len() implies p(#[trigger] s.wallets[i]) by {
            assert(holds(s.domains, s.wallets[i]));
        }
    }
    let removed = without_key(s.wallets, record.owner);
    lemma_without_key(s.wallets, record.owner);
    lemma_without_key_every_entry(s.wallets, record.owner, p);
    lemma_upsert(removed, new_owner, name);
    let wallets = upsert(removed, new_owner, name);
    assert forall|i: int| 0 <= i < wallets.len() implies if (#[trigger] wallets[i]).1 == name {
        wallets[i].0 == new_owner
    } else {
        holds(s.domains, wallets[i])
    } by {
        if wallets[i] != (new_owner, name) {
            assert(wallets[i] == removed[i]);
            assert(p(removed[i]));
        }
    }
    lemma_store_keeps_wf(s, name, DomainRecordView { owner: new_owner, ..record }, wallets);
}

/// Creating a season keeps the registry well-formed.
pub proof fn lemma_season_creation_keeps_wf(
    s: RegistryView,
    request: CreateSeasonRequest,
    caller: Seq<u8>,
    now: u64,
)
    requires
        registry_wf(s),
        season_creation_rejection(s, request, caller) is None,
    ensures
        registry_wf(after_season_creation(s, request, caller, now)),
{
    lemma_create_keeps_wf(s.seasons, request, caller, now);
    let after = after_season_creation(s, request, caller, now);
    assert forall|i: int| 0 <= i < after.addresses.len() implies (
    #[trigger] after.addresses[i]).no_duplicates() by {
        if i < s.addresses.len() {
            assert(after.addresses[i] == s.addresses[i]);
        }
    }
}

/// Deactivating a season keeps the registry well-formed.
pub proof fn lemma_deactivation_keeps_wf(s: RegistryView, season_id: u64)
    requires
        registry_wf(s),
    ensures
        registry_wf(after_deactivation(s, season_id)),
{
    lemma_deactivate_keeps_wf(s.seasons, season_id);
}

/// Listing an address keeps the registry well-formed.
pub proof fn lemma_address_listing_keeps_wf(s: RegistryView, season_id: u64, address: Seq<char>)
    requires
        registry_wf(s),
    ensures
        registry_wf(after_address_listing(s, season_id, address)),
{
    lemma_with_address_keeps_wf(s.addresses, season_id, address);
}

/// A change of policy that is itself well-formed keeps the registry
/// well-formed.
pub proof fn lemma_policy_change_keeps_wf(s: RegistryView, policy: PolicyView)
    requires
        registry_wf(s),
        policy_wf(policy),
    ensures
        registry_wf(RegistryView { policy, ..s }),
{
}

} // verus!
