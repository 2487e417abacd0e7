use domain_registry::allowlist::{AddressAllowlist, AllowlistError};
use domain_registry::collections::{KeyMap, KeySet};
use domain_registry::identity::Identity;
use domain_registry::records::{DomainRecord, RegistryStore};
use domain_registry::season::{
    season_stats, CreateSeasonError, CreateSeasonRequest, DeactivateError, SeasonLedger,
    SeasonStatus, SlotError,
};

fn who(n: u8) -> Identity {
    Identity::from_bytes(vec![n]).unwrap()
}

fn tier(min: u64, max: Option<u64>, total: u64, price: u64) -> CreateSeasonRequest {
    CreateSeasonRequest { min_letters: min, max_letters: max, total_allowed: total, price_icp: price }
}

fn record(owner: u8, registered: u64, expires: u64) -> DomainRecord {
    DomainRecord {
        owner: who(owner),
        administrator: who(owner),
        operator: who(owner),
        canister_id: who(0),
        registration_time: registered,
        expiration_time: expires,
        last_payment_block: 0,
        custom_mcp_endpoint: None,
        was_gifted: false,
        registration_season_id: None,
    }
}

#[test]
fn a_key_set_keeps_each_member_once_in_order() {
    let mut set: KeySet<String> = KeySet::new();
    assert_eq!(set.len(), 0);
    set.insert("b".to_string());
    set.insert("a".to_string());
    set.insert("b".to_string());
    assert_eq!(set.len(), 2);
    assert!(set.contains(&"a".to_string()));
    assert!(!set.contains(&"c".to_string()));
    assert_eq!(set.to_vec(), vec!["b".to_string(), "a".to_string()]);
    assert_eq!(set.get(1), "a");
    set.remove(&"c".to_string());
    assert_eq!(set.len(), 2);
    set.remove(&"b".to_string());
    assert_eq!(set.to_vec(), vec!["a".to_string()]);
    set.insert("b".to_string());
    assert_eq!(set.to_vec(), vec!["a".to_string(), "b".to_string()]);
}

#[test]
fn a_key_map_stores_one_value_per_key() {
    let mut map: KeyMap<Identity, String> = KeyMap::new();
    assert_eq!(map.len(), 0);
    assert_eq!(map.get(&who(1)), None);
    map.put(who(1), "one".to_string());
    map.put(who(2), "two".to_string());
    map.put(who(1), "uno".to_string());
    assert_eq!(map.len(), 2);
    assert!(map.contains_key(&who(2)));
    assert!(!map.contains_key(&who(3)));
    assert_eq!(map.get(&who(1)), Some(&"uno".to_string()));
    assert_eq!(map.get(&who(2)), Some(&"two".to_string()));
    assert_eq!(map.entry(0), (&who(1), &"uno".to_string()));
    map.remove(&who(3));
    assert_eq!(map.len(), 2);
    map.remove(&who(1));
    assert_eq!(map.len(), 1);
    assert_eq!(map.get(&who(1)), None);
    assert_eq!(map.entry(0), (&who(2), &"two".to_string()));
}

#[test]
fn the_store_overwrites_and_never_deletes() {
    let mut store = RegistryStore::new();
    assert_eq!(store.len(), 0);
    assert!(store.is_available("a", 0));
    store.put("a".to_string(), record(1, 5, 100));
    store.put("b".to_string(), record(2, 6, 200));
    assert_eq!(store.get("a"), Some(&record(1, 5, 100)));
    assert_eq!(store.get("c"), None);
    assert!(!store.is_available("a", 99));
    assert!(!store.is_available("a", 100));
    assert!(store.is_available("a", 101));
    assert!(store.is_available("c", 0));
    store.put("a".to_string(), record(3, 150, 400));
    assert_eq!(store.len(), 2);
    assert_eq!(store.get("a").unwrap().owner, who(3));
    let names: Vec<String> = store.list(None, 0).into_iter().map(|i| i.name).collect();
    assert_eq!(names, vec!["a".to_string(), "b".to_string()]);
    let since: Vec<String> = store.find_since(6, 0).into_iter().map(|e| e.0).collect();
    assert_eq!(since, vec!["a".to_string()]);
    let found: Vec<String> = store.search("", 250).into_iter().map(|r| r.domain).collect();
    assert_eq!(found, vec!["a".to_string()]);
    assert_eq!(store.all_with_timestamps(0).len(), 2);
}

#[test]
fn the_ledger_numbers_its_seasons_from_one() {
    let mut ledger = SeasonLedger::new();
    assert_eq!(ledger.len(), 0);
    assert!(ledger.get(0).is_none());
    assert!(ledger.get(1).is_none());
    assert!(ledger.latest().is_none());
    assert!(ledger.current().is_none());
    assert!(ledger.by_number(0).is_none());
    assert!(!ledger.has_active_season());
    assert_eq!(ledger.create_season(tier(1, None, 2, 5), who(1), 10), Ok(1));
    assert_eq!(
        ledger.create_season(tier(1, None, 2, 5), who(1), 10),
        Err(CreateSeasonError::ActiveSeasonExists)
    );
    // A fault of the request is named before the active season is.
    assert_eq!(
        ledger.create_season(tier(0, None, 2, 5), who(1), 10),
        Err(CreateSeasonError::InvalidMinLetters)
    );
    assert_eq!(
        ledger.create_season(tier(0, Some(70), 0, 0), who(1), 10),
        Err(CreateSeasonError::InvalidMinLetters)
    );
    assert_eq!(
        ledger.create_season(tier(2, Some(1), 0, 0), who(1), 10),
        Err(CreateSeasonError::InvalidMaxLetters)
    );
    assert_eq!(
        ledger.create_season(tier(2, Some(2), 0, 0), who(1), 10),
        Err(CreateSeasonError::ZeroCapacity)
    );
    assert_eq!(ledger.deactivate(1), Ok(()));
    assert_eq!(ledger.deactivate(2), Err(DeactivateError::NotFound));
    assert_eq!(ledger.create_season(tier(2, Some(2), 1, 6), who(2), 11), Ok(2));
    assert_eq!(ledger.len(), 2);
    assert_eq!(ledger.get(2).unwrap().created_by, who(2));
    assert_eq!(ledger.latest().unwrap().season_id, 2);
    assert_eq!(ledger.by_number(0).unwrap().season_id, 2);
    assert_eq!(ledger.by_number(1).unwrap().season_id, 1);
    assert_eq!(ledger.current().unwrap().season_id, 2);
    assert_eq!(ledger.at(0).season_id, 1);
    assert_eq!(ledger.all().len(), 2);
    assert_eq!(ledger.active().len(), 1);
    assert_eq!(ledger.active()[0].season_id, 2);
    assert_eq!(ledger.all_stats()[1], season_stats(ledger.get(2).unwrap()));
    assert_eq!(ledger.find_applicable(2).unwrap().season_id, 2);
    assert!(ledger.find_applicable(1).is_none());
    assert!(ledger.find_applicable(3).is_none());
}

#[test]
fn slots_are_reserved_and_released() {
    let mut ledger = SeasonLedger::new();
    ledger.create_season(tier(1, None, 2, 5), who(1), 10).unwrap();
    assert_eq!(ledger.reserve_slot(0), Err(SlotError::NotFound));
    assert_eq!(ledger.reserve_slot(2), Err(SlotError::NotFound));
    assert_eq!(ledger.reserve_slot(1), Ok(()));
    assert_eq!(ledger.get(1).unwrap().registered_count, 1);
    assert_eq!(ledger.get(1).unwrap().status, SeasonStatus::Active);
    assert_eq!(ledger.reserve_slot(1), Ok(()));
    assert_eq!(ledger.get(1).unwrap().registered_count, 2);
    assert_eq!(ledger.get(1).unwrap().status, SeasonStatus::Completed);
    assert_eq!(ledger.reserve_slot(1), Err(SlotError::Full));
    assert_eq!(ledger.get(1).unwrap().registered_count, 2);

    ledger.release_slot(1);
    assert_eq!(ledger.get(1).unwrap().registered_count, 1);
    assert_eq!(ledger.get(1).unwrap().status, SeasonStatus::Completed);
    ledger.release_slot(1);
    ledger.release_slot(1);
    assert_eq!(ledger.get(1).unwrap().registered_count, 0);
    ledger.release_slot(7);
    assert_eq!(ledger.len(), 1);
    // A completed season with room again gives slots, and stays completed.
    assert_eq!(ledger.reserve_slot(1), Ok(()));
    assert_eq!(ledger.get(1).unwrap().status, SeasonStatus::Completed);
    assert!(ledger.find_applicable(3).is_none());
}

#[test]
fn a_deactivated_season_keeps_its_status_when_it_fills() {
    let mut ledger = SeasonLedger::new();
    ledger.create_season(tier(1, None, 1, 5), who(1), 10).unwrap();
    ledger.deactivate(1).unwrap();
    assert_eq!(ledger.reserve_slot(1), Ok(()));
    assert_eq!(ledger.get(1).unwrap().registered_count, 1);
    assert_eq!(ledger.get(1).unwrap().status, SeasonStatus::Deactivated);
}

#[test]
fn addresses_are_listed_per_season() {
    let mut ledger = SeasonLedger::new();
    let mut lists = AddressAllowlist::new();
    assert_eq!(lists.len(), 0);
    assert_eq!(lists.add(&ledger, 1, "x".to_string()), Err(AllowlistError::SeasonNotFound));
    ledger.create_season(tier(1, None, 1, 5), who(1), 10).unwrap();
    lists.open_season();
    assert_eq!(lists.add(&ledger, 1, "x".to_string()), Ok(()));
    assert_eq!(lists.add(&ledger, 1, "y".to_string()), Ok(()));
    assert_eq!(lists.add(&ledger, 1, "x".to_string()), Ok(()));
    assert_eq!(lists.add(&ledger, 0, "x".to_string()), Err(AllowlistError::SeasonNotFound));
    assert_eq!(lists.for_season(1), vec!["x".to_string(), "y".to_string()]);
    assert!(lists.contains(1, "y"));
    assert!(!lists.contains(1, "z"));
    assert!(!lists.contains(2, "x"));
    ledger.deactivate(1).unwrap();
    assert_eq!(lists.add(&ledger, 1, "z".to_string()), Err(AllowlistError::SeasonNotActive));
    assert!(lists.contains(1, "x"));
    ledger.create_season(tier(1, None, 1, 5), who(1), 10).unwrap();
    lists.open_season();
    assert_eq!(lists.add(&ledger, 2, "z".to_string()), Ok(()));
    assert_eq!(lists.for_season(2), vec!["z".to_string()]);
    assert_eq!(lists.for_season(1).len(), 2);
    assert!(lists.for_season(3).is_empty());
}
