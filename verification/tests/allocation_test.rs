use domain_registry::identity::Identity;
use domain_registry::messages::{
    address_creation_message, admin_error_message, admin_operation_error_message,
    allocation_error_message, AdminOperation,
    allowlist_error_message, create_season_error_message, deactivate_error_message,
    endpoint_error_message, gift_message, registration_message, renew_error_message,
    renewal_message, slot_error_message, transfer_error_message,
};
use domain_registry::allowlist::AllowlistError;
use domain_registry::model::{AllocationKind, EndpointError, RenewError};
use domain_registry::policy::{AdminError, RegistrationMode};
use domain_registry::records::{
    AdminGiftRequest, DomainInfo, DomainStatus, RegistrationRequest, SearchResult, ONE_YEAR,
};
use domain_registry::registry::{AllocationError, Registry, TransferError};
use domain_registry::season::{
    CreateSeasonError, CreateSeasonRequest, DeactivateError, SeasonStatus, SlotError,
};

const T0: u64 = 1_000;

fn who(n: u8) -> Identity {
    Identity::from_bytes(vec![n; 4]).unwrap()
}

fn root() -> Identity {
    who(1)
}

fn handle(n: u8) -> Identity {
    Identity::from_bytes(vec![0xca, n]).unwrap()
}

fn ask(name: &str, caller: &Identity) -> RegistrationRequest {
    RegistrationRequest {
        domain_name: name.to_string(),
        administrator: caller.clone(),
        operator: caller.clone(),
        payment_block: 42,
    }
}

fn give(name: &str, recipient: &Identity) -> AdminGiftRequest {
    AdminGiftRequest {
        domain_name: name.to_string(),
        recipient: recipient.clone(),
        administrator: recipient.clone(),
        operator: recipient.clone(),
    }
}

/// A registry with one active season for names of any length.
fn open_registry(capacity: u64, price: u64) -> Registry {
    let mut registry = Registry::init(root());
    registry.set_short_name_mode(RegistrationMode::Open, &root()).unwrap();
    let request = CreateSeasonRequest {
        min_letters: 1,
        max_letters: None,
        total_allowed: capacity,
        price_icp: price,
    };
    assert_eq!(registry.create_registration_season(request, &root(), T0), Ok(1));
    registry
}

#[test]
fn a_registered_name_is_active_for_one_year() {
    let mut registry = open_registry(10, 3);
    let user = who(2);
    let req = RegistrationRequest {
        domain_name: "example".to_string(),
        administrator: who(3),
        operator: who(4),
        payment_block: 42,
    };
    let receipt = registry.register_domain(req, &user, T0, Ok(handle(1))).unwrap();
    assert_eq!(receipt.owner, user);
    assert_eq!(receipt.canister_id, handle(1));
    assert_eq!(receipt.fee, 300_000_000);
    assert_eq!(receipt.recipient_address, None);

    let expected = DomainInfo {
        name: "example".to_string(),
        owner: user.clone(),
        administrator: who(3),
        operator: who(4),
        canister_id: handle(1),
        expiration_time: T0 + 31_536_000_000_000_000,
        mcp_endpoint: "https://mcp.ctx.xyz/example".to_string(),
        status: DomainStatus::Active,
        was_gifted: false,
    };
    assert_eq!(registry.get_domain_info("example", T0), Some(expected));
    assert_eq!(ONE_YEAR, 365 * 24 * 60 * 60 * 1_000_000_000);
    // Active strictly before the expiration, expired from then on.
    let last = T0 + ONE_YEAR - 1;
    assert_eq!(registry.get_domain_info("example", last).unwrap().status, DomainStatus::Active);
    assert_eq!(
        registry.get_domain_info("example", T0 + ONE_YEAR).unwrap().status,
        DomainStatus::Expired
    );
    assert_eq!(registry.get_domain_info("Example", T0), None);
    let all = registry.get_all_domains_with_timestamps(T0);
    assert_eq!(all.len(), 1);
    assert_eq!(all[0].0, "example");
    assert_eq!(all[0].1, T0);
}

#[test]
fn every_refusal_of_a_registration_has_its_reason() {
    let mut registry = Registry::init(root());
    let user = who(2);
    let ok = || Ok(handle(1));
    assert_eq!(
        registry.register_domain(ask("bad name", &user), &user, T0, ok()),
        Err(AllocationError::InvalidFormat)
    );
    assert_eq!(
        registry.register_domain(ask("registry", &user), &user, T0, ok()),
        Err(AllocationError::Reserved)
    );
    // A reserved short name is refused as reserved: that check comes first.
    assert_eq!(
        registry.register_domain(ask("icp", &user), &user, T0, ok()),
        Err(AllocationError::Reserved)
    );
    assert_eq!(
        registry.register_domain(ask("abcd", &user), &user, T0, ok()),
        Err(AllocationError::ShortNameDenied)
    );
    assert_eq!(
        registry.register_domain(ask("abcde", &user), &user, T0, ok()),
        Err(AllocationError::NoSeason)
    );
    // Not even an administrator registers a reserved name.
    assert_eq!(
        registry.register_domain(ask("admin", &root()), &root(), T0, ok()),
        Err(AllocationError::Reserved)
    );
    let season = CreateSeasonRequest {
        min_letters: 5,
        max_letters: Some(5),
        total_allowed: 5,
        price_icp: 1,
    };
    registry.create_registration_season(season, &root(), T0).unwrap();
    registry.register_domain(ask("abcde", &user), &user, T0, ok()).unwrap();
    let other = who(3);
    assert_eq!(
        registry.register_domain(ask("abcde", &other), &other, T0 + 5, ok()),
        Err(AllocationError::NameUnavailable)
    );
    assert_eq!(
        registry.register_domain(ask("abcdef", &other), &other, T0, ok()),
        Err(AllocationError::NoSeason)
    );
    // The holder of a name is told so before the name asked for is looked at.
    assert_eq!(
        registry.register_domain(ask("abcde", &user), &user, T0, ok()),
        Err(AllocationError::WalletAlreadyOwns("abcde".to_string()))
    );
    assert_eq!(
        registry.register_domain(ask("fghij", &other), &other, T0, Err("out of cycles".to_string())),
        Err(AllocationError::ProvisioningFailed("out of cycles".to_string()))
    );
    assert_eq!(registry.get_season_stats(1).unwrap().names_taken, 1);
    assert_eq!(registry.get_wallet_domain(&other), None);
}

#[test]
fn a_failed_provisioning_gives_the_slot_back() {
    let mut registry = open_registry(3, 2);
    let user = who(2);
    let before = registry.get_all_seasons();

    let pending = registry.begin_registration(ask("example", &user), &user, T0).unwrap();
    assert_eq!(pending.kind(), AllocationKind::Registration);
    assert_eq!(pending.domain_name(), "example");
    assert_eq!(pending.owner(), &user);
    assert_eq!(pending.administrator(), &user);
    assert_eq!(pending.operator(), &user);
    assert_eq!(pending.season_id(), Some(1));
    assert_eq!(pending.fee(), 200_000_000);
    // The slot is taken while the resource is being provisioned.
    assert_eq!(registry.get_season_stats(1).unwrap().names_taken, 1);
    assert!(registry.get_domain_info("example", T0).is_none());

    let failed = registry.complete_allocation(pending, Err("no cycles".to_string()), T0 + 1);
    assert_eq!(failed, Err(AllocationError::ProvisioningFailed("no cycles".to_string())));
    assert_eq!(registry.get_all_seasons(), before);
    assert!(registry.get_domain_info("example", T0).is_none());
    assert_eq!(registry.get_wallet_domain(&user), None);
    assert!(registry.list_domains(None, T0).is_empty());
}

#[test]
fn a_season_filled_by_a_reservation_stays_completed() {
    let mut registry = open_registry(1, 2);
    let user = who(2);
    let pending = registry.begin_registration(ask("example", &user), &user, T0).unwrap();
    let reserved = registry.get_registration_season(1).unwrap();
    assert_eq!(reserved.registered_count, 1);
    assert_eq!(reserved.status, SeasonStatus::Completed);
    // Nobody else gets the slot meanwhile.
    let other = who(3);
    assert_eq!(
        registry.begin_registration(ask("another", &other), &other, T0).unwrap_err(),
        AllocationError::NoSeason
    );
    registry.complete_allocation(pending, Err("failed".to_string()), T0).unwrap_err();
    let after = registry.get_registration_season(1).unwrap();
    assert_eq!(after.registered_count, 0);
    assert_eq!(after.status, SeasonStatus::Completed);
    // With the season completed, the next one can be created.
    let next = CreateSeasonRequest { min_letters: 1, max_letters: None, total_allowed: 1, price_icp: 1 };
    assert_eq!(registry.create_registration_season(next, &root(), T0), Ok(2));
}

#[test]
fn the_two_steps_commit_at_their_own_times() {
    let mut registry = open_registry(3, 2);
    let user = who(2);
    let pending = registry.begin_registration(ask("example", &user), &user, T0).unwrap();
    let receipt = registry.complete_allocation(pending, Ok(handle(9)), T0 + 50).unwrap();
    assert_eq!(receipt.domain_name, "example");
    assert_eq!(receipt.canister_id, handle(9));
    assert_eq!(receipt.season_id, Some(1));
    let info = registry.get_domain_info("example", T0 + 50).unwrap();
    assert_eq!(info.expiration_time, T0 + 50 + ONE_YEAR);
    assert_eq!(registry.get_all_domains_with_timestamps(T0)[0].1, T0 + 50);
    assert_eq!(registry.get_season_stats(1).unwrap().names_taken, 1);
    assert_eq!(registry.get_registration_season(1).unwrap().status, SeasonStatus::Active);
}

#[test]
fn an_expired_name_can_be_registered_again() {
    let mut registry = open_registry(5, 1);
    let (first, second) = (who(2), who(3));
    registry.register_domain(ask("example", &first), &first, T0, Ok(handle(1))).unwrap();
    let expiry = T0 + ONE_YEAR;
    assert!(!registry.can_register_domain("example", &second, expiry - 1));
    // At the very time of expiration the name is expired, but not yet free.
    assert!(!registry.can_register_domain("example", &second, expiry));
    assert_eq!(
        registry.register_domain(ask("example", &second), &second, expiry, Ok(handle(2))),
        Err(AllocationError::NameUnavailable)
    );
    assert!(registry.can_register_domain("example", &second, expiry + 1));
    registry.register_domain(ask("example", &second), &second, expiry + 1, Ok(handle(2))).unwrap();
    let info = registry.get_domain_info("example", expiry + 1).unwrap();
    assert_eq!(info.owner, second);
    assert_eq!(info.canister_id, handle(2));
    assert_eq!(info.expiration_time, expiry + 1 + ONE_YEAR);
    // The record was overwritten, not added.
    assert_eq!(registry.list_domains(None, expiry + 1).len(), 1);
    assert_eq!(registry.get_season_stats(1).unwrap().names_taken, 2);
}

#[test]
fn gifts_are_free_and_take_a_slot() {
    let mut registry = open_registry(3, 7);
    let (recipient, other) = (who(2), who(3));
    assert_eq!(
        registry.admin_gift_domain(give("ab", &recipient), &recipient, T0, Ok(handle(1))),
        Err(AllocationError::NotAdmin)
    );
    assert_eq!(
        registry.admin_gift_domain(give("-ab", &recipient), &root(), T0, Ok(handle(1))),
        Err(AllocationError::InvalidFormat)
    );
    assert_eq!(
        registry.admin_gift_domain(give("www", &recipient), &root(), T0, Ok(handle(1))),
        Err(AllocationError::Reserved)
    );
    let receipt = registry.admin_gift_domain(give("ab", &recipient), &root(), T0, Ok(handle(1))).unwrap();
    assert_eq!(receipt.fee, 0);
    assert_eq!(receipt.owner, recipient);
    assert_eq!(receipt.season_id, Some(1));
    assert!(receipt.was_gifted);
    assert_eq!(registry.get_season_stats(1).unwrap().names_taken, 1);
    assert!(registry.get_domain_info("ab", T0).unwrap().was_gifted);
    assert_eq!(registry.get_wallet_domain(&recipient), Some("ab".to_string()));

    assert_eq!(
        registry.admin_gift_domain(give("ab", &other), &root(), T0, Ok(handle(1))),
        Err(AllocationError::NameUnavailable)
    );
    assert_eq!(
        registry.admin_gift_domain(give("cd", &recipient), &root(), T0, Ok(handle(1))),
        Err(AllocationError::RecipientAlreadyOwns("ab".to_string()))
    );
    assert_eq!(
        registry.admin_gift_domain(give("cd", &other), &root(), T0, Err("down".to_string())),
        Err(AllocationError::ProvisioningFailed("down".to_string()))
    );
    assert_eq!(registry.get_season_stats(1).unwrap().names_taken, 1);
    assert_eq!(registry.get_registration_season(1).unwrap().status, SeasonStatus::Active);
    assert_eq!(registry.get_wallet_domain(&other), None);
}

#[test]
fn a_gift_to_an_admin_who_holds_a_name_is_refused_too() {
    let mut registry = open_registry(5, 7);
    registry.register_domain(ask("mine", &root()), &root(), T0, Ok(handle(1))).unwrap();
    assert_eq!(
        registry.admin_gift_domain(give("more", &root()), &root(), T0, Ok(handle(1))),
        Err(AllocationError::RecipientAlreadyOwns("mine".to_string()))
    );
}

#[test]
fn a_renewal_extends_from_the_current_expiration() {
    let mut registry = open_registry(5, 1);
    let (owner, manager, stranger) = (who(2), who(3), who(4));
    let req = RegistrationRequest {
        domain_name: "example".to_string(),
        administrator: manager.clone(),
        operator: owner.clone(),
        payment_block: 42,
    };
    registry.register_domain(req, &owner, T0, Ok(handle(1))).unwrap();
    assert_eq!(registry.renew_domain("nothing", 1, &owner), Err(RenewError::NotFound));
    assert_eq!(registry.renew_domain("example", 1, &stranger), Err(RenewError::Unauthorized));
    // An administrator of the registry has no say over the name of another.
    assert_eq!(registry.renew_domain("example", 1, &root()), Err(RenewError::Unauthorized));
    assert_eq!(registry.renew_domain("example", 43, &owner), Ok(100_000_000));
    assert_eq!(
        registry.get_domain_info("example", T0).unwrap().expiration_time,
        T0 + 2 * ONE_YEAR
    );
    registry.set_base_fee(150_000_000, &root()).unwrap();
    assert_eq!(registry.renew_domain("example", 44, &manager), Ok(150_000_000));
    assert_eq!(
        registry.get_domain_info("example", T0).unwrap().expiration_time,
        T0 + 3 * ONE_YEAR
    );
    // The time of registration stays.
    assert_eq!(registry.get_all_domains_with_timestamps(T0)[0].1, T0);
}

#[test]
fn a_renewal_long_after_expiry_can_leave_the_name_expired() {
    let mut registry = open_registry(5, 1);
    let owner = who(2);
    registry.register_domain(ask("example", &owner), &owner, T0, Ok(handle(1))).unwrap();
    let late = T0 + 3 * ONE_YEAR;
    assert_eq!(registry.renew_domain("example", 1, &owner), Ok(100_000_000));
    let info = registry.get_domain_info("example", late).unwrap();
    assert_eq!(info.expiration_time, T0 + 2 * ONE_YEAR);
    assert_eq!(info.status, DomainStatus::Expired);
}

#[test]
fn an_admin_renews_its_own_name_for_free() {
    let mut registry = Registry::init(root());
    registry.register_domain(ask("example", &root()), &root(), T0, Ok(handle(1))).unwrap();
    assert_eq!(registry.renew_domain("example", 1, &root()), Ok(0));
}

#[test]
fn a_renewal_beyond_the_largest_time_is_refused() {
    let mut registry = Registry::init(root());
    let start = u64::MAX - ONE_YEAR - ONE_YEAR / 2;
    registry.register_domain(ask("example", &root()), &root(), start, Ok(handle(1))).unwrap();
    assert_eq!(registry.renew_domain("example", 1, &root()), Err(RenewError::ExpirationOverflow));
    assert_eq!(
        registry.get_domain_info("example", start).unwrap().expiration_time,
        start + ONE_YEAR
    );
    let mut edge = Registry::init(root());
    let start = u64::MAX - 2 * ONE_YEAR;
    edge.register_domain(ask("example", &root()), &root(), start, Ok(handle(1))).unwrap();
    assert_eq!(edge.renew_domain("example", 1, &root()), Ok(0));
    assert_eq!(edge.get_domain_info("example", start).unwrap().expiration_time, u64::MAX);
}

#[test]
fn an_endpoint_is_https_and_short() {
    let mut registry = open_registry(5, 1);
    let (owner, stranger) = (who(2), who(3));
    registry.register_domain(ask("example", &owner), &owner, T0, Ok(handle(1))).unwrap();
    assert_eq!(
        registry.get_mcp_endpoint("example"),
        Some("https://mcp.ctx.xyz/example".to_string())
    );
    assert_eq!(registry.get_mcp_endpoint("nothing"), None);
    let good = "https://example.org/mcp".to_string();
    assert_eq!(
        registry.set_custom_mcp_endpoint("nothing", Some(good.clone()), &owner),
        Err(EndpointError::NotFound)
    );
    assert_eq!(
        registry.set_custom_mcp_endpoint("example", Some(good.clone()), &stranger),
        Err(EndpointError::Unauthorized)
    );
    assert_eq!(
        registry.set_custom_mcp_endpoint("example", Some("http://example.org".to_string()), &owner),
        Err(EndpointError::InvalidEndpoint)
    );
    let longest = format!("https://{}", "a".repeat(192));
    let too_long = format!("https://{}", "a".repeat(193));
    assert_eq!(
        registry.set_custom_mcp_endpoint("example", Some(too_long), &owner),
        Err(EndpointError::InvalidEndpoint)
    );
    assert_eq!(
        registry.get_mcp_endpoint("example"),
        Some("https://mcp.ctx.xyz/example".to_string())
    );
    assert_eq!(registry.set_custom_mcp_endpoint("example", Some(longest.clone()), &owner), Ok(()));
    assert_eq!(registry.get_mcp_endpoint("example"), Some(longest));
    assert_eq!(registry.set_custom_mcp_endpoint("example", Some(good.clone()), &owner), Ok(()));
    assert_eq!(registry.get_domain_info("example", T0).unwrap().mcp_endpoint, good);
    assert_eq!(registry.discover_domains("", T0)[0].mcp_endpoint, good);
    assert_eq!(registry.set_custom_mcp_endpoint("example", None, &owner), Ok(()));
    assert_eq!(
        registry.get_mcp_endpoint("example"),
        Some("https://mcp.ctx.xyz/example".to_string())
    );
}

#[test]
fn a_search_finds_the_names_in_force() {
    let mut registry = open_registry(5, 1);
    let (a, b) = (who(2), who(3));
    registry.register_domain(ask("Alpha", &a), &a, T0, Ok(handle(1))).unwrap();
    registry.register_domain(ask("beta", &b), &b, T0 + 10, Ok(handle(2))).unwrap();
    registry.register_domain(ask("alphabet", &root()), &root(), T0 + 20, Ok(handle(3))).unwrap();

    let all = registry.discover_domains("", T0 + 20);
    assert_eq!(all.len(), 3);
    assert_eq!(
        all[0],
        SearchResult {
            domain: "Alpha".to_string(),
            description: "Domain Alpha - Registered".to_string(),
            mcp_endpoint: "https://mcp.ctx.xyz/Alpha".to_string(),
            tools_count: 0,
            resources_count: 0,
            was_gifted: false,
        }
    );
    assert_eq!(all[2].description, "Domain alphabet - Admin Gift");
    assert!(all[2].was_gifted);

    let found: Vec<String> =
        registry.discover_domains("ALPHA", T0 + 20).into_iter().map(|r| r.domain).collect();
    assert_eq!(found, vec!["Alpha".to_string(), "alphabet".to_string()]);
    let found: Vec<String> =
        registry.discover_domains("bet", T0 + 20).into_iter().map(|r| r.domain).collect();
    assert_eq!(found, vec!["beta".to_string(), "alphabet".to_string()]);
    assert!(registry.discover_domains("gamma", T0 + 20).is_empty());
    // A name that is no longer in force is not found.
    let found: Vec<String> =
        registry.discover_domains("", T0 + ONE_YEAR).into_iter().map(|r| r.domain).collect();
    assert_eq!(found, vec!["beta".to_string(), "alphabet".to_string()]);
    assert!(registry.discover_domains("", T0 + 20 + ONE_YEAR).is_empty());
}

#[test]
fn listings_follow_the_order_of_registration() {
    let mut registry = open_registry(5, 1);
    let (a, b) = (who(2), who(3));
    registry.register_domain(ask("first", &a), &a, T0, Ok(handle(1))).unwrap();
    registry.register_domain(ask("second", &b), &b, T0 + 10, Ok(handle(2))).unwrap();
    registry.register_domain(ask("third", &root()), &root(), T0 + 20, Ok(handle(3))).unwrap();
    registry.register_domain(ask("fourth", &root()), &root(), T0 + 30, Ok(handle(4))).unwrap();

    let names = |infos: Vec<DomainInfo>| infos.into_iter().map(|i| i.name).collect::<Vec<_>>();
    assert_eq!(names(registry.list_domains(None, T0)), vec!["first", "second", "third", "fourth"]);
    assert_eq!(names(registry.list_domains(Some(&root()), T0)), vec!["third", "fourth"]);
    assert_eq!(names(registry.list_domains(Some(&b), T0)), vec!["second"]);
    assert!(registry.list_domains(Some(&who(9)), T0).is_empty());
    let statuses: Vec<DomainStatus> =
        registry.list_domains(None, T0 + ONE_YEAR + 10).into_iter().map(|i| i.status).collect();
    assert_eq!(
        statuses,
        vec![DomainStatus::Expired, DomainStatus::Expired, DomainStatus::Active, DomainStatus::Active]
    );

    // Strictly after the timestamp.
    let since: Vec<String> =
        registry.get_domains_since_timestamp(T0 + 10, T0).into_iter().map(|e| e.0).collect();
    assert_eq!(since, vec!["third".to_string(), "fourth".to_string()]);
    let since = registry.get_domains_since_timestamp(T0 + 29, T0);
    assert_eq!(since.len(), 1);
    assert_eq!(since[0].1.name, "fourth");
    assert_eq!(since[0].1.canister_id, handle(4));
    assert!(registry.get_domains_since_timestamp(T0 + 30, T0).is_empty());
    let stamps: Vec<u64> =
        registry.get_all_domains_with_timestamps(T0).into_iter().map(|e| e.1).collect();
    assert_eq!(stamps, vec![T0, T0 + 10, T0 + 20, T0 + 30]);
}

#[test]
fn fees_are_quoted_from_the_applicable_season() {
    let mut registry = Registry::init(root());
    assert_eq!(registry.get_registration_fee("example"), 0);
    let season = CreateSeasonRequest {
        min_letters: 3,
        max_letters: Some(7),
        total_allowed: 1,
        price_icp: 184_467_440_737,
    };
    registry.create_registration_season(season, &root(), T0).unwrap();
    assert_eq!(registry.get_registration_fee("example"), 18_446_744_073_700_000_000);
    assert_eq!(registry.get_registration_fee("abc"), 18_446_744_073_700_000_000);
    assert_eq!(registry.get_registration_fee("ab"), 0);
    assert_eq!(registry.get_registration_fee("examples"), 0);
    assert_eq!(registry.get_registration_fee("system"), 0);
    assert_eq!(registry.get_registration_fee("not valid"), 0);
    let user = who(2);
    let receipt = registry.register_domain(ask("example", &user), &user, T0, Ok(handle(1))).unwrap();
    assert_eq!(receipt.fee, 18_446_744_073_700_000_000);
    // The season is full now.
    assert_eq!(registry.get_registration_fee("another"), 0);
    assert_eq!(registry.calculate_registration_fee("another"), None);
}

#[test]
fn eligibility_looks_at_name_policy_and_availability() {
    let mut registry = Registry::init(root());
    let user = who(2);
    // No season is needed to be eligible.
    assert!(registry.can_register_domain("example", &user, T0));
    assert!(!registry.can_register_domain("exa mple", &user, T0));
    assert!(!registry.can_register_domain("dfinity", &user, T0));
    assert!(!registry.can_register_domain("abc", &user, T0));
    assert!(registry.can_register_domain("abc", &root(), T0));
    registry.register_domain(ask("example", &root()), &root(), T0, Ok(handle(1))).unwrap();
    assert!(!registry.can_register_domain("example", &user, T0));
}

#[test]
fn results_are_reported_in_words() {
    let nobody = Identity::from_bytes(vec![4]).unwrap();
    let management = Identity::from_bytes(vec![]).unwrap();
    assert_eq!(
        registration_message("abc", &management, "Fee: 20 ICP"),
        "Domain abc registered successfully with canister aaaaa-aa. Fee: 20 ICP"
    );
    assert_eq!(
        gift_message("abc", &nobody, &management),
        "Domain abc gifted to 2vxsx-fae with canister aaaaa-aa (FREE admin gift)"
    );
    assert_eq!(
        address_creation_message("abc", "0xabc", &nobody, &management),
        "Domain abc created for address '0xabc' and assigned to 2vxsx-fae with canister aaaaa-aa"
    );
    assert_eq!(
        renewal_message("abc", "Free (admin renewal)"),
        "Domain abc renewed successfully. Free (admin renewal)"
    );
}

#[test]
fn refusals_are_reported_in_words() {
    let (registration, gift, address_creation) =
        (AllocationKind::Registration, AllocationKind::Gift, AllocationKind::AddressCreation);
    let say = |e: AllocationError, kind| allocation_error_message(&e, kind);
    assert_eq!(say(AllocationError::NotAdmin, gift), "Only admins can gift domains");
    assert_eq!(
        say(AllocationError::NotAdmin, address_creation),
        "Only admins can create domains with addresses"
    );
    assert_eq!(say(AllocationError::InvalidFormat, registration), "Invalid domain name format");
    assert_eq!(say(AllocationError::Reserved, gift), "Domain name is reserved");
    assert_eq!(
        say(AllocationError::ShortNameDenied, registration),
        "Short domain names require approval"
    );
    assert_eq!(
        say(AllocationError::WalletAlreadyOwns("mine".to_string()), registration),
        "Wallet already owns domain: mine"
    );
    assert_eq!(
        say(AllocationError::RecipientAlreadyOwns("mine".to_string()), gift),
        "Recipient already owns domain: mine"
    );
    assert_eq!(say(AllocationError::NameUnavailable, gift), "Domain name is not available");
    assert_eq!(
        say(AllocationError::NoSeason, registration),
        "No available registration season for this domain length"
    );
    assert_eq!(
        say(AllocationError::NoActiveSeason, gift),
        "Cannot gift domain: no active season available"
    );
    assert_eq!(
        say(AllocationError::NoActiveSeason, address_creation),
        "Cannot create domain: no active season available"
    );
    assert_eq!(say(AllocationError::SeasonFull, registration), "Registration season is full");
    assert_eq!(say(AllocationError::SeasonFull, gift), "Cannot gift domain: active season is full");
    assert_eq!(
        say(AllocationError::SeasonFull, address_creation),
        "Cannot create domain: active season is full"
    );
    assert_eq!(
        say(AllocationError::AddressNotAuthorized("0xabc".to_string()), address_creation),
        "Address '0xabc' is not authorized for the current season"
    );
    assert_eq!(
        say(AllocationError::ProvisioningFailed("no cycles".to_string()), registration),
        "no cycles"
    );

    assert_eq!(transfer_error_message(&TransferError::NotFound), "Domain not found");
    assert_eq!(
        transfer_error_message(&TransferError::Unauthorized),
        "Unauthorized: only domain owner or administrator can transfer ownership"
    );
    assert_eq!(
        transfer_error_message(&TransferError::NewOwnerAlreadyOwns("mine".to_string())),
        "New owner already owns domain: mine"
    );
    assert_eq!(renew_error_message(RenewError::NotFound), "Domain not found");
    assert_eq!(renew_error_message(RenewError::Unauthorized), "Unauthorized");
    assert_eq!(
        renew_error_message(RenewError::ExpirationOverflow),
        "Domain cannot be renewed any further"
    );
    assert_eq!(endpoint_error_message(EndpointError::NotFound), "Domain not found");
    assert_eq!(endpoint_error_message(EndpointError::Unauthorized), "Unauthorized");
    assert_eq!(
        endpoint_error_message(EndpointError::InvalidEndpoint),
        "Custom endpoint must use HTTPS and have at most 200 characters"
    );
    assert_eq!(admin_error_message(AdminError::NotAdmin), "Only admins can perform this operation");
    assert_eq!(admin_error_message(AdminError::LastAdmin), "Cannot remove the last admin");
    assert_eq!(
        create_season_error_message(CreateSeasonError::NotAdmin),
        "Only admins can create registration seasons"
    );
    assert_eq!(
        create_season_error_message(CreateSeasonError::InvalidMinLetters),
        "Min letters must be between 1 and 64"
    );
    assert_eq!(
        create_season_error_message(CreateSeasonError::InvalidMaxLetters),
        "Max letters must be >= min letters and <= 64"
    );
    assert_eq!(
        create_season_error_message(CreateSeasonError::ZeroCapacity),
        "Total allowed must be greater than 0"
    );
    assert_eq!(
        create_season_error_message(CreateSeasonError::ZeroPrice),
        "Price must be greater than 0"
    );
    assert_eq!(
        create_season_error_message(CreateSeasonError::ActiveSeasonExists),
        "Cannot create new season: there is already an active season"
    );
    assert_eq!(
        deactivate_error_message(DeactivateError::NotAdmin),
        "Only admins can deactivate seasons"
    );
    assert_eq!(deactivate_error_message(DeactivateError::NotFound), "Season not found");
    assert_eq!(
        allowlist_error_message(AllowlistError::NotAdmin),
        "Only admins can add addresses to seasons"
    );
    assert_eq!(allowlist_error_message(AllowlistError::SeasonNotFound), "Season not found");
    assert_eq!(
        allowlist_error_message(AllowlistError::SeasonNotActive),
        "Cannot add address to a season that is not active"
    );
    assert_eq!(slot_error_message(SlotError::NotFound), "Season not found");
    assert_eq!(slot_error_message(SlotError::Full), "Registration season is full");
}

#[test]
fn a_record_keeps_what_the_allocation_recorded() {
    let mut registry = open_registry(5, 1);
    registry.admin_add_address_to_season(1, "0xabc".to_string(), &root()).unwrap();
    let (a, b, c) = (who(2), who(3), who(4));
    registry.register_domain(ask("bought", &a), &a, T0, Ok(handle(1))).unwrap();
    registry.admin_gift_domain(give("given", &b), &root(), T0 + 1, Ok(handle(2))).unwrap();
    let create = domain_registry::records::AdminCreateDomainRequest {
        domain_name: "made".to_string(),
        recipient: c.clone(),
        administrator: root(),
        operator: b.clone(),
        recipient_address: "0xabc".to_string(),
    };
    registry.admin_create_domain_with_address(create, &root(), T0 + 2, Ok(handle(3))).unwrap();
    registry.register_domain(ask("own", &root()), &root(), T0 + 3, Ok(handle(4))).unwrap();

    let bought = registry.get_domain_record("bought").unwrap();
    assert_eq!(bought.last_payment_block, 42);
    assert_eq!(bought.registration_season_id, Some(1));
    assert_eq!(bought.registration_time, T0);
    assert_eq!(bought.expiration_time, T0 + ONE_YEAR);
    assert_eq!(bought.custom_mcp_endpoint, None);
    assert!(!bought.was_gifted);
    let given = registry.get_domain_record("given").unwrap();
    assert_eq!(given.owner, b);
    assert_eq!(given.last_payment_block, 0);
    assert_eq!(given.registration_season_id, Some(1));
    assert!(given.was_gifted);
    let made = registry.get_domain_record("made").unwrap();
    assert_eq!(made.owner, c);
    assert_eq!(made.administrator, root());
    assert_eq!(made.operator, b);
    assert_eq!(made.canister_id, handle(3));
    assert_eq!(made.last_payment_block, 0);
    assert_eq!(made.registration_season_id, Some(1));
    assert!(!made.was_gifted);
    let own = registry.get_domain_record("own").unwrap();
    assert_eq!(own.last_payment_block, 42);
    assert_eq!(own.registration_season_id, None);
    assert!(own.was_gifted);
    assert_eq!(registry.get_domain_record("none"), None);
    assert_eq!(registry.get_season_stats(1).unwrap().names_taken, 3);
    assert_eq!(registry.domain_count(), 4);
    assert_eq!(registry.season_count(), 1);

    registry.renew_domain("bought", 77, &a).unwrap();
    let renewed = registry.get_domain_record("bought").unwrap();
    assert_eq!(renewed.last_payment_block, 77);
    assert_eq!(renewed.expiration_time, T0 + 2 * ONE_YEAR);
    assert_eq!(renewed.registration_season_id, Some(1));
}

#[test]
fn a_transfer_to_oneself_keeps_the_name() {
    let mut registry = Registry::init(root());
    registry.register_domain(ask("mine", &root()), &root(), T0, Ok(handle(1))).unwrap();
    assert_eq!(registry.transfer_domain_ownership("mine", root(), &root()), Ok(()));
    assert_eq!(registry.get_wallet_domain(&root()), Some("mine".to_string()));
    assert_eq!(registry.get_domain_record("mine").unwrap().owner, root());
}

#[test]
fn a_name_registered_again_leaves_its_former_holder() {
    let mut registry = open_registry(5, 1);
    let (first, second) = (who(2), who(3));
    registry.register_domain(ask("example", &first), &first, T0, Ok(handle(1))).unwrap();
    let later = T0 + ONE_YEAR + 1;
    // While the expired name is not taken again, its holder holds it.
    assert_eq!(registry.get_wallet_domain(&first), Some("example".to_string()));
    registry.register_domain(ask("example", &second), &second, later, Ok(handle(2))).unwrap();
    assert_eq!(registry.get_wallet_domain(&second), Some("example".to_string()));
    assert_eq!(registry.get_domain_record("example").unwrap().owner, second);
    assert_eq!(registry.get_wallet_domain(&first), None);
    // The former holder is free to register again.
    registry.register_domain(ask("another", &first), &first, later, Ok(handle(3))).unwrap();
    assert_eq!(registry.get_wallet_domain(&first), Some("another".to_string()));
    assert_eq!(registry.get_wallet_domain(&second), Some("example".to_string()));
}

#[test]
fn an_admin_keeps_the_name_it_holds_when_another_of_its_names_is_taken() {
    let mut registry = open_registry(5, 1);
    let user = who(2);
    registry.register_domain(ask("older", &root()), &root(), T0, Ok(handle(1))).unwrap();
    registry.register_domain(ask("newer", &root()), &root(), T0 + 10, Ok(handle(2))).unwrap();
    assert_eq!(registry.get_wallet_domain(&root()), Some("newer".to_string()));
    let later = T0 + ONE_YEAR + 1;
    registry.register_domain(ask("older", &user), &user, later, Ok(handle(3))).unwrap();
    // The administrator held the other name, and holds it still.
    assert_eq!(registry.get_wallet_domain(&root()), Some("newer".to_string()));
    assert_eq!(registry.get_wallet_domain(&user), Some("older".to_string()));
    let latest = T0 + 10 + ONE_YEAR + 1;
    let other = who(3);
    registry.register_domain(ask("newer", &other), &other, latest, Ok(handle(4))).unwrap();
    assert_eq!(registry.get_wallet_domain(&root()), None);
    assert_eq!(registry.get_wallet_domain(&other), Some("newer".to_string()));
}

#[test]
fn a_gift_of_an_expired_name_releases_its_former_holder_too() {
    let mut registry = open_registry(5, 1);
    let (first, second) = (who(2), who(3));
    registry.register_domain(ask("example", &first), &first, T0, Ok(handle(1))).unwrap();
    let later = T0 + ONE_YEAR + 1;
    registry.admin_gift_domain(give("example", &second), &root(), later, Ok(handle(2))).unwrap();
    assert_eq!(registry.get_wallet_domain(&first), None);
    assert_eq!(registry.get_wallet_domain(&second), Some("example".to_string()));
    // Taking one's own expired name again keeps the entry.
    let again = later + ONE_YEAR + 1;
    registry.register_domain(ask("example", &second), &second, again, Ok(handle(3)))
        .unwrap_err();
    assert_eq!(registry.get_wallet_domain(&second), Some("example".to_string()));
}

#[test]
fn a_commit_too_late_for_one_year_is_given_up() {
    let mut registry = open_registry(2, 1);
    let user = who(2);
    let late = u64::MAX - ONE_YEAR + 1;
    assert_eq!(
        registry.register_domain(ask("example", &user), &user, late, Ok(handle(1))),
        Err(AllocationError::ExpirationOverflow)
    );
    assert_eq!(registry.get_season_stats(1).unwrap().names_taken, 0);
    assert_eq!(registry.get_registration_season(1).unwrap().status, SeasonStatus::Active);
    assert_eq!(registry.get_domain_record("example"), None);
    assert_eq!(registry.get_wallet_domain(&user), None);
    // The last time that leaves room for one year.
    let receipt =
        registry.register_domain(ask("example", &user), &user, late - 1, Ok(handle(1))).unwrap();
    assert_eq!(receipt.fee, 100_000_000);
    assert_eq!(registry.get_domain_record("example").unwrap().expiration_time, u64::MAX);
    // The two steps apart: the slot is reserved, then given back.
    let other = who(3);
    let pending = registry.begin_registration(ask("another", &other), &other, T0).unwrap();
    assert_eq!(registry.get_season_stats(1).unwrap().names_taken, 2);
    assert_eq!(
        registry.complete_allocation(pending, Ok(handle(2)), u64::MAX),
        Err(AllocationError::ExpirationOverflow)
    );
    assert_eq!(registry.get_season_stats(1).unwrap().names_taken, 1);
    assert_eq!(
        allocation_error_message(&AllocationError::ExpirationOverflow, AllocationKind::Registration),
        "Domain cannot be registered this late: its expiration is out of range"
    );
}

#[test]
fn a_fee_is_never_too_large_to_be_told() {
    let mut registry = Registry::init(root());
    let season = CreateSeasonRequest {
        min_letters: 5,
        max_letters: None,
        total_allowed: 1,
        price_icp: u64::MAX,
    };
    assert_eq!(registry.create_registration_season(season, &root(), T0), Ok(1));
    assert_eq!(registry.get_registration_fee("example"), 1_844_674_407_370_955_161_500_000_000);
    let user = who(2);
    let receipt = registry.register_domain(ask("example", &user), &user, T0, Ok(handle(1))).unwrap();
    assert_eq!(receipt.fee, u64::MAX as u128 * 100_000_000);
}

#[test]
fn a_refused_administrative_change_names_the_change() {
    let say = |operation| admin_operation_error_message(AdminError::NotAdmin, operation);
    assert_eq!(say(AdminOperation::AddAdmin), "Only admins can add other admins");
    assert_eq!(say(AdminOperation::RemoveAdmin), "Only admins can remove other admins");
    assert_eq!(say(AdminOperation::AddReservedName), "Only admins can add reserved names");
    assert_eq!(
        say(AdminOperation::ApproveShortNames),
        "Only admins can approve users for short names"
    );
    assert_eq!(
        say(AdminOperation::RevokeShortNames),
        "Only admins can revoke short name approvals"
    );
    assert_eq!(say(AdminOperation::SetShortNameMode), "Only admins can change short name mode");
    assert_eq!(say(AdminOperation::SetBaseFee), "Only admins can set fees");
    assert_eq!(
        say(AdminOperation::SetDomainCanisterWasm),
        "Only admins can set domain canister WASM"
    );
    assert_eq!(
        admin_operation_error_message(AdminError::LastAdmin, AdminOperation::RemoveAdmin),
        "Cannot remove the last admin"
    );
    assert_eq!(
        create_season_error_message(CreateSeasonError::TooManySeasons),
        "Cannot create new season: no season id is left"
    );
}
