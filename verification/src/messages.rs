//! The texts that tell a user what an operation came to.
//!
//! A fee is shown as text that the caller of these functions supplies.

use crate::allowlist::AllowlistError;
use crate::identity::{principal_text, Identity};
use crate::model::{AllocationErrorView, AllocationKind, EndpointError, RenewError, TransferErrorView};
use crate::policy::AdminError;
use crate::registry::{AllocationError, TransferError};
use crate::season::{CreateSeasonError, DeactivateError, SlotError};
use vstd::prelude::*;
use vstd::string::StringExecFns;

verus! {

/// The text that reports a registration, given the text of the resource
/// handle.
pub open spec fn registration_wording(
    name: Seq<char>,
    canister_text: Seq<char>,
    fee_info: Seq<char>,
) -> Seq<char> {
    "Domain "@ + name + " registered successfully with canister "@ + canister_text + ". "@
        + fee_info
}

/// The text that reports a registration.
pub open spec fn registration_text(name: Seq<char>, canister_id: Seq<u8>, fee_info: Seq<char>) -> Seq<
    char,
> {
    registration_wording(name, principal_text(canister_id), fee_info)
}

/// The text that reports a gift, given the texts of the recipient and of
/// the resource handle.
pub open spec fn gift_wording(
    name: Seq<char>,
    recipient_text: Seq<char>,
    canister_text: Seq<char>,
) -> Seq<char> {
    "Domain "@ + name + " gifted to "@ + recipient_text + " with canister "@ + canister_text
        + " (FREE admin gift)"@
}

/// The text that reports a gift.
pub open spec fn gift_text(name: Seq<char>, recipient: Seq<u8>, canister_id: Seq<u8>) -> Seq<char> {
    gift_wording(name, principal_text(recipient), principal_text(canister_id))
}

/// The text that reports the creation of a name for a listed address,
/// given the texts of the recipient and of the resource handle.
pub open spec fn address_creation_wording(
    name: Seq<char>,
    address: Seq<char>,
    recipient_text: Seq<char>,
    canister_text: Seq<char>,
) -> Seq<char> {
    "Domain "@ + name + " created for address '"@ + address + "' and assigned to "@
        + recipient_text + " with canister "@ + canister_text
}

/// The text that reports the creation of a name for a listed address.
pub open spec fn address_creation_text(
    name: Seq<char>,
    address: Seq<char>,
    recipient: Seq<u8>,
    canister_id: Seq<u8>,
) -> Seq<char> {
    address_creation_wording(name, address, principal_text(recipient), principal_text(canister_id))
}

/// The text that reports a renewal.
pub open spec fn renewal_text(name: Seq<char>, fee_info: Seq<char>) -> Seq<char> {
    "Domain "@ + name + " renewed successfully. "@ + fee_info
}

/// The text that tells why a name was not allocated in the given way.
pub open spec fn allocation_error_text(e: AllocationErrorView, kind: AllocationKind) -> Seq<char> {
    match e {
        AllocationErrorView::NotAdmin => match kind {
            AllocationKind::AddressCreation => "Only admins can create domains with addresses"@,
            _ => "Only admins can gift domains"@,
        },
        AllocationErrorView::InvalidFormat => "Invalid domain name format"@,
        AllocationErrorView::Reserved => "Domain name is reserved"@,
        AllocationErrorView::ShortNameDenied => "Short domain names require approval"@,
        AllocationErrorView::WalletAlreadyOwns(held) => "Wallet already owns domain: "@ + held,
        AllocationErrorView::RecipientAlreadyOwns(held) => "Recipient already owns domain: "@
            + held,
        AllocationErrorView::NameUnavailable => "Domain name is not available"@,
        AllocationErrorView::NoSeason => "No available registration season for this domain length"@,
        AllocationErrorView::NoActiveSeason => match kind {
            AllocationKind::AddressCreation => "Cannot create domain: no active season available"@,
            _ => "Cannot gift domain: no active season available"@,
        },
        AllocationErrorView::SeasonFull => match kind {
            AllocationKind::Registration => "Registration season is full"@,
            AllocationKind::Gift => "Cannot gift domain: active season is full"@,
            AllocationKind::AddressCreation => "Cannot create domain: active season is full"@,
        },
        AllocationErrorView::AddressNotAuthorized(address) => "Address '"@ + address
            + "' is not authorized for the current season"@,
        AllocationErrorView::ProvisioningFailed(reason) => reason,
        AllocationErrorView::ExpirationOverflow => "Domain cannot be registered this late: its expiration is out of range"@,
    }
}

/// The text that tells why a name was not transferred.
pub open spec fn transfer_error_text(e: TransferErrorView) -> Seq<char> {
    match e {
        TransferErrorView::NotFound => "Domain not found"@,
        TransferErrorView::Unauthorized => "Unauthorized: only domain owner or administrator can transfer ownership"@,
        TransferErrorView::NewOwnerAlreadyOwns(held) => "New owner already owns domain: "@ + held,
    }
}

/// The text that tells why a name was not renewed.
pub open spec fn renew_error_text(e: RenewError) -> Seq<char> {
    match e {
        RenewError::NotFound => "Domain not found"@,
        RenewError::Unauthorized => "Unauthorized"@,
        RenewError::ExpirationOverflow => "Domain cannot be renewed any further"@,
    }
}

/// The text that tells why an endpoint was not set.
pub open spec fn endpoint_error_text(e: EndpointError) -> Seq<char> {
    match e {
        EndpointError::NotFound => "Domain not found"@,
        EndpointError::Unauthorized => "Unauthorized"@,
        EndpointError::InvalidEndpoint => "Custom endpoint must use HTTPS and have at most 200 characters"@,
    }
}

/// The text that tells why an administrative change was refused.
pub open spec fn admin_error_text(e: AdminError) -> Seq<char> {
    match e {
        AdminError::NotAdmin => "Only admins can perform this operation"@,
        AdminError::LastAdmin => "Cannot remove the last admin"@,
    }
}

/// The administrative changes that only an administrator may make.
#[derive(Clone, Copy, Debug, PartialEq, Eq, Structural)]
pub enum AdminOperation {
    AddAdmin,
    RemoveAdmin,
    AddReservedName,
    ApproveShortNames,
    RevokeShortNames,
    SetShortNameMode,
    SetBaseFee,
    SetDomainCanisterWasm,
}

/// The text that tells why the given administrative change was refused.
pub open spec fn admin_operation_error_text(e: AdminError, operation: AdminOperation) -> Seq<char> {
    match e {
        AdminError::LastAdmin => "Cannot remove the last admin"@,
        AdminError::NotAdmin => match operation {
            AdminOperation::AddAdmin => "Only admins can add other admins"@,
            AdminOperation::RemoveAdmin => "Only admins can remove other admins"@,
            AdminOperation::AddReservedName => "Only admins can add reserved names"@,
            AdminOperation::ApproveShortNames => "Only admins can approve users for short names"@,
            AdminOperation::RevokeShortNames => "Only admins can revoke short name approvals"@,
            AdminOperation::SetShortNameMode => "Only admins can change short name mode"@,
            AdminOperation::SetBaseFee => "Only admins can set fees"@,
            AdminOperation::SetDomainCanisterWasm => "Only admins can set domain canister WASM"@,
        },
    }
}

/// The text that tells why a season was not created.
pub open spec fn create_season_error_text(e: CreateSeasonError) -> Seq<char> {
    match e {
        CreateSeasonError::NotAdmin => "Only admins can create registration seasons"@,
        CreateSeasonError::InvalidMinLetters => "Min letters must be between 1 and 64"@,
        CreateSeasonError::InvalidMaxLetters => "Max letters must be >= min letters and <= 64"@,
        CreateSeasonError::ZeroCapacity => "Total allowed must be greater than 0"@,
        CreateSeasonError::ZeroPrice => "Price must be greater than 0"@,
        CreateSeasonError::ActiveSeasonExists => "Cannot create new season: there is already an active season"@,
        CreateSeasonError::TooManySeasons => "Cannot create new season: no season id is left"@,
    }
}

/// The text that tells why a season was not deactivated.
pub open spec fn deactivate_error_text(e: DeactivateError) -> Seq<char> {
    match e {
        DeactivateError::NotAdmin => "Only admins can deactivate seasons"@,
        DeactivateError::NotFound => "Season not found"@,
    }
}

/// The text that tells why an address was not listed.
pub open spec fn allowlist_error_text(e: AllowlistError) -> Seq<char> {
    match e {
        AllowlistError::NotAdmin => "Only admins can add addresses to seasons"@,
        AllowlistError::SeasonNotFound => "Season not found"@,
        AllowlistError::SeasonNotActive => "Cannot add address to a season that is not active"@,
    }
}

/// The text that tells why a slot was not reserved.
pub open spec fn slot_error_text(e: SlotError) -> Seq<char> {
    match e {
        SlotError::NotFound => "Season not found"@,
        SlotError::Full => "Registration season is full"@,
    }
}

/// The text that reports a registration, given the text of the resource
/// handle; `fee_info` tells what was charged.
pub fn word_registration(domain_name: &str, canister_text: &str, fee_info: &str) -> (r: String)
    ensures
        r@ == registration_wording(domain_name@, canister_text@, fee_info@),
{
    let mut text = "Domain ".to_owned();
    text.append(domain_name);
    text.append(" registered successfully with canister ");
    text.append(canister_text);
    text.append(". ");
    text.append(fee_info);
    text
}

/// The text that reports a registration; `fee_info` tells what was charged.
pub fn registration_message(domain_name: &str, canister_id: &Identity, fee_info: &str) -> (r:
    String)
    ensures
        r@ == registration_text(domain_name@, canister_id@, fee_info@),
{
    let canister_text = canister_id.to_text();
    word_registration(domain_name, canister_text.as_str(), fee_info)
}

/// The text that reports a gift, given the texts of the recipient and of
/// the resource handle.
pub fn word_gift(domain_name: &str, recipient_text: &str, canister_text: &str) -> (r: String)
    ensures
        r@ == gift_wording(domain_name@, recipient_text@, canister_text@),
{
    let mut text = "Domain ".to_owned();
    text.append(domain_name);
    text.append(" gifted to ");
    text.append(recipient_text);
    text.append(" with canister ");
    text.append(canister_text);
    text.append(" (FREE admin gift)");
    text
}

/// The text that reports a gift.
pub fn gift_message(domain_name: &str, recipient: &Identity, canister_id: &Identity) -> (r: String)
    ensures
        r@ == gift_text(domain_name@, recipient@, canister_id@),
{
    let recipient_text = recipient.to_text();
    let canister_text = canister_id.to_text();
    word_gift(domain_name, recipient_text.as_str(), canister_text.as_str())
}

/// The text that reports the creation of a name for a listed address,
/// given the texts of the recipient and of the resource handle.
pub fn word_address_creation(
    domain_name: &str,
    recipient_address: &str,
    recipient_text: &str,
    canister_text: &str,
) -> (r: String)
    ensures
        r@ == address_creation_wording(
            domain_name@,
            recipient_address@,
            recipient_text@,
            canister_text@,
        ),
{
    let mut text = "Domain ".to_owned();
    text.append(domain_name);
    text.append(" created for address '");
    text.append(recipient_address);
    text.append("' and assigned to ");
    text.append(recipient_text);
    text.append(" with canister ");
    text.append(canister_text);
    text
}

/// The text that reports the creation of a name for a listed address.
pub fn address_creation_message(
    domain_name: &str,
    recipient_address: &str,
    recipient: &Identity,
    canister_id: &Identity,
) -> (r: String)
    ensures
        r@ == address_creation_text(domain_name@, recipient_address@, recipient@, canister_id@),
{
    let recipient_text = recipient.to_text();
    let canister_text = canister_id.to_text();
    word_address_creation(
        domain_name,
        recipient_address,
        recipient_text.as_str(),
        canister_text.as_str(),
    )
}

/// The text that reports a renewal; `fee_info` tells what was charged.
pub fn renewal_message(domain_name: &str, fee_info: &str) -> (r: String)
    ensures
        r@ == renewal_text(domain_name@, fee_info@),
{
    let mut text = "Domain ".to_owned();
    text.append(domain_name);
    text.append(" renewed successfully. ");
    text.append(fee_info);
    text
}

/// The text that tells why a name was not allocated in the given way.
pub fn allocation_error_message(e: &AllocationError, kind: AllocationKind) -> (r: String)
    ensures
        r@ == allocation_error_text(e@, kind),
{
    match e {
        AllocationError::NotAdmin => match kind {
            AllocationKind::AddressCreation => "Only admins can create domains with addresses".to_owned(),
            _ => "Only admins can gift domains".to_owned(),
        },
        AllocationError::InvalidFormat => "Invalid domain name format".to_owned(),
        AllocationError::Reserved => "Domain name is reserved".to_owned(),
        AllocationError::ShortNameDenied => "Short domain names require approval".to_owned(),
        AllocationError::WalletAlreadyOwns(held) => {
            let mut text = "Wallet already owns domain: ".to_owned();
            text.append(held.as_str());
            text
        },
        AllocationError::RecipientAlreadyOwns(held) => {
            let mut text = "Recipient already owns domain: ".to_owned();
            text.append(held.as_str());
            text
        },
        AllocationError::NameUnavailable => "Domain name is not available".to_owned(),
        AllocationError::NoSeason => "No available registration season for this domain length".to_owned(),
        AllocationError::NoActiveSeason => match kind {
            AllocationKind::AddressCreation => "Cannot create domain: no active season available".to_owned(),
            _ => "Cannot gift domain: no active season available".to_owned(),
        },
        AllocationError::SeasonFull => match kind {
            AllocationKind::Registration => "Registration season is full".to_owned(),
            AllocationKind::Gift => "Cannot gift domain: active season is full".to_owned(),
            AllocationKind::AddressCreation => "Cannot create domain: active season is full".to_owned(),
        },
        AllocationError::AddressNotAuthorized(address) => {
            let mut text = "Address '".to_owned();
            text.append(address.as_str());
            text.append("' is not authorized for the current season");
            text
        },
        AllocationError::ProvisioningFailed(reason) => reason.clone(),
        AllocationError::ExpirationOverflow => "Domain cannot be registered this late: its expiration is out of range".to_owned(),
    }
}

/// The text that tells why a name was not transferred.
pub fn transfer_error_message(e: &TransferError) -> (r: String)
    ensures
        r@ == transfer_error_text(e@),
{
    match e {
        TransferError::NotFound => "Domain not found".to_owned(),
        TransferError::Unauthorized => "Unauthorized: only domain owner or administrator can transfer ownership".to_owned(),
        TransferError::NewOwnerAlreadyOwns(held) => {
            let mut text = "New owner already owns domain: ".to_owned();
            text.append(held.as_str());
            text
        },
    }
}

/// The text that tells why a name was not renewed.
pub fn renew_error_message(e: RenewError) -> (r: String)
    ensures
        r@ == renew_error_text(e),
{
    match e {
        RenewError::NotFound => "Domain not found".to_owned(),
        RenewError::Unauthorized => "Unauthorized".to_owned(),
        RenewError::ExpirationOverflow => "Domain cannot be renewed any further".to_owned(),
    }
}

/// The text that tells why an endpoint was not set.
pub fn endpoint_error_message(e: EndpointError) -> (r: String)
    ensures
        r@ == endpoint_error_text(e),
{
    match e {
        EndpointError::NotFound => "Domain not found".to_owned(),
        EndpointError::Unauthorized => "Unauthorized".to_owned(),
        EndpointError::InvalidEndpoint => "Custom endpoint must use HTTPS and have at most 200 characters".to_owned(),
    }
}

/// The text that tells why an administrative change was refused.
pub fn admin_error_message(e: AdminError) -> (r: String)
    ensures
        r@ == admin_error_text(e),
{
    match e {
        AdminError::NotAdmin => "Only admins can perform this operation".to_owned(),
        AdminError::LastAdmin => "Cannot remove the last admin".to_owned(),
    }
}

/// The text that tells why the given administrative change was refused.
pub fn admin_operation_error_message(e: AdminError, operation: AdminOperation) -> (r: String)
    ensures
        r@ == admin_operation_error_text(e, operation),
{
    match e {
        AdminError::LastAdmin => "Cannot remove the last admin".to_owned(),
        AdminError::NotAdmin => match operation {
            AdminOperation::AddAdmin => "Only admins can add other admins".to_owned(),
            AdminOperation::RemoveAdmin => "Only admins can remove other admins".to_owned(),
            AdminOperation::AddReservedName => "Only admins can add reserved names".to_owned(),
            AdminOperation::ApproveShortNames => "Only admins can approve users for short names".to_owned(),
            AdminOperation::RevokeShortNames => "Only admins can revoke short name approvals".to_owned(),
            AdminOperation::SetShortNameMode => "Only admins can change short name mode".to_owned(),
            AdminOperation::SetBaseFee => "Only admins can set fees".to_owned(),
            AdminOperation::SetDomainCanisterWasm => "Only admins can set domain canister WASM".to_owned(),
        },
    }
}

/// The text that tells why a season was not created.
pub fn create_season_error_message(e: CreateSeasonError) -> (r: String)
    ensures
        r@ == create_season_error_text(e),
{
    match e {
        CreateSeasonError::NotAdmin => "Only admins can create registration seasons".to_owned(),
        CreateSeasonError::InvalidMinLetters => "Min letters must be between 1 and 64".to_owned(),
        CreateSeasonError::InvalidMaxLetters => "Max letters must be >= min letters and <= 64".to_owned(),
        CreateSeasonError::ZeroCapacity => "Total allowed must be greater than 0".to_owned(),
        CreateSeasonError::ZeroPrice => "Price must be greater than 0".to_owned(),
        CreateSeasonError::ActiveSeasonExists => "Cannot create new season: there is already an active season".to_owned(),
        CreateSeasonError::TooManySeasons => "Cannot create new season: no season id is left".to_owned(),
    }
}

/// The text that tells why a season was not deactivated.
pub fn deactivate_error_message(e: DeactivateError) -> (r: String)
    ensures
        r@ == deactivate_error_text(e),
{
    match e {
        DeactivateError::NotAdmin => "Only admins can deactivate seasons".to_owned(),
        DeactivateError::NotFound => "Season not found".to_owned(),
    }
}

/// The text that tells why an address was not listed.
pub fn allowlist_error_message(e: AllowlistError) -> (r: String)
    ensures
        r@ == allowlist_error_text(e),
{
    match e {
        AllowlistError::NotAdmin => "Only admins can add addresses to seasons".to_owned(),
        AllowlistError::SeasonNotFound => "Season not found".to_owned(),
        AllowlistError::SeasonNotActive => "Cannot add address to a season that is not active".to_owned(),
    }
}

/// The text that tells why a slot was not reserved.
pub fn slot_error_message(e: SlotError) -> (r: String)
    ensures
        r@ == slot_error_text(e),
{
    match e {
        SlotError::NotFound => "Season not found".to_owned(),
        SlotError::Full => "Registration season is full".to_owned(),
    }
}

} // verus!
