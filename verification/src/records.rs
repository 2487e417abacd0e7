//! Name records, what is reported of them, and the store that holds them.

use crate::collections::{lemma_filter_map_step, lookup, upsert, KeyMap};
use crate::identity::Identity;
use crate::names::{matches_query, query_matches};
use vstd::prelude::*;
use vstd::string::StringExecFns;

verus! {

/// The time for which a registration or a renewal lasts: one year, in
/// nanoseconds.
pub const ONE_YEAR: u64 = 31_536_000_000_000_000;

/// What is stored of a registered name.
#[derive(Debug, PartialEq, Eq)]
pub struct DomainRecord {
    pub owner: Identity,
    pub administrator: Identity,
    pub operator: Identity,
    /// The handle of the resource that backs the name.
    pub canister_id: Identity,
    pub registration_time: u64,
    pub expiration_time: u64,
    pub last_payment_block: u64,
    pub custom_mcp_endpoint: Option<String>,
    pub was_gifted: bool,
    /// The season that the name was allocated from, if any.
    pub registration_season_id: Option<u64>,
}

/// The mathematical value of a [`DomainRecord`].
pub struct DomainRecordView {
    pub owner: Seq<u8>,
    pub administrator: Seq<u8>,
    pub operator: Seq<u8>,
    pub canister_id: Seq<u8>,
    pub registration_time: u64,
    pub expiration_time: u64,
    pub last_payment_block: u64,
    pub custom_mcp_endpoint: Option<Seq<char>>,
    pub was_gifted: bool,
    pub registration_season_id: Option<u64>,
}

/// The text of an optional string.
pub open spec fn text_of(s: Option<String>) -> Option<Seq<char>> {
    match s {
        Some(t) => Some(t@),
        None => None,
    }
}

impl View for DomainRecord {
    type V = DomainRecordView;

    open spec fn view(&self) -> DomainRecordView {
        DomainRecordView {
            owner: self.owner@,
            administrator: self.administrator@,
            operator: self.operator@,
            canister_id: self.canister_id@,
            registration_time: self.registration_time,
            expiration_time: self.expiration_time,
            last_payment_block: self.last_payment_block,
            custom_mcp_endpoint: text_of(self.custom_mcp_endpoint),
            was_gifted: self.was_gifted,
            registration_season_id: self.registration_season_id,
        }
    }
}

/// A copy of an optional string.
pub fn copy_text(s: &Option<String>) -> (r: Option<String>)
    ensures
        text_of(r) == text_of(*s),
{
    match s {
        Some(t) => Some(t.clone()),
        None => None,
    }
}

impl Clone for DomainRecord {
    fn clone(&self) -> (r: Self)
        ensures
            r@ == self@,
    {
        DomainRecord {
            owner: self.owner.clone(),
            administrator: self.administrator.clone(),
            operator: self.operator.clone(),
            canister_id: self.canister_id.clone(),
            registration_time: self.registration_time,
            expiration_time: self.expiration_time,
            last_payment_block: self.last_payment_block,
            custom_mcp_endpoint: copy_text(&self.custom_mcp_endpoint),
            was_gifted: self.was_gifted,
            registration_season_id: self.registration_season_id,
        }
    }
}

/// Whether a name is in force.
#[derive(Clone, Copy, Debug, PartialEq, Eq, Structural)]
pub enum DomainStatus {
    Active,
    Expired,
    Reserved,
}

/// What is reported of a registered name.
#[derive(Debug, PartialEq, Eq)]
pub struct DomainInfo {
    pub name: String,
    pub owner: Identity,
    pub administrator: Identity,
    pub operator: Identity,
    pub canister_id: Identity,
    pub expiration_time: u64,
    pub mcp_endpoint: String,
    pub status: DomainStatus,
    pub was_gifted: bool,
}

/// The mathematical value of a [`DomainInfo`].
pub struct DomainInfoView {
    pub name: Seq<char>,
    pub owner: Seq<u8>,
    pub administrator: Seq<u8>,
    pub operator: Seq<u8>,
    pub canister_id: Seq<u8>,
    pub expiration_time: u64,
    pub mcp_endpoint: Seq<char>,
    pub status: DomainStatus,
    pub was_gifted: bool,
}

impl View for DomainInfo {
    type V = DomainInfoView;

    open spec fn view(&self) -> DomainInfoView {
        DomainInfoView {
            name: self.name@,
            owner: self.owner@,
            administrator: self.administrator@,
            operator: self.operator@,
            canister_id: self.canister_id@,
            expiration_time: self.expiration_time,
            mcp_endpoint: self.mcp_endpoint@,
            status: self.status,
            was_gifted: self.was_gifted,
        }
    }
}

/// One name found by a search.
#[derive(Debug, PartialEq, Eq)]
pub struct SearchResult {
    pub domain: String,
    pub description: String,
    pub mcp_endpoint: String,
    pub tools_count: u32,
    pub resources_count: u32,
    pub was_gifted: bool,
}

/// The mathematical value of a [`SearchResult`].
pub struct SearchResultView {
    pub domain: Seq<char>,
    pub description: Seq<char>,
    pub mcp_endpoint: Seq<char>,
    pub tools_count: u32,
    pub resources_count: u32,
    pub was_gifted: bool,
}

impl View for SearchResult {
    type V = SearchResultView;

    open spec fn view(&self) -> SearchResultView {
        SearchResultView {
            domain: self.domain@,
            description: self.description@,
            mcp_endpoint: self.mcp_endpoint@,
            tools_count: self.tools_count,
            resources_count: self.resources_count,
            was_gifted: self.was_gifted,
        }
    }
}

/// A request to register a name for the caller.
#[derive(Debug, PartialEq, Eq)]
pub struct RegistrationRequest {
    pub domain_name: String,
    pub administrator: Identity,
    pub operator: Identity,
    /// The reference of the payment; recorded, not checked.
    pub payment_block: u64,
}

/// A request of an administrator to give a name to a recipient.
#[derive(Debug, PartialEq, Eq)]
pub struct AdminGiftRequest {
    pub domain_name: String,
    pub recipient: Identity,
    pub administrator: Identity,
    pub operator: Identity,
}

/// A request of an administrator to create a name for a recipient whose
/// address the active season lists.
#[derive(Debug, PartialEq, Eq)]
pub struct AdminCreateDomainRequest {
    pub domain_name: String,
    pub recipient: Identity,
    pub administrator: Identity,
    pub operator: Identity,
    pub recipient_address: String,
}

/// The endpoint of a name that has none of its own.
pub open spec fn default_endpoint(name: Seq<char>) -> Seq<char> {
    "https://mcp.ctx.xyz/"@ + name
}

/// The endpoint in force for a name: its own, or else the default.
pub open spec fn endpoint_of(name: Seq<char>, record: DomainRecordView) -> Seq<char> {
    match record.custom_mcp_endpoint {
        Some(e) => e,
        None => default_endpoint(name),
    }
}

/// The status of a record at a time: active strictly before its
/// expiration, expired from then on.
pub open spec fn status_at(record: DomainRecordView, now: u64) -> DomainStatus {
    if record.expiration_time > now {
        DomainStatus::Active
    } else {
        DomainStatus::Expired
    }
}

/// What is reported of a name at a time.
pub open spec fn info_of(name: Seq<char>, record: DomainRecordView, now: u64) -> DomainInfoView {
    DomainInfoView {
        name,
        owner: record.owner,
        administrator: record.administrator,
        operator: record.operator,
        canister_id: record.canister_id,
        expiration_time: record.expiration_time,
        mcp_endpoint: endpoint_of(name, record),
        status: status_at(record, now),
        was_gifted: record.was_gifted,
    }
}

/// The line that describes a name in a search result.
pub open spec fn description_of(name: Seq<char>, was_gifted: bool) -> Seq<char> {
    "Domain "@ + name + " - "@ + if was_gifted {
        "Admin Gift"@
    } else {
        "Registered"@
    }
}

/// What a search reports of a name.
pub open spec fn search_result_of(name: Seq<char>, record: DomainRecordView) -> SearchResultView {
    SearchResultView {
        domain: name,
        description: description_of(name, record.was_gifted),
        mcp_endpoint: endpoint_of(name, record),
        tools_count: 0,
        resources_count: 0,
        was_gifted: record.was_gifted,
    }
}

/// A name can be registered at a time when no record is stored under it, or
/// the stored record expired before that time.
pub open spec fn is_available(
    domains: Seq<(Seq<char>, DomainRecordView)>,
    name: Seq<char>,
    now: u64,
) -> bool {
    match lookup(domains, name) {
        Some(record) => record.expiration_time < now,
        None => true,
    }
}

/// The selection of `list`: everything, or the names of one owner.
pub open spec fn listed(owner: Option<Seq<u8>>, now: u64) -> spec_fn(
    (Seq<char>, DomainRecordView),
) -> Option<DomainInfoView> {
    |e: (Seq<char>, DomainRecordView)|
        if owner is None || e.1.owner == owner->0 {
            Some(info_of(e.0, e.1, now))
        } else {
            None
        }
}

/// The selection of `find_since`: the names registered after `timestamp`.
pub open spec fn registered_since(timestamp: u64, now: u64) -> spec_fn(
    (Seq<char>, DomainRecordView),
) -> Option<(Seq<char>, DomainInfoView)> {
    |e: (Seq<char>, DomainRecordView)|
        if e.1.registration_time > timestamp {
            Some((e.0, info_of(e.0, e.1, now)))
        } else {
            None
        }
}

/// The selection of `all_with_timestamps`: every name, with the time of its
/// registration.
pub open spec fn with_timestamp(now: u64) -> spec_fn((Seq<char>, DomainRecordView)) -> Option<
    (Seq<char>, u64, DomainInfoView),
> {
    |e: (Seq<char>, DomainRecordView)| Some((e.0, e.1.registration_time, info_of(e.0, e.1, now)))
}

/// The selection of `search`: the names in force that the query matches.
pub open spec fn found_by(query: Seq<char>, now: u64) -> spec_fn(
    (Seq<char>, DomainRecordView),
) -> Option<SearchResultView> {
    |e: (Seq<char>, DomainRecordView)|
        if e.1.expiration_time > now && query_matches(query, e.0) {
            Some(search_result_of(e.0, e.1))
        } else {
            None
        }
}

/// The endpoint in force for a name.
pub fn effective_endpoint(name: &String, record: &DomainRecord) -> (r: String)
    ensures
        r@ == endpoint_of(name@, record@),
{
    match &record.custom_mcp_endpoint {
        Some(e) => e.clone(),
        None => {
            let mut s = "https://mcp.ctx.xyz/".to_owned();
            s.append(name.as_str());
            s
        },
    }
}

/// What is reported of a name at a time.
pub fn domain_info(name: &String, record: &DomainRecord, now: u64) -> (r: DomainInfo)
    ensures
        r@ == info_of(name@, record@, now),
{
    let status = if record.expiration_time > now {
        DomainStatus::Active
    } else {
        DomainStatus::Expired
    };
    DomainInfo {
        name: name.clone(),
        owner: record.owner.clone(),
        administrator: record.administrator.clone(),
        operator: record.operator.clone(),
        canister_id: record.canister_id.clone(),
        expiration_time: record.expiration_time,
        mcp_endpoint: effective_endpoint(name, record),
        status,
        was_gifted: record.was_gifted,
    }
}

/// What a search reports of a name.
pub fn search_result(name: &String, record: &DomainRecord) -> (r: SearchResult)
    ensures
        r@ == search_result_of(name@, record@),
{
    let mut description = "Domain ".to_owned();
    description.append(name.as_str());
    description.append(" - ");
    if record.was_gifted {
        description.append("Admin Gift");
    } else {
        description.append("Registered");
    }
    SearchResult {
        domain: name.clone(),
        description,
        mcp_endpoint: effective_endpoint(name, record),
        tools_count: 0,
        resources_count: 0,
        was_gifted: record.was_gifted,
    }
}

/// The records of the registry, by name. A record is never deleted: it is
/// overwritten when its name is registered again after it expired.
pub struct RegistryStore {
    records: KeyMap<String, DomainRecord>,
}

impl View for RegistryStore {
    type V = Seq<(Seq<char>, DomainRecordView)>;

    closed spec fn view(&self) -> Seq<(Seq<char>, DomainRecordView)> {
        self.records@
    }
}

impl RegistryStore {
    /// The invariant of the store: no name is stored twice.
    pub open spec fn wf(&self) -> bool {
        crate::collections::distinct_keys(self@)
    }

    /// An empty store.
    pub fn new() -> (r: Self)
        ensures
            r.wf(),
            r@ == Seq::<(Seq<char>, DomainRecordView)>::empty(),
    {
        RegistryStore { records: KeyMap::new() }
    }

    /// The number of records.
    pub fn len(&self) -> (n: usize)
        ensures
            n == self@.len(),
    {
        self.records.len()
    }

    /// The record stored under `name`.
    pub fn get(&self, name: &str) -> (r: Option<&DomainRecord>)
        requires
            self.wf(),
        ensures
            match r {
                Some(record) => lookup(self@, name@) == Some(record@),
                None => lookup(self@, name@) is None,
            },
    {
        let owned = name.to_owned();
        self.records.get(&owned)
    }

    /// Whether `name` can be registered at the time `now`.
    pub fn is_available(&self, name: &str, now: u64) -> (r: bool)
        requires
            self.wf(),
        ensures
            r == is_available(self@, name@, now),
    {
        match self.get(name) {
            Some(record) => record.expiration_time < now,
            None => true,
        }
    }

    /// Stores `record` under `name`, whatever was stored there.
    pub fn put(&mut self, name: String, record: DomainRecord)
        requires
            old(self).wf(),
        ensures
            final(self).wf(),
            final(self)@ == upsert(old(self)@, name@, record@),
    {
        self.records.put(name, record);
    }

    /// What is reported at the time `now` of every name, or of the names of
    /// one owner, in the order in which the names were first registered.
    pub fn list(&self, owner: Option<&Identity>, now: u64) -> (r: Vec<DomainInfo>)
        ensures
            r@.map_values(|i: DomainInfo| i@) == self@.filter_map(
                listed(
                    match owner {
                        Some(o) => Some(o@),
                        None => None,
                    },
                    now,
                ),
            ),
    {
        let ghost wanted: Option<Seq<u8>> = match owner {
            Some(o) => Some(o@),
            None => None,
        };
        let ghost f = listed(wanted, now);
        let n = self.records.len();
        let mut out: Vec<DomainInfo> = Vec::new();
        let mut i: usize = 0;
        assert(self@.take(0).filter_map(f) =~= Seq::<DomainInfoView>::empty());
        while i < n
            invariant
                n == self@.len(),
                i <= n,
                f == listed(wanted, now),
                wanted == match owner {
                    Some(o) => Some(o@),
                    None => None::<Seq<u8>>,
                },
                out@.map_values(|i: DomainInfo| i@) =~= self@.take(i as int).filter_map(f),
            decreases n - i,
        {
            let (name, record) = self.records.entry(i);
            let keep = match owner {
                Some(o) => record.owner.same_as(o),
                None => true,
            };
            proof {
                lemma_filter_map_step(self@, f, i as int);
            }
            if keep {
                let ghost before = out@.map_values(|i: DomainInfo| i@);
                let info = domain_info(name, record, now);
                out.push(info);
                assert(out@.map_values(|i: DomainInfo| i@) =~= before.push(
                    info_of(name@, record@, now),
                ));
            }
            i += 1;
        }
        assert(self@.take(n as int) =~= self@);
        out
    }

    /// The names registered after `timestamp`, each with what is reported
    /// of it at the time `now`.
    pub fn find_since(&self, timestamp: u64, now: u64) -> (r: Vec<(String, DomainInfo)>)
        ensures
            r@.map_values(|e: (String, DomainInfo)| (e.0@, e.1@)) == self@.filter_map(
                registered_since(timestamp, now),
            ),
    {
        let ghost f = registered_since(timestamp, now);
        let n = self.records.len();
        let mut out: Vec<(String, DomainInfo)> = Vec::new();
        let mut i: usize = 0;
        assert(self@.take(0).filter_map(f) =~= Seq::<(Seq<char>, DomainInfoView)>::empty());
        while i < n
            invariant
                n == self@.len(),
                i <= n,
                f == registered_since(timestamp, now),
                out@.map_values(|e: (String, DomainInfo)| (e.0@, e.1@)) =~= self@.take(
                    i as int,
                ).filter_map(f),
            decreases n - i,
        {
            let (name, record) = self.records.entry(i);
            proof {
                lemma_filter_map_step(self@, f, i as int);
            }
            if record.registration_time > timestamp {
                let ghost before = out@.map_values(|e: (String, DomainInfo)| (e.0@, e.1@));
                let info = domain_info(name, record, now);
                out.push((name.clone(), info));
                assert(out@.map_values(|e: (String, DomainInfo)| (e.0@, e.1@)) =~= before.push(
                    (name@, info_of(name@, record@, now)),
                ));
            }
            i += 1;
        }
        assert(self@.take(n as int) =~= self@);
        out
    }

    /// Every name, with the time of its registration and what is reported
    /// of it at the time `now`.
    pub fn all_with_timestamps(&self, now: u64) -> (r: Vec<(String, u64, DomainInfo)>)
        ensures
            r@.map_values(|e: (String, u64, DomainInfo)| (e.0@, e.1, e.2@)) == self@.filter_map(
                with_timestamp(now),
            ),
    {
        let ghost f = with_timestamp(now);
        let n = self.records.len();
        let mut out: Vec<(String, u64, DomainInfo)> = Vec::new();
        let mut i: usize = 0;
        assert(self@.take(0).filter_map(f) =~= Seq::<(Seq<char>, u64, DomainInfoView)>::empty());
        while i < n
            invariant
                n == self@.len(),
                i <= n,
                f == with_timestamp(now),
                out@.map_values(|e: (String, u64, DomainInfo)| (e.0@, e.1, e.2@)) =~= self@.take(
                    i as int,
                ).filter_map(f),
            decreases n - i,
        {
            let (name, record) = self.records.entry(i);
            proof {
                lemma_filter_map_step(self@, f, i as int);
            }
            let ghost before = out@.map_values(|e: (String, u64, DomainInfo)| (e.0@, e.1, e.2@));
            let info = domain_info(name, record, now);
            out.push((name.clone(), record.registration_time, info));
            assert(out@.map_values(|e: (String, u64, DomainInfo)| (e.0@, e.1, e.2@))
                =~= before.push((name@, record@.registration_time, info_of(name@, record@, now))));
            i += 1;
        }
        assert(self@.take(n as int) =~= self@);
        out
    }

    /// The names in force at the time `now` that `query` matches, ignoring
    /// case; an empty query matches them all.
    pub fn search(&self, query: &str, now: u64) -> (r: Vec<SearchResult>)
        ensures
            r@.map_values(|s: SearchResult| s@) == self@.filter_map(found_by(query@, now)),
    {
        let ghost f = found_by(query@, now);
        let n = self.records.len();
        let mut out: Vec<SearchResult> = Vec::new();
        let mut i: usize = 0;
        assert(self@.take(0).filter_map(f) =~= Seq::<SearchResultView>::empty());
        while i < n
            invariant
                n == self@.len(),
                i <= n,
                f == found_by(query@, now),
                out@.map_values(|s: SearchResult| s@) =~= self@.take(i as int).filter_map(f),
            decreases n - i,
        {
            let (name, record) = self.records.entry(i);
            proof {
                lemma_filter_map_step(self@, f, i as int);
            }
            if record.expiration_time > now && matches_query(query, name.as_str()) {
                let ghost before = out@.map_values(|s: SearchResult| s@);
                let found = search_result(name, record);
                out.push(found);
                assert(out@.map_values(|s: SearchResult| s@) =~= before.push(
                    search_result_of(name@, record@),
                ));
            }
            i += 1;
        }
        assert(self@.take(n as int) =~= self@);
        out
    }
}

} // verus!
