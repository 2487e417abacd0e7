//! The season ledger: pricing and capacity tiers, and the search for the
//! cheapest tier that a name may use.

use crate::collections::lemma_filter_map_step;
use crate::identity::Identity;
use vstd::prelude::*;

verus! {

/// The largest admissible value for a season's length bounds.
pub const MAX_LETTERS: u64 = 64;

/// The number of fee units in one unit of price.
pub const E8S_PER_ICP: u64 = 100_000_000;

/// The life cycle of a season. `Completed` and `Deactivated` are final.
#[derive(Clone, Copy, Debug, PartialEq, Eq, Structural)]
pub enum SeasonStatus {
    Active,
    Completed,
    Deactivated,
}

/// A pricing and capacity tier.
#[derive(Debug, PartialEq, Eq)]
pub struct RegistrationSeason {
    pub season_id: u64,
    pub min_letters: u64,
    /// `None` means that there is no upper limit.
    pub max_letters: Option<u64>,
    pub total_allowed: u64,
    pub registered_count: u64,
    /// The price of one name, in whole units.
    pub price_icp: u64,
    pub created_by: Identity,
    pub created_at: u64,
    pub status: SeasonStatus,
}

/// The mathematical value of a [`RegistrationSeason`].
pub struct SeasonView {
    pub season_id: u64,
    pub min_letters: u64,
    pub max_letters: Option<u64>,
    pub total_allowed: u64,
    pub registered_count: u64,
    pub price_icp: u64,
    pub created_by: Seq<u8>,
    pub created_at: u64,
    pub status: SeasonStatus,
}

impl View for RegistrationSeason {
    type V = SeasonView;

    open spec fn view(&self) -> SeasonView {
        SeasonView {
            season_id: self.season_id,
            min_letters: self.min_letters,
            max_letters: self.max_letters,
            total_allowed: self.total_allowed,
            registered_count: self.registered_count,
            price_icp: self.price_icp,
            created_by: self.created_by@,
            created_at: self.created_at,
            status: self.status,
        }
    }
}

impl Clone for RegistrationSeason {
    fn clone(&self) -> (r: Self)
        ensures
            r@ == self@,
    {
        RegistrationSeason {
            season_id: self.season_id,
            min_letters: self.min_letters,
            max_letters: self.max_letters,
            total_allowed: self.total_allowed,
            registered_count: self.registered_count,
            price_icp: self.price_icp,
            created_by: self.created_by.clone(),
            created_at: self.created_at,
            status: self.status,
        }
    }
}

/// The parameters of a season to be created.
#[derive(Clone, Copy, Debug, PartialEq, Eq, Structural)]
pub struct CreateSeasonRequest {
    pub min_letters: u64,
    pub max_letters: Option<u64>,
    pub total_allowed: u64,
    pub price_icp: u64,
}

/// The figures of a season.
#[derive(Clone, Copy, Debug, PartialEq, Eq, Structural)]
pub struct SeasonStats {
    pub season_number: u64,
    pub names_available: u64,
    pub names_taken: u64,
    pub price_icp: u64,
    pub status: SeasonStatus,
}

/// Why a season could not be created.
#[derive(Clone, Copy, Debug, PartialEq, Eq, Structural)]
pub enum CreateSeasonError {
    /// The caller is not an administrator.
    NotAdmin,
    /// The lower length bound is not between 1 and 64.
    InvalidMinLetters,
    /// The upper length bound is below the lower one, or above 64.
    InvalidMaxLetters,
    /// The capacity is zero.
    ZeroCapacity,
    /// The price is zero.
    ZeroPrice,
    /// Another season is active.
    ActiveSeasonExists,
    /// No id is left for another season.
    TooManySeasons,
}

/// Why a slot could not be reserved.
#[derive(Clone, Copy, Debug, PartialEq, Eq, Structural)]
pub enum SlotError {
    /// There is no season with that id.
    NotFound,
    /// The season has no capacity left.
    Full,
}

/// Why a season could not be deactivated.
#[derive(Clone, Copy, Debug, PartialEq, Eq, Structural)]
pub enum DeactivateError {
    /// The caller is not an administrator.
    NotAdmin,
    /// There is no season with that id.
    NotFound,
}

/// The season still has a free slot.
pub open spec fn has_capacity(s: SeasonView) -> bool {
    s.registered_count < s.total_allowed
}

/// The season accepts names of the given length.
pub open spec fn admits_length(s: SeasonView, length: nat) -> bool {
    s.min_letters <= length && (s.max_letters is None || length <= s.max_letters->0)
}

/// The season can take a registration of a name of the given length.
pub open spec fn applicable(s: SeasonView, length: nat) -> bool {
    s.status == SeasonStatus::Active && admits_length(s, length) && has_capacity(s)
}

/// `a` is chosen before `b`: it is cheaper, or as cheap with an id that is
/// not higher.
pub open spec fn preferred(a: SeasonView, b: SeasonView) -> bool {
    a.price_icp < b.price_icp || (a.price_icp == b.price_icp && a.season_id <= b.season_id)
}

/// Position `i` holds the season that a name of the given length is
/// allocated from: it is applicable, no applicable season is chosen before
/// it, and among equals it stands first.
pub open spec fn is_cheapest_applicable(seasons: Seq<SeasonView>, length: nat, i: int) -> bool {
    &&& 0 <= i < seasons.len()
    &&& applicable(seasons[i], length)
    &&& forall|j: int|
        0 <= j < seasons.len() && applicable(#[trigger] seasons[j], length) ==> preferred(
            seasons[i],
            seasons[j],
        )
    &&& forall|j: int|
        0 <= j < i && applicable(#[trigger] seasons[j], length) ==> !preferred(
            seasons[j],
            seasons[i],
        )
}

/// The position of the season that a name of the given length is allocated
/// from, if there is one.
pub open spec fn cheapest_applicable(seasons: Seq<SeasonView>, length: nat) -> Option<int> {
    if exists|i: int| is_cheapest_applicable(seasons, length, i) {
        Some(choose|i: int| is_cheapest_applicable(seasons, length, i))
    } else {
        None
    }
}

/// At most one position is the cheapest applicable one.
pub proof fn lemma_cheapest_unique(seasons: Seq<SeasonView>, length: nat, i: int, j: int)
    requires
        is_cheapest_applicable(seasons, length, i),
        is_cheapest_applicable(seasons, length, j),
    ensures
        i == j,
{
    if i < j {
        assert(applicable(seasons[i], length));
        assert(preferred(seasons[j], seasons[i]));
    } else if j < i {
        assert(applicable(seasons[j], length));
        assert(preferred(seasons[i], seasons[j]));
    }
}

/// Finds the season that a name of `name_length` bytes is allocated from:
/// among the active seasons that admit the length and have capacity, the one
/// with the lowest price, and among those the one with the lowest id.
pub fn cheapest_applicable_index(seasons: &Vec<RegistrationSeason>, name_length: u64) -> (r:
    Option<usize>)
    ensures
        match r {
            Some(i) => is_cheapest_applicable(
                seasons@.map_values(|s: RegistrationSeason| s@),
                name_length as nat,
                i as int,
            ),
            None => forall|j: int|
                0 <= j < seasons@.len() ==> !applicable((#[trigger] seasons@[j])@, name_length as nat),
        },
        cheapest_applicable(seasons@.map_values(|s: RegistrationSeason| s@), name_length as nat)
            == match r {
            Some(i) => Some(i as int),
            None => None::<int>,
        },
{
    let ghost views = seasons@.map_values(|s: RegistrationSeason| s@);
    let ghost length = name_length as nat;
    let n = seasons.len();
    let mut best: Option<usize> = None;
    let mut i: usize = 0;
    while i < n
        invariant
            n == seasons@.len(),
            i <= n,
            views == seasons@.map_values(|s: RegistrationSeason| s@),
            length == name_length as nat,
            match best {
                Some(b) => b < i && is_cheapest_applicable(views.take(i as int), length, b as int),
                None => forall|j: int| 0 <= j < i ==> !applicable(#[trigger] views[j], length),
            },
        decreases n - i,
    {
        let s = &seasons[i];
        assert(views[i as int] == s@);
        let fits = s.min_letters <= name_length && match s.max_letters {
            Some(max) => name_length <= max,
            None => true,
        };
        let open = match s.status {
            SeasonStatus::Active => true,
            _ => false,
        };
        let ghost before = views.take(i as int);
        let ghost after = views.take(i as int + 1);
        assert forall|j: int| 0 <= j < i implies #[trigger] after[j] == before[j] by {}
        assert(after[i as int] == views[i as int]);
        if open && fits && s.registered_count < s.total_allowed {
            assert(applicable(views[i as int], length));
            match best {
                Some(b) => {
                    let current = &seasons[b];
                    assert(views[b as int] == current@);
                    if s.price_icp < current.price_icp || (s.price_icp == current.price_icp
                        && s.season_id < current.season_id) {
                        assert forall|j: int|
                            0 <= j < after.len() && applicable(#[trigger] after[j], length) implies preferred(
                            after[i as int],
                            after[j],
                        ) by {
                            if j < i {
                                assert(preferred(before[b as int], before[j]));
                            }
                        }
                        assert forall|j: int|
                            0 <= j < i && applicable(#[trigger] after[j], length) implies !preferred(
                            after[j],
                            after[i as int],
                        ) by {
                            assert(preferred(before[b as int], before[j]));
                        }
                        best = Some(i);
                    } else {
                        assert forall|j: int|
                            0 <= j < after.len() && applicable(#[trigger] after[j], length) implies preferred(
                            after[b as int],
                            after[j],
                        ) by {
                            if j < i {
                                assert(preferred(before[b as int], before[j]));
                            }
                        }
                        assert forall|j: int|
                            0 <= j < b && applicable(#[trigger] after[j], length) implies !preferred(
                            after[j],
                            after[b as int],
                        ) by {
                            assert(applicable(before[j], length));
                        }
                    }
                },
                None => {
                    assert forall|j: int|
                        0 <= j < after.len() && applicable(#[trigger] after[j], length) implies preferred(
                        after[i as int],
                        after[j],
                    ) by {
                        if j < i {
                            assert(!applicable(views[j], length));
                        }
                    }
                    assert forall|j: int|
                        0 <= j < i && applicable(#[trigger] after[j], length) implies !preferred(
                        after[j],
                        after[i as int],
                    ) by {
                        assert(!applicable(views[j], length));
                    }
                    best = Some(i);
                },
            }
        } else {
            assert(!applicable(views[i as int], length));
            match best {
                Some(b) => {
                    assert forall|j: int|
                        0 <= j < after.len() && applicable(#[trigger] after[j], length) implies preferred(
                        after[b as int],
                        after[j],
                    ) by {
                        if j < i {
                            assert(preferred(before[b as int], before[j]));
                        }
                    }
                    assert forall|j: int|
                        0 <= j < b && applicable(#[trigger] after[j], length) implies !preferred(
                        after[j],
                        after[b as int],
                    ) by {
                        assert(applicable(before[j], length));
                    }
                },
                None => {},
            }
        }
        i += 1;
    }
    assert(views.take(n as int) =~= views);
    proof {
        match best {
            Some(b) => {
                assert(is_cheapest_applicable(views, length, b as int));
                let c = choose|k: int| is_cheapest_applicable(views, length, k);
                lemma_cheapest_unique(views, length, b as int, c);
            },
            None => {
                assert forall|j: int| 0 <= j < seasons@.len() implies !applicable(
                    (#[trigger] seasons@[j])@,
                    length,
                ) by {
                    assert(views[j] == seasons@[j]@);
                }
            },
        }
    }
    best
}

/// What holds of every season: its bounds are those that creation checks,
/// it never holds more names than it allows, and it is active only while a
/// slot is free.
pub open spec fn valid_season(s: SeasonView) -> bool {
    &&& 1 <= s.min_letters <= MAX_LETTERS
    &&& s.max_letters is Some ==> s.min_letters <= s.max_letters->0 <= MAX_LETTERS
    &&& s.total_allowed > 0
    &&& s.price_icp > 0
    &&& s.registered_count <= s.total_allowed
    &&& s.status == SeasonStatus::Active ==> s.registered_count < s.total_allowed
}

/// The invariant of the ledger: ids count up from 1, every season is valid,
/// and at most one season is active.
pub open spec fn ledger_wf(seasons: Seq<SeasonView>) -> bool {
    &&& forall|i: int|
        0 <= i < seasons.len() ==> (#[trigger] seasons[i]).season_id == i + 1 && valid_season(
            seasons[i],
        )
    &&& forall|i: int, j: int|
        0 <= i < seasons.len() && 0 <= j < seasons.len() && (#[trigger] seasons[i]).status
            == SeasonStatus::Active && (#[trigger] seasons[j]).status == SeasonStatus::Active
            ==> i == j
}

/// The position of the season with the given id.
pub open spec fn season_position(seasons: Seq<SeasonView>, season_id: u64) -> Option<int> {
    if 1 <= season_id <= seasons.len() {
        Some(season_id - 1)
    } else {
        None
    }
}

/// The season with the given id.
pub open spec fn season_with_id(seasons: Seq<SeasonView>, season_id: u64) -> Option<SeasonView> {
    match season_position(seasons, season_id) {
        Some(i) => Some(seasons[i]),
        None => None,
    }
}

/// Some season is active.
pub open spec fn has_active(seasons: Seq<SeasonView>) -> bool {
    exists|i: int| 0 <= i < seasons.len() && (#[trigger] seasons[i]).status == SeasonStatus::Active
}

/// The position of an active season.
pub open spec fn active_position(seasons: Seq<SeasonView>) -> int {
    choose|i: int| 0 <= i < seasons.len() && (#[trigger] seasons[i]).status == SeasonStatus::Active
}

/// The active season, if there is one.
pub open spec fn active_season(seasons: Seq<SeasonView>) -> Option<SeasonView> {
    if has_active(seasons) {
        Some(seasons[active_position(seasons)])
    } else {
        None
    }
}

/// The season after one more name was allocated from it: an active season
/// that thereby becomes full is completed.
pub open spec fn slot_reserved(s: SeasonView) -> SeasonView {
    SeasonView {
        registered_count: (s.registered_count + 1) as u64,
        status: if s.status == SeasonStatus::Active && s.registered_count + 1 >= s.total_allowed {
            SeasonStatus::Completed
        } else {
            s.status
        },
        ..s
    }
}

/// The season after an allocation was undone: the count goes down, but not
/// below zero, and the status stays as it is.
pub open spec fn slot_released(s: SeasonView) -> SeasonView {
    SeasonView {
        registered_count: if s.registered_count > 0 {
            (s.registered_count - 1) as u64
        } else {
            0
        },
        ..s
    }
}

/// The season after deactivation: only an active season changes.
pub open spec fn season_deactivated(s: SeasonView) -> SeasonView {
    SeasonView {
        status: if s.status == SeasonStatus::Active {
            SeasonStatus::Deactivated
        } else {
            s.status
        },
        ..s
    }
}

/// Why a slot of the season with the given id cannot be reserved, if it
/// cannot.
pub open spec fn reservation_rejection(seasons: Seq<SeasonView>, season_id: u64) -> Option<
    SlotError,
> {
    match season_with_id(seasons, season_id) {
        None => Some(SlotError::NotFound),
        Some(s) => if has_capacity(s) {
            None
        } else {
            Some(SlotError::Full)
        },
    }
}

/// The ledger after a slot of the season with the given id was reserved.
pub open spec fn with_slot_reserved(seasons: Seq<SeasonView>, season_id: u64) -> Seq<SeasonView> {
    match season_position(seasons, season_id) {
        Some(i) => seasons.update(i, slot_reserved(seasons[i])),
        None => seasons,
    }
}

/// The ledger after a slot of the season with the given id was released.
pub open spec fn with_slot_released(seasons: Seq<SeasonView>, season_id: u64) -> Seq<SeasonView> {
    match season_position(seasons, season_id) {
        Some(i) => seasons.update(i, slot_released(seasons[i])),
        None => seasons,
    }
}

/// The ledger after the season with the given id was deactivated.
pub open spec fn with_season_deactivated(seasons: Seq<SeasonView>, season_id: u64) -> Seq<
    SeasonView,
> {
    match season_position(seasons, season_id) {
        Some(i) => seasons.update(i, season_deactivated(seasons[i])),
        None => seasons,
    }
}

/// What is wrong with the request for a season, if anything: the lower
/// bound is checked first, then the upper bound, the capacity and the price.
pub open spec fn request_fault(request: CreateSeasonRequest) -> Option<CreateSeasonError> {
    if request.min_letters == 0 || request.min_letters > MAX_LETTERS {
        Some(CreateSeasonError::InvalidMinLetters)
    } else if request.max_letters is Some && (request.max_letters->0 < request.min_letters
        || request.max_letters->0 > MAX_LETTERS) {
        Some(CreateSeasonError::InvalidMaxLetters)
    } else if request.total_allowed == 0 {
        Some(CreateSeasonError::ZeroCapacity)
    } else if request.price_icp == 0 {
        Some(CreateSeasonError::ZeroPrice)
    } else {
        None
    }
}

/// Why the ledger refuses to create the requested season, if it does: for
/// a fault of the request, or else because a season is active, or else
/// because the ids, which are 64 bits wide, are used up.
pub open spec fn creation_rejection(
    seasons: Seq<SeasonView>,
    request: CreateSeasonRequest,
) -> Option<CreateSeasonError> {
    match request_fault(request) {
        Some(e) => Some(e),
        None => if has_active(seasons) {
            Some(CreateSeasonError::ActiveSeasonExists)
        } else if seasons.len() >= u64::MAX {
            Some(CreateSeasonError::TooManySeasons)
        } else {
            None
        },
    }
}

/// The season that a request creates in the given ledger.
pub open spec fn created_season(
    seasons: Seq<SeasonView>,
    request: CreateSeasonRequest,
    creator: Seq<u8>,
    now: u64,
) -> SeasonView {
    SeasonView {
        season_id: (seasons.len() + 1) as u64,
        min_letters: request.min_letters,
        max_letters: request.max_letters,
        total_allowed: request.total_allowed,
        registered_count: 0,
        price_icp: request.price_icp,
        created_by: creator,
        created_at: now,
        status: SeasonStatus::Active,
    }
}

/// The figures of a season.
pub open spec fn stats_of(s: SeasonView) -> SeasonStats {
    SeasonStats {
        season_number: s.season_id,
        names_available: s.total_allowed,
        names_taken: s.registered_count,
        price_icp: s.price_icp,
        status: s.status,
    }
}

/// The fee for one name of the season, in fee units.
pub open spec fn fee_of(s: SeasonView) -> int {
    s.price_icp * E8S_PER_ICP
}

/// The season that a number stands for: 0 for the season created last, any
/// other number for the season with that id.
pub open spec fn season_by_number(seasons: Seq<SeasonView>, number: u64) -> Option<SeasonView> {
    if number == 0 {
        if seasons.len() > 0 {
            Some(seasons.last())
        } else {
            None
        }
    } else {
        season_with_id(seasons, number)
    }
}

/// The selection of the active seasons.
pub open spec fn if_active() -> spec_fn(SeasonView) -> Option<SeasonView> {
    |s: SeasonView|
        if s.status == SeasonStatus::Active {
            Some(s)
        } else {
            None
        }
}

/// The selection of all seasons.
pub open spec fn every_season() -> spec_fn(SeasonView) -> Option<SeasonView> {
    |s: SeasonView| Some(s)
}

/// The selection of the figures of all seasons.
pub open spec fn every_stats() -> spec_fn(SeasonView) -> Option<SeasonStats> {
    |s: SeasonView| Some(stats_of(s))
}

/// In a well-formed ledger the active season is the only one that can be
/// applicable, so the search for the cheapest season finds it or nothing.
pub proof fn lemma_active_is_unique(seasons: Seq<SeasonView>, i: int)
    requires
        ledger_wf(seasons),
        0 <= i < seasons.len(),
        seasons[i].status == SeasonStatus::Active,
    ensures
        has_active(seasons),
        active_position(seasons) == i,
        active_season(seasons) == Some(seasons[i]),
{
    assert(has_active(seasons));
    let j = active_position(seasons);
    assert(seasons[j].status == SeasonStatus::Active);
}

/// Reserving a slot keeps the ledger well-formed.
pub proof fn lemma_reserve_keeps_wf(seasons: Seq<SeasonView>, season_id: u64)
    requires
        ledger_wf(seasons),
        reservation_rejection(seasons, season_id) is None,
    ensures
        ledger_wf(with_slot_reserved(seasons, season_id)),
{
    let after = with_slot_reserved(seasons, season_id);
    let p = season_id - 1;
    assert forall|i: int| 0 <= i < after.len() implies (#[trigger] after[i]).season_id == i + 1
        && valid_season(after[i]) by {
        assert(valid_season(seasons[i]));
    }
    assert forall|i: int, j: int|
        0 <= i < after.len() && 0 <= j < after.len() && (#[trigger] after[i]).status
            == SeasonStatus::Active && (#[trigger] after[j]).status
            == SeasonStatus::Active implies i == j by {
        assert(seasons[i].status == SeasonStatus::Active);
        assert(seasons[j].status == SeasonStatus::Active);
    }
}

/// Releasing a slot keeps the ledger well-formed.
pub proof fn lemma_release_keeps_wf(seasons: Seq<SeasonView>, season_id: u64)
    requires
        ledger_wf(seasons),
    ensures
        ledger_wf(with_slot_released(seasons, season_id)),
{
    let after = with_slot_released(seasons, season_id);
    assert forall|i: int| 0 <= i < after.len() implies (#[trigger] after[i]).season_id == i + 1
        && valid_season(after[i]) by {
        assert(valid_season(seasons[i]));
    }
    assert forall|i: int, j: int|
        0 <= i < after.len() && 0 <= j < after.len() && (#[trigger] after[i]).status
            == SeasonStatus::Active && (#[trigger] after[j]).status
            == SeasonStatus::Active implies i == j by {
        assert(seasons[i].status == SeasonStatus::Active);
        assert(seasons[j].status == SeasonStatus::Active);
    }
}

/// Deactivating a season keeps the ledger well-formed.
pub proof fn lemma_deactivate_keeps_wf(seasons: Seq<SeasonView>, season_id: u64)
    requires
        ledger_wf(seasons),
    ensures
        ledger_wf(with_season_deactivated(seasons, season_id)),
{
    let after = with_season_deactivated(seasons, season_id);
    assert forall|i: int| 0 <= i < after.len() implies (#[trigger] after[i]).season_id == i + 1
        && valid_season(after[i]) by {
        assert(valid_season(seasons[i]));
    }
    assert forall|i: int, j: int|
        0 <= i < after.len() && 0 <= j < after.len() && (#[trigger] after[i]).status
            == SeasonStatus::Active && (#[trigger] after[j]).status
            == SeasonStatus::Active implies i == j by {
        assert(seasons[i].status == SeasonStatus::Active);
        assert(seasons[j].status == SeasonStatus::Active);
    }
}

/// Creating a season keeps the ledger well-formed.
pub proof fn lemma_create_keeps_wf(
    seasons: Seq<SeasonView>,
    request: CreateSeasonRequest,
    creator: Seq<u8>,
    now: u64,
)
    requires
        ledger_wf(seasons),
        creation_rejection(seasons, request) is None,
    ensures
        ledger_wf(seasons.push(created_season(seasons, request, creator, now))),
{
    let after = seasons.push(created_season(seasons, request, creator, now));
    assert forall|i: int| 0 <= i < after.len() implies (#[trigger] after[i]).season_id == i + 1
        && valid_season(after[i]) by {
        if i < seasons.len() {
            assert(valid_season(seasons[i]));
        }
    }
    assert forall|i: int, j: int|
        0 <= i < after.len() && 0 <= j < after.len() && (#[trigger] after[i]).status
            == SeasonStatus::Active && (#[trigger] after[j]).status
            == SeasonStatus::Active implies i == j by {
        if i < seasons.len() {
            assert(seasons[i].status == SeasonStatus::Active);
            assert(has_active(seasons));
        }
        if j < seasons.len() {
            assert(seasons[j].status == SeasonStatus::Active);
            assert(has_active(seasons));
        }
    }
}

/// The seasons of the registry, by id.
pub struct SeasonLedger {
    seasons: Vec<RegistrationSeason>,
}

impl View for SeasonLedger {
    type V = Seq<SeasonView>;

    closed spec fn view(&self) -> Seq<SeasonView> {
        self.seasons@.map_values(|s: RegistrationSeason| s@)
    }
}

impl SeasonLedger {
    /// The invariant of the ledger.
    pub open spec fn wf(&self) -> bool {
        ledger_wf(self@)
    }

    /// A ledger without seasons.
    pub fn new() -> (r: Self)
        ensures
            r.wf(),
            r@ == Seq::<SeasonView>::empty(),
    {
        let r = SeasonLedger { seasons: Vec::new() };
        assert(r@ =~= Seq::<SeasonView>::empty());
        r
    }

    /// The number of seasons ever created.
    pub fn len(&self) -> (n: usize)
        ensures
            n == self@.len(),
    {
        self.seasons.len()
    }

    /// The season at position `i`.
    pub fn at(&self, i: usize) -> (s: &RegistrationSeason)
        requires
            i < self@.len(),
        ensures
            s@ == self@[i as int],
    {
        &self.seasons[i]
    }

    /// The season with the given id.
    pub fn get(&self, season_id: u64) -> (r: Option<&RegistrationSeason>)
        ensures
            match r {
                Some(s) => season_with_id(self@, season_id) == Some(s@),
                None => season_with_id(self@, season_id) is None,
            },
    {
        if season_id == 0 || season_id > self.seasons.len() as u64 {
            None
        } else {
            Some(&self.seasons[(season_id - 1) as usize])
        }
    }

    /// The season that was created last.
    pub fn latest(&self) -> (r: Option<&RegistrationSeason>)
        ensures
            match r {
                Some(s) => self@.len() > 0 && s@ == self@.last(),
                None => self@.len() == 0,
            },
    {
        let n = self.seasons.len();
        if n == 0 {
            None
        } else {
            Some(&self.seasons[n - 1])
        }
    }

    /// The season that a name of `name_length` bytes is allocated from.
    pub fn find_applicable(&self, name_length: u64) -> (r: Option<&RegistrationSeason>)
        ensures
            match r {
                Some(s) => cheapest_applicable(self@, name_length as nat) is Some && s@
                    == self@[cheapest_applicable(self@, name_length as nat)->0],
                None => cheapest_applicable(self@, name_length as nat) is None,
            },
    {
        match cheapest_applicable_index(&self.seasons, name_length) {
            Some(i) => Some(&self.seasons[i]),
            None => None,
        }
    }

    /// The active season, if there is one.
    pub fn current(&self) -> (r: Option<&RegistrationSeason>)
        requires
            self.wf(),
        ensures
            match r {
                Some(s) => active_season(self@) == Some(s@),
                None => active_season(self@) is None,
            },
    {
        let n = self.seasons.len();
        let mut i: usize = 0;
        while i < n
            invariant
                self.wf(),
                n == self@.len(),
                i <= n,
                forall|j: int| 0 <= j < i ==> (#[trigger] self@[j]).status != SeasonStatus::Active,
            decreases n - i,
        {
            match self.seasons[i].status {
                SeasonStatus::Active => {
                    proof {
                        lemma_active_is_unique(self@, i as int);
                    }
                    return Some(&self.seasons[i]);
                },
                _ => {},
            }
            i += 1;
        }
        None
    }

    /// Whether some season is active.
    pub fn has_active_season(&self) -> (r: bool)
        requires
            self.wf(),
        ensures
            r == has_active(self@),
    {
        self.current().is_some()
    }

    /// The season that a number stands for: 0 for the season created last,
    /// any other number for the season with that id.
    pub fn by_number(&self, number: u64) -> (r: Option<&RegistrationSeason>)
        ensures
            match r {
                Some(s) => season_by_number(self@, number) == Some(s@),
                None => season_by_number(self@, number) is None,
            },
    {
        if number == 0 {
            self.latest()
        } else {
            self.get(number)
        }
    }

    /// Copies of all seasons, by id.
    pub fn all(&self) -> (r: Vec<RegistrationSeason>)
        ensures
            r@.map_values(|s: RegistrationSeason| s@) == self@.filter_map(every_season()),
            r@.map_values(|s: RegistrationSeason| s@) == self@,
    {
        let ghost f = every_season();
        let n = self.seasons.len();
        let mut out: Vec<RegistrationSeason> = Vec::new();
        let mut i: usize = 0;
        assert(self@.take(0).filter_map(f) =~= Seq::<SeasonView>::empty());
        while i < n
            invariant
                n == self@.len(),
                i <= n,
                f == every_season(),
                out@.map_values(|s: RegistrationSeason| s@) =~= self@.take(i as int).filter_map(f),
                out@.map_values(|s: RegistrationSeason| s@) =~= self@.take(i as int),
            decreases n - i,
        {
            proof {
                lemma_filter_map_step(self@, f, i as int);
            }
            let ghost before = out@.map_values(|s: RegistrationSeason| s@);
            let season = self.seasons[i].clone();
            assert(season@ == self@[i as int]);
            out.push(season);
            assert(out@.map_values(|s: RegistrationSeason| s@) =~= before.push(self@[i as int]));
            i += 1;
        }
        assert(self@.take(n as int) =~= self@);
        out
    }

    /// Copies of the active seasons, by id.
    pub fn active(&self) -> (r: Vec<RegistrationSeason>)
        ensures
            r@.map_values(|s: RegistrationSeason| s@) == self@.filter_map(if_active()),
    {
        let ghost f = if_active();
        let n = self.seasons.len();
        let mut out: Vec<RegistrationSeason> = Vec::new();
        let mut i: usize = 0;
        assert(self@.take(0).filter_map(f) =~= Seq::<SeasonView>::empty());
        while i < n
            invariant
                n == self@.len(),
                i <= n,
                f == if_active(),
                out@.map_values(|s: RegistrationSeason| s@) =~= self@.take(i as int).filter_map(f),
            decreases n - i,
        {
            proof {
                lemma_filter_map_step(self@, f, i as int);
            }
            assert(self.seasons@[i as int]@ == self@[i as int]);
            let open = match self.seasons[i].status {
                SeasonStatus::Active => true,
                _ => false,
            };
            if open {
                let ghost before = out@.map_values(|s: RegistrationSeason| s@);
                let season = self.seasons[i].clone();
                out.push(season);
                assert(out@.map_values(|s: RegistrationSeason| s@) =~= before.push(self@[i as int]));
            }
            i += 1;
        }
        assert(self@.take(n as int) =~= self@);
        out
    }

    /// The figures of all seasons, by id.
    pub fn all_stats(&self) -> (r: Vec<SeasonStats>)
        ensures
            r@ == self@.filter_map(every_stats()),
    {
        let ghost f = every_stats();
        let n = self.seasons.len();
        let mut out: Vec<SeasonStats> = Vec::new();
        let mut i: usize = 0;
        assert(self@.take(0).filter_map(f) =~= Seq::<SeasonStats>::empty());
        while i < n
            invariant
                n == self@.len(),
                i <= n,
                f == every_stats(),
                out@ =~= self@.take(i as int).filter_map(f),
            decreases n - i,
        {
            proof {
                lemma_filter_map_step(self@, f, i as int);
            }
            assert(self.seasons@[i as int]@ == self@[i as int]);
            out.push(season_stats(&self.seasons[i]));
            i += 1;
        }
        assert(self@.take(n as int) =~= self@);
        out
    }

    /// Takes one slot of the season with the given id. A season without a
    /// free slot refuses; an active season that thereby becomes full is
    /// completed.
    pub fn reserve_slot(&mut self, season_id: u64) -> (r: Result<(), SlotError>)
        requires
            old(self).wf(),
        ensures
            final(self).wf(),
            match r {
                Ok(()) => reservation_rejection(old(self)@, season_id) is None && final(self)@
                    == with_slot_reserved(old(self)@, season_id),
                Err(e) => reservation_rejection(old(self)@, season_id) == Some(e) && final(self)@
                    == old(self)@,
            },
    {
        if season_id == 0 || season_id > self.seasons.len() as u64 {
            return Err(SlotError::NotFound);
        }
        let i = (season_id - 1) as usize;
        let s = &self.seasons[i];
        assert(self@[i as int] == s@);
        if s.registered_count >= s.total_allowed {
            return Err(SlotError::Full);
        }
        let count = s.registered_count + 1;
        let status = match s.status {
            SeasonStatus::Active => if count >= s.total_allowed {
                SeasonStatus::Completed
            } else {
                SeasonStatus::Active
            },
            other => other,
        };
        let updated = RegistrationSeason {
            season_id: s.season_id,
            min_letters: s.min_letters,
            max_letters: s.max_letters,
            total_allowed: s.total_allowed,
            registered_count: count,
            price_icp: s.price_icp,
            created_by: s.created_by.clone(),
            created_at: s.created_at,
            status,
        };
        self.seasons.set(i, updated);
        assert(self@ =~= with_slot_reserved(old(self)@, season_id));
        proof {
            lemma_reserve_keeps_wf(old(self)@, season_id);
        }
        Ok(())
    }

    /// Gives back one slot of the season with the given id, to undo a
    /// reservation. The count does not go below zero, and a season that was
    /// completed stays so. An unknown id changes nothing.
    pub fn release_slot(&mut self, season_id: u64)
        requires
            old(self).wf(),
        ensures
            final(self).wf(),
            final(self)@ == with_slot_released(old(self)@, season_id),
    {
        if season_id == 0 || season_id > self.seasons.len() as u64 {
            return ;
        }
        let i = (season_id - 1) as usize;
        let s = &self.seasons[i];
        assert(self@[i as int] == s@);
        let count = if s.registered_count > 0 {
            s.registered_count - 1
        } else {
            0
        };
        let updated = RegistrationSeason {
            season_id: s.season_id,
            min_letters: s.min_letters,
            max_letters: s.max_letters,
            total_allowed: s.total_allowed,
            registered_count: count,
            price_icp: s.price_icp,
            created_by: s.created_by.clone(),
            created_at: s.created_at,
            status: s.status,
        };
        self.seasons.set(i, updated);
        assert(self@ =~= with_slot_released(old(self)@, season_id));
        proof {
            lemma_release_keeps_wf(old(self)@, season_id);
        }
    }

    /// Creates a season, active and empty, with the next id. Refused for
    /// bounds, a capacity or a price that are out of range, and while
    /// another season is active.
    pub fn create_season(
        &mut self,
        request: CreateSeasonRequest,
        creator: Identity,
        now: u64,
    ) -> (r: Result<u64, CreateSeasonError>)
        requires
            old(self).wf(),
        ensures
            final(self).wf(),
            match r {
                Ok(id) => creation_rejection(old(self)@, request) is None && id == old(self)@.len()
                    + 1 && final(self)@ == old(self)@.push(
                    created_season(old(self)@, request, creator@, now),
                ),
                Err(e) => creation_rejection(old(self)@, request) == Some(e) && final(self)@
                    == old(self)@,
            },
    {
        if request.min_letters == 0 || request.min_letters > MAX_LETTERS {
            return Err(CreateSeasonError::InvalidMinLetters);
        }
        match request.max_letters {
            Some(max) => {
                if max < request.min_letters || max > MAX_LETTERS {
                    return Err(CreateSeasonError::InvalidMaxLetters);
                }
            },
            None => {},
        }
        if request.total_allowed == 0 {
            return Err(CreateSeasonError::ZeroCapacity);
        }
        if request.price_icp == 0 {
            return Err(CreateSeasonError::ZeroPrice);
        }
        if self.has_active_season() {
            return Err(CreateSeasonError::ActiveSeasonExists);
        }
        if self.seasons.len() as u64 == u64::MAX {
            return Err(CreateSeasonError::TooManySeasons);
        }
        let season_id = self.seasons.len() as u64 + 1;
        let ghost creator_view = creator@;
        let season = RegistrationSeason {
            season_id,
            min_letters: request.min_letters,
            max_letters: request.max_letters,
            total_allowed: request.total_allowed,
            registered_count: 0,
            price_icp: request.price_icp,
            created_by: creator,
            created_at: now,
            status: SeasonStatus::Active,
        };
        self.seasons.push(season);
        assert(self@ =~= old(self)@.push(created_season(old(self)@, request, creator_view, now)));
        proof {
            lemma_create_keeps_wf(old(self)@, request, creator_view, now);
        }
        Ok(season_id)
    }

    /// Deactivates the season with the given id. Only an active season
    /// changes: a completed or deactivated one stays as it is.
    pub fn deactivate(&mut self, season_id: u64) -> (r: Result<(), DeactivateError>)
        requires
            old(self).wf(),
        ensures
            final(self).wf(),
            match r {
                Ok(()) => season_with_id(old(self)@, season_id) is Some && final(self)@
                    == with_season_deactivated(old(self)@, season_id),
                Err(e) => e == DeactivateError::NotFound && season_with_id(old(self)@, season_id)
                    is None && final(self)@ == old(self)@,
            },
    {
        if season_id == 0 || season_id > self.seasons.len() as u64 {
            return Err(DeactivateError::NotFound);
        }
        let i = (season_id - 1) as usize;
        let s = &self.seasons[i];
        assert(self@[i as int] == s@);
        let status = match s.status {
            SeasonStatus::Active => SeasonStatus::Deactivated,
            other => other,
        };
        let updated = RegistrationSeason {
            season_id: s.season_id,
            min_letters: s.min_letters,
            max_letters: s.max_letters,
            total_allowed: s.total_allowed,
            registered_count: s.registered_count,
            price_icp: s.price_icp,
            created_by: s.created_by.clone(),
            created_at: s.created_at,
            status,
        };
        self.seasons.set(i, updated);
        assert(self@ =~= with_season_deactivated(old(self)@, season_id));
        proof {
            lemma_deactivate_keeps_wf(old(self)@, season_id);
        }
        Ok(())
    }
}

/// The fee for one name of the season, in fee units.
pub fn season_fee(season: &RegistrationSeason) -> (r: u128)
    ensures
        r == fee_of(season@),
{
    let price: u128 = season.price_icp as u128;
    let units: u128 = E8S_PER_ICP as u128;
    price * units
}

/// The figures of a season.
pub fn season_stats(season: &RegistrationSeason) -> (r: SeasonStats)
    ensures
        r == stats_of(season@),
{
    SeasonStats {
        season_number: season.season_id,
        names_available: season.total_allowed,
        names_taken: season.registered_count,
        price_icp: season.price_icp,
        status: season.status,
    }
}

} // verus!
