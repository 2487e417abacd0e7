//! The address allowlist: for each season, the addresses for which an
//! administrator may create names.

use crate::collections::{with_member, KeySet};
use crate::season::{season_with_id, SeasonLedger, SeasonStatus, SeasonView};
use vstd::prelude::*;

verus! {

/// Why an address could not be listed.
#[derive(Clone, Copy, Debug, PartialEq, Eq, Structural)]
pub enum AllowlistError {
    /// The caller is not an administrator.
    NotAdmin,
    /// There is no season with that id.
    SeasonNotFound,
    /// The season is completed or deactivated.
    SeasonNotActive,
}

/// The invariant of the lists: no address is listed twice for a season.
pub open spec fn allowlist_wf(lists: Seq<Seq<Seq<char>>>) -> bool {
    forall|i: int| 0 <= i < lists.len() ==> (#[trigger] lists[i]).no_duplicates()
}

/// The addresses listed for the season with the given id, in the order in
/// which they were listed; none for an unknown season.
pub open spec fn addresses_of(lists: Seq<Seq<Seq<char>>>, season_id: u64) -> Seq<Seq<char>> {
    if 1 <= season_id <= lists.len() {
        lists[season_id - 1]
    } else {
        Seq::empty()
    }
}

/// Whether the address is listed for the season with the given id.
pub open spec fn is_listed(lists: Seq<Seq<Seq<char>>>, season_id: u64, address: Seq<char>) -> bool {
    addresses_of(lists, season_id).contains(address)
}

/// Why the address cannot be listed for the season with the given id, if it
/// cannot.
pub open spec fn listing_rejection(seasons: Seq<SeasonView>, season_id: u64) -> Option<
    AllowlistError,
> {
    match season_with_id(seasons, season_id) {
        None => Some(AllowlistError::SeasonNotFound),
        Some(s) => if s.status == SeasonStatus::Active {
            None
        } else {
            Some(AllowlistError::SeasonNotActive)
        },
    }
}

/// The lists after the address was listed for the season with the given id.
pub open spec fn with_address(lists: Seq<Seq<Seq<char>>>, season_id: u64, address: Seq<char>) -> Seq<
    Seq<Seq<char>>,
> {
    if 1 <= season_id <= lists.len() {
        lists.update(season_id - 1, with_member(lists[season_id - 1], address))
    } else {
        lists
    }
}

/// Listing an address keeps the lists well-formed.
pub proof fn lemma_with_address_keeps_wf(
    lists: Seq<Seq<Seq<char>>>,
    season_id: u64,
    address: Seq<char>,
)
    requires
        allowlist_wf(lists),
    ensures
        allowlist_wf(with_address(lists, season_id, address)),
{
    let after = with_address(lists, season_id, address);
    if 1 <= season_id <= lists.len() {
        crate::collections::lemma_with_member(lists[season_id - 1], address);
        assert forall|i: int| 0 <= i < after.len() implies (#[trigger] after[i]).no_duplicates() by {
            if i != season_id - 1 {
                assert(after[i] == lists[i]);
            }
        }
    }
}

/// The addresses listed for each season.
pub struct AddressAllowlist {
    per_season: Vec<KeySet<String>>,
}

impl View for AddressAllowlist {
    type V = Seq<Seq<Seq<char>>>;

    closed spec fn view(&self) -> Seq<Seq<Seq<char>>> {
        self.per_season@.map_values(|s: KeySet<String>| s@)
    }
}

impl AddressAllowlist {
    /// The invariant of the lists.
    pub open spec fn wf(&self) -> bool {
        allowlist_wf(self@)
    }

    /// Lists for no season.
    pub fn new() -> (r: Self)
        ensures
            r.wf(),
            r@ == Seq::<Seq<Seq<char>>>::empty(),
    {
        let r = AddressAllowlist { per_season: Vec::new() };
        assert(r@ =~= Seq::<Seq<Seq<char>>>::empty());
        r
    }

    /// The number of seasons that have a list.
    pub fn len(&self) -> (n: usize)
        ensures
            n == self@.len(),
    {
        self.per_season.len()
    }

    /// Adds an empty list for the season that comes next.
    pub fn open_season(&mut self)
        requires
            old(self).wf(),
        ensures
            final(self).wf(),
            final(self)@ == old(self)@.push(Seq::<Seq<char>>::empty()),
    {
        let empty: KeySet<String> = KeySet::new();
        self.per_season.push(empty);
        assert(self@ =~= old(self)@.push(Seq::<Seq<char>>::empty()));
        assert forall|i: int| 0 <= i < self@.len() implies (#[trigger] self@[i]).no_duplicates() by {
            if i < old(self)@.len() {
                assert(self@[i] == old(self)@[i]);
            }
        }
    }

    /// Lists the address for the season with the given id. Only an active
    /// season takes new addresses.
    pub fn add(&mut self, ledger: &SeasonLedger, season_id: u64, address: String) -> (r: Result<
        (),
        AllowlistError,
    >)
        requires
            old(self).wf(),
            old(self)@.len() == ledger@.len(),
        ensures
            final(self).wf(),
            final(self)@.len() == ledger@.len(),
            match r {
                Ok(()) => listing_rejection(ledger@, season_id) is None && final(self)@
                    == with_address(old(self)@, season_id, address@),
                Err(e) => listing_rejection(ledger@, season_id) == Some(e) && final(self)@ == old(self)@,
            },
    {
        match ledger.get(season_id) {
            None => {
                return Err(AllowlistError::SeasonNotFound);
            },
            Some(season) => {
                match season.status {
                    SeasonStatus::Active => {},
                    _ => {
                        return Err(AllowlistError::SeasonNotActive);
                    },
                }
            },
        }
        let i = (season_id - 1) as usize;
        let ghost address_view = address@;
        let mut set = self.per_season.remove(i);
        assert(set@ == old(self)@[i as int]);
        set.insert(address);
        self.per_season.insert(i, set);
        assert(self@ =~= with_address(old(self)@, season_id, address_view));
        proof {
            lemma_with_address_keeps_wf(old(self)@, season_id, address_view);
        }
        Ok(())
    }

    /// Whether the address is listed for the season with the given id.
    pub fn contains(&self, season_id: u64, address: &str) -> (r: bool)
        ensures
            r == is_listed(self@, season_id, address@),
    {
        if season_id == 0 || season_id > self.per_season.len() as u64 {
            assert(!Seq::<Seq<char>>::empty().contains(address@));
            return false;
        }
        let i = (season_id - 1) as usize;
        assert(self@[i as int] == self.per_season@[i as int]@);
        let owned = address.to_owned();
        self.per_season[i].contains(&owned)
    }

    /// The addresses listed for the season with the given id, in the order
    /// in which they were listed.
    pub fn for_season(&self, season_id: u64) -> (r: Vec<String>)
        ensures
            r@.map_values(|a: String| a@) == addresses_of(self@, season_id),
    {
        if season_id == 0 || season_id > self.per_season.len() as u64 {
            let r: Vec<String> = Vec::new();
            assert(r@.map_values(|a: String| a@) =~= Seq::<Seq<char>>::empty());
            return r;
        }
        let i = (season_id - 1) as usize;
        assert(self@[i as int] == self.per_season@[i as int]@);
        self.per_season[i].to_vec()
    }
}

} // verus!
