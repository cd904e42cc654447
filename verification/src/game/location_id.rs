//! The identifier of a location.

use crate::game::catalog::Catalog;
use crate::game::game_language::GameLanguage;
use crate::text::str_eq;
use vstd::prelude::*;

verus! {

/// A location, by its place in the catalog; place 0 is the prologue.
#[derive(Clone, Copy, Debug, PartialEq, Eq, Hash, Structural)]
pub struct LocationId(pub u16);

/// Whether a location before place `n` carries the name `name`.
pub open spec fn name_known_before(catalog: &Catalog, name: Seq<char>, n: int) -> bool {
    exists|l: int| 0 <= l < n && #[trigger] named(catalog, l, name)
}

/// Whether the location at a place carries the name `name`.
pub open spec fn named(catalog: &Catalog, l: int, name: Seq<char>) -> bool {
    catalog.locations@[l].name is Some && catalog.locations@[l].name->Some_0@ == name
}

/// The first location with the given name, if there is one.
pub open spec fn location_of_name(catalog: &Catalog, name: Seq<char>) -> Option<LocationId> {
    if name_known_before(catalog, name, catalog.location_count()) {
        Some(
            LocationId(
                (choose|l: int|
                    0 <= l < catalog.location_count() && #[trigger] named(catalog, l, name)
                        && !name_known_before(catalog, name, l)) as u16,
            ),
        )
    } else {
        None
    }
}

impl LocationId {
    /// Whether the catalog holds this location.
    pub open spec fn known(self, catalog: &Catalog) -> bool {
        (self.0 as int) < catalog.location_count()
    }

    pub fn raw(self) -> (r: usize)
        ensures
            r == self.0,
    {
        self.0 as usize
    }

    /// The location with a stored number; the prologue is never stored.
    pub fn from_raw(raw: usize, catalog: &Catalog) -> (r: Option<LocationId>)
        requires
            catalog.wf(),
        ensures
            r == (if 0 < raw && (raw as int) < catalog.location_count() {
                Some(LocationId(raw as u16))
            } else {
                None
            }),
    {
        if raw > 0 && raw < catalog.locations.len() {
            Some(LocationId(raw as u16))
        } else {
            None
        }
    }

    /// Every location of the catalog, the prologue first.
    pub fn all(catalog: &Catalog) -> (r: Vec<LocationId>)
        requires
            catalog.wf(),
        ensures
            r@.len() == catalog.location_count(),
            forall|i: int| 0 <= i < r@.len() ==> (#[trigger] r@[i]).0 == i,
    {
        let mut r: Vec<LocationId> = Vec::new();
        let mut i: usize = 0;
        while i < catalog.locations.len()
            invariant
                catalog.wf(),
                i <= catalog.locations@.len(),
                r@.len() == i,
                forall|j: int| 0 <= j < r@.len() ==> (#[trigger] r@[j]).0 == j,
            decreases catalog.locations@.len() - i,
        {
            r.push(LocationId(i as u16));
            i = i + 1;
        }
        r
    }

    pub fn name<'a>(self, catalog: &'a Catalog, locale: GameLanguage) -> (r: &'a str)
        requires
            self.known(catalog),
            catalog.has_language(locale),
        ensures
            r@ == catalog.location_name(locale, self.0 as int),
    {
        match &catalog.locations[self.0 as usize].name {
            Some(n) => n.as_str(),
            None => catalog.languages[locale.0].prologue.as_str(),
        }
    }

    /// Looks a location up by its own name; of two with one name the first is taken.
    pub fn try_from_name(name: &str, catalog: &Catalog) -> (r: Option<LocationId>)
        requires
            catalog.wf(),
        ensures
            r == location_of_name(catalog, name@),
            r is Some ==> r->Some_0.known(catalog) && named(catalog, r->Some_0.0 as int, name@),
    {
        let mut i: usize = 0;
        while i < catalog.locations.len()
            invariant
                catalog.wf(),
                i <= catalog.locations@.len(),
                !name_known_before(catalog, name@, i as int),
            decreases catalog.locations@.len() - i,
        {
            let hit = match &catalog.locations[i].name {
                Some(n) => str_eq(n.as_str(), name),
                None => false,
            };
            if hit {
                proof {
                    let n = catalog.location_count();
                    assert(named(catalog, i as int, name@));
                    assert(name_known_before(catalog, name@, n));
                    let c = choose|l: int|
                        0 <= l < n && #[trigger] named(catalog, l, name@) && !name_known_before(
                            catalog,
                            name@,
                            l,
                        );
                    if c < i {
                        assert(name_known_before(catalog, name@, i as int));
                    } else if i < c {
                        assert(name_known_before(catalog, name@, c));
                    }
                }
                return Some(LocationId(i as u16));
            }
            assert(!named(catalog, i as int, name@));
            i = i + 1;
        }
        None
    }

    /// The page of the book on which the location is found.
    pub fn page<'a>(self, catalog: &'a Catalog) -> (r: Option<&'a str>)
        requires
            self.known(catalog),
        ensures
            match r {
                Some(p) => catalog.locations@[self.0 as int].page is Some
                    && catalog.locations@[self.0 as int].page->Some_0@ == p@,
                None => catalog.locations@[self.0 as int].page is None,
            },
    {
        match &catalog.locations[self.0 as usize].page {
            Some(p) => Some(p.as_str()),
            None => None,
        }
    }

    pub fn prologue() -> (r: LocationId)
        ensures
            r == LocationId(0),
    {
        LocationId(0)
    }
}

} // verus!
