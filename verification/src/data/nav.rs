//! The entries of the navigation bar.

use crate::route::Route;
use vstd::prelude::*;

verus! {

/// An entry of the navigation bar.
#[derive(Clone, Copy, Debug, PartialEq, Eq, Structural)]
pub enum Nav {
    Info,
    TodoAndMap,
    Edit,
    Settings,
}

impl Nav {
    /// The entry that a route belongs to.
    pub open spec fn of(route: Route) -> Nav {
        match route {
            Route::Info => Nav::Info,
            Route::Todo | Route::TodoAction(_, _) => Nav::TodoAndMap,
            Route::MapOverview | Route::MapLocation(_) | Route::MapAction(_, _) | Route::MapNewQuest(_) => Nav::TodoAndMap,
            Route::Edit | Route::EditQuest(_) => Nav::Edit,
            Route::Settings => Nav::Settings,
        }
    }

    pub fn from(value: &Route) -> (r: Nav)
        ensures
            r == Nav::of(*value),
    {
        match value {
            Route::Info => Nav::Info,
            Route::Todo | Route::TodoAction(_, _) => Nav::TodoAndMap,
            Route::MapOverview | Route::MapLocation(_) | Route::MapAction(_, _) | Route::MapNewQuest(_) => Nav::TodoAndMap,
            Route::Edit | Route::EditQuest(_) => Nav::Edit,
            Route::Settings => Nav::Settings,
        }
    }
}

} // verus!
