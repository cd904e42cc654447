//! The language in which the game's own names are given.

use vstd::prelude::*;

verus! {

/// A language of the game, by its place in the catalog.
#[derive(Clone, Copy, Debug, PartialEq, Eq, Hash, Structural)]
pub struct GameLanguage(pub usize);

impl Default for GameLanguage {
    fn default() -> (r: Self)
        ensures
            r == GameLanguage(0),
    {
        GameLanguage(0)
    }
}

} // verus!
