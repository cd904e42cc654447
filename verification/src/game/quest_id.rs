//! The identifier of a quest.

use crate::game::catalog::Catalog;
use vstd::prelude::*;

verus! {

/// A quest, by its place in the catalog.
#[derive(Clone, Copy, Debug, PartialEq, Eq, Hash, Structural)]
pub struct QuestId(pub u16);

impl QuestId {
    /// Whether the catalog holds this quest.
    pub open spec fn known(self, catalog: &Catalog) -> bool {
        (self.0 as int) < catalog.quest_count()
    }

    pub fn raw(self) -> (r: usize)
        ensures
            r == self.0,
    {
        self.0 as usize
    }

    pub fn from_raw(raw: usize, catalog: &Catalog) -> (r: Option<QuestId>)
        requires
            catalog.wf(),
        ensures
            r == (if (raw as int) < catalog.quest_count() {
                Some(QuestId(raw as u16))
            } else {
                None
            }),
    {
        if raw < catalog.keywords.len() {
            Some(QuestId(raw as u16))
        } else {
            None
        }
    }

    /// Whether the quest is a keyword rather than a quest proper.
    pub fn is_keyword_raw(self, catalog: &Catalog) -> (r: bool)
        requires
            self.known(catalog),
        ensures
            r == catalog.keywords@[self.0 as int],
    {
        catalog.keywords[self.0 as usize]
    }

    pub fn raid() -> (r: QuestId)
        ensures
            r == QuestId(0),
    {
        QuestId(0)
    }

    pub fn cottage() -> (r: QuestId)
        ensures
            r == QuestId(1),
    {
        QuestId(1)
    }
}

} // verus!
