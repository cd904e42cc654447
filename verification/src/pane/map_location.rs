//! The pane of one location: its note.

use crate::data::sub_component::UpdateResults;
use crate::game::location_id::LocationId;
use crate::game::quest_id::QuestId;
use crate::global::data::Data;
use vstd::prelude::*;

verus! {

/// What the player asks for in the pane.
pub enum MsgMapLocation {
    Note(String),
    ViewQuestNote(QuestId),
}

/// The pane, turned to one location.
pub struct PaneMapLocation {
    pub location_id: LocationId,
}

/// What handling a message makes of the pane and the journal, and what it reports.
pub open spec fn location_updated(
    pane: PaneMapLocation,
    before: Data,
    msg: MsgMapLocation,
    pane_after: PaneMapLocation,
    after: Data,
    r: UpdateResults,
) -> bool {
    &&& after.wf()
    &&& pane_after.location_id == pane.location_id
    &&& after.quest_locale == before.quest_locale
    &&& after.chain_msg == before.chain_msg
    &&& after@.quest == before@.quest
    &&& match msg {
        MsgMapLocation::Note(note) => after@.location == before@.location.insert(
            pane.location_id.0,
            note@,
        ) && r == (UpdateResults { render: false, save_game_data: true, save_settings: false }),
        MsgMapLocation::ViewQuestNote(_) => after@.location == before@.location && r
            == (UpdateResults { render: false, save_game_data: false, save_settings: false }),
    }
}

impl PaneMapLocation {
    /// The pane before it was turned to anything.
    pub fn create() -> (r: Self)
        ensures
            r.location_id == LocationId(0),
    {
        PaneMapLocation { location_id: LocationId::prologue() }
    }

    /// Turns the pane to a location.
    pub fn go(&mut self, location_id: LocationId)
        ensures
            final(self).location_id == location_id,
    {
        self.location_id = location_id;
    }

    /// Handles a message: a note replaces the note of the location and asks
    /// for the journal to be stored; looking at the note of a quest changes nothing.
    pub fn update(&mut self, data: &mut Data, msg: MsgMapLocation) -> (r: UpdateResults)
        requires
            old(data).wf(),
            old(self).location_id.known(&old(data).quest_locale.catalog),
        ensures
            location_updated(*old(self), *old(data), msg, *final(self), *final(data), r),
    {
        match msg {
            MsgMapLocation::Note(note) => {
                let ghost text = note@;
                data.location.insert(self.location_id.0, note);
                proof {
                    assert(data@.location =~= old(data)@.location.insert(self.location_id.0, text));
                    assert(data@.quest =~= old(data)@.quest);
                }
                UpdateResults::save_game_data()
            },
            MsgMapLocation::ViewQuestNote(_) => UpdateResults::empty(),
        }
    }
}

} // verus!
