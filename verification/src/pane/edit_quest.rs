//! The pane that edits one quest: a copy is changed, and saving puts the copy into the journal.

use crate::data::encounter_type::EncounterType;
use crate::data::quest::{Quest, QuestState, QuestView};
use crate::data::quest_location::QuestLocation;
use crate::data::sub_component::UpdateResults;
use crate::data::vis::Vis;
use crate::game::catalog::Catalog;
use crate::game::location_id::LocationId;
use crate::game::quest_id::QuestId;
use crate::global::data::{location_fits, quest_fits, quest_or_blank, Data, Effect};
use crate::pane::action::with_encounter_vis;
use vstd::prelude::*;

verus! {

/// What the player asks for in the pane.
pub enum MsgEditQuest {
    State(QuestState),
    Vis(Vis),
    EncounterVis(LocationId, EncounterType, Vis),
    KillEncounter(LocationId, EncounterType),
    Save(String),
}

/// The pane: the quest it is turned to, the copy that is edited, and the
/// encounters that are marked to be removed when the copy is saved.
pub struct PaneEditQuest {
    pub quest_id: QuestId,
    pub quest: Quest,
    pub encounters_to_remove: Vec<(LocationId, EncounterType)>,
}

/// The first `n` marks without the mark `x`.
pub open spec fn without_mark(
    marks: Seq<(LocationId, EncounterType)>,
    x: (LocationId, EncounterType),
    n: int,
) -> Seq<(LocationId, EncounterType)>
    decreases n,
{
    if n <= 0 {
        Seq::empty()
    } else if marks[n - 1] == x {
        without_mark(marks, x, n - 1)
    } else {
        without_mark(marks, x, n - 1).push(marks[n - 1])
    }
}

/// The marks with the mark `x` among them: it is added unless it is there.
pub open spec fn with_mark(marks: Seq<(LocationId, EncounterType)>, x: (LocationId, EncounterType)) -> Seq<
    (LocationId, EncounterType),
> {
    if marks.contains(x) {
        marks
    } else {
        marks.push(x)
    }
}

/// The locations of a quest after the encounters under the first `n` marks were removed.
pub open spec fn pruned(
    encounter: Map<u16, QuestLocation>,
    marks: Seq<(LocationId, EncounterType)>,
    n: int,
) -> Map<u16, QuestLocation>
    decreases n,
{
    if n <= 0 {
        encounter
    } else {
        let before = pruned(encounter, marks, n - 1);
        let l = marks[n - 1].0.0;
        if before.contains_key(l) {
            before.insert(l, before[l].with(marks[n - 1].1, None))
        } else {
            before
        }
    }
}

/// The copy as it is saved: with the note, and without the marked encounters.
pub open spec fn saved_copy(q: QuestView, marks: Seq<(LocationId, EncounterType)>, note: Seq<char>) -> QuestView {
    QuestView { encounter: pruned(q.encounter, marks, marks.len() as int), note, ..q }
}

proof fn lemma_pruned_fits(
    encounter: Map<u16, QuestLocation>,
    marks: Seq<(LocationId, EncounterType)>,
    n: int,
    catalog: &Catalog,
)
    requires
        0 <= n <= marks.len(),
        forall|l: u16| #[trigger]
            encounter.contains_key(l) ==> (l as int) < catalog.location_count() && location_fits(
                encounter[l],
                catalog,
            ),
    ensures
        forall|l: u16| #[trigger]
            pruned(encounter, marks, n).contains_key(l) ==> (l as int) < catalog.location_count() && location_fits(
                pruned(encounter, marks, n)[l],
                catalog,
            ),
    decreases n,
{
    if n > 0 {
        lemma_pruned_fits(encounter, marks, n - 1, catalog);
        let before = pruned(encounter, marks, n - 1);
        let l = marks[n - 1].0.0;
        if before.contains_key(l) {
            let cut = before[l].with(marks[n - 1].1, None);
            assert forall|key: EncounterType|
                (#[trigger] cut.slot(key)) is Some && cut.slot(key)->Some_0.prerequisite is Some implies cut.slot(
                key,
            )->Some_0.prerequisite->Some_0.known(catalog) by {
                assert(cut.slot(key) == before[l].slot(key));
            }
        }
    }
}

/// What handling a message makes of the pane and the journal, and what it reports.
pub open spec fn edit_quest_updated(
    pane: PaneEditQuest,
    before: Data,
    msg: MsgEditQuest,
    pane_after: PaneEditQuest,
    after: Data,
    r: UpdateResults,
) -> bool {
    &&& after.wf()
    &&& pane_after.wf(&after.quest_locale.catalog)
    &&& pane_after.quest_id == pane.quest_id
    &&& after.quest_locale == before.quest_locale
    &&& after@.location == before@.location
    &&& match msg {
        MsgEditQuest::State(state) => pane_after.quest@ == (QuestView { state, ..pane.quest@ })
            && pane_after.encounters_to_remove == pane.encounters_to_remove && after@ == before@ && after.chain_msg == before.chain_msg && r == (UpdateResults {
            render: false,
            save_game_data: false,
            save_settings: false,
        }),
        MsgEditQuest::Vis(vis) => pane_after.quest@ == (QuestView { vis, ..pane.quest@ }) && pane_after.encounters_to_remove == pane.encounters_to_remove && after@ == before@ && after.chain_msg == before.chain_msg && r == (UpdateResults {
            render: false,
            save_game_data: false,
            save_settings: false,
        }),
        MsgEditQuest::EncounterVis(location_id, encounter_type, vis) => pane_after.quest@
            == with_encounter_vis(pane.quest@, location_id.0, encounter_type, vis) && pane_after.encounters_to_remove@ == without_mark(
            pane.encounters_to_remove@,
            (location_id, encounter_type),
            pane.encounters_to_remove@.len() as int,
        ) && after@ == before@ && after.chain_msg == before.chain_msg && r
            == (UpdateResults { render: false, save_game_data: false, save_settings: false }),
        MsgEditQuest::KillEncounter(location_id, encounter_type) => pane_after.quest == pane.quest
            && pane_after.encounters_to_remove@ == with_mark(
            pane.encounters_to_remove@,
            (location_id, encounter_type),
        ) && after@ == before@ && after.chain_msg == before.chain_msg && r
            == (UpdateResults { render: false, save_game_data: false, save_settings: false }),
        MsgEditQuest::Save(note) => after@.quest == before@.quest.insert(
            pane.quest_id.0,
            saved_copy(pane.quest@, pane.encounters_to_remove@, note@),
        ) && pane_after.quest@ == quest_or_blank(before@.quest, pane.quest_id.0) && pane_after.encounters_to_remove == pane.encounters_to_remove && after.chain_msg@ == before.chain_msg@.push(Effect::GoEdit) && r == (UpdateResults {
            render: false,
            save_game_data: true,
            save_settings: false,
        }),
    }
}

impl PaneEditQuest {
    /// The invariant: the copy is in order, and every identifier in the pane is one of the catalog.
    pub open spec fn wf(&self, catalog: &Catalog) -> bool {
        &&& self.quest.wf()
        &&& self.quest_id.known(catalog)
        &&& quest_fits(self.quest@, catalog)
    }

    /// The pane before it was turned to anything.
    pub fn create() -> (r: Self)
        ensures
            r.quest_id == QuestId(1),
            r.quest@ == QuestView::blank(),
            r.quest.wf(),
            r.encounters_to_remove@.len() == 0,
    {
        PaneEditQuest { quest_id: QuestId::cottage(), quest: Quest::new(), encounters_to_remove: Vec::new() }
    }

    /// Turns the pane to a quest, if the journal holds it, and takes a copy of
    /// it; says whether it did.
    pub fn go(&mut self, data: &Data, quest_id: QuestId) -> (r: bool)
        requires
            data.wf(),
            old(self).wf(&data.quest_locale.catalog),
        ensures
            final(self).wf(&data.quest_locale.catalog),
            r == data@.quest.contains_key(quest_id.0),
            r ==> final(self).quest_id == quest_id && final(self).quest@ == data@.quest[quest_id.0],
            !r ==> final(self).quest_id == old(self).quest_id && final(self).quest == old(self).quest,
            final(self).encounters_to_remove == old(self).encounters_to_remove,
    {
        match data.quest.get(quest_id.0) {
            Some(quest) => {
                proof {
                    assert(data@.quest.contains_key(quest_id.0));
                }
                self.quest_id = quest_id;
                self.quest = quest.clone();
                true
            },
            None => false,
        }
    }

    fn mark(&mut self, x: (LocationId, EncounterType))
        ensures
            final(self).encounters_to_remove@ == with_mark(old(self).encounters_to_remove@, x),
            final(self).quest == old(self).quest,
            final(self).quest_id == old(self).quest_id,
    {
        let mut i: usize = 0;
        while i < self.encounters_to_remove.len()
            invariant
                *self == *old(self),
                i <= self.encounters_to_remove@.len(),
                forall|j: int| 0 <= j < i ==> self.encounters_to_remove@[j] != x,
            decreases self.encounters_to_remove@.len() - i,
        {
            let m = self.encounters_to_remove[i];
            if m.0 == x.0 && m.1 == x.1 {
                assert(self.encounters_to_remove@[i as int] == x);
                return ;
            }
            i = i + 1;
        }
        self.encounters_to_remove.push(x);
    }

    fn unmark(&mut self, x: (LocationId, EncounterType))
        ensures
            final(self).encounters_to_remove@ == without_mark(
                old(self).encounters_to_remove@,
                x,
                old(self).encounters_to_remove@.len() as int,
            ),
            final(self).quest == old(self).quest,
            final(self).quest_id == old(self).quest_id,
    {
        let mut kept: Vec<(LocationId, EncounterType)> = Vec::new();
        let mut i: usize = 0;
        while i < self.encounters_to_remove.len()
            invariant
                *self == *old(self),
                i <= self.encounters_to_remove@.len(),
                kept@ == without_mark(self.encounters_to_remove@, x, i as int),
            decreases self.encounters_to_remove@.len() - i,
        {
            let m = self.encounters_to_remove[i];
            if !(m.0 == x.0 && m.1 == x.1) {
                kept.push(m);
            }
            i = i + 1;
        }
        self.encounters_to_remove = kept;
    }

    fn prune(&mut self)
        requires
            old(self).quest.wf(),
        ensures
            final(self).quest.wf(),
            final(self).quest@ == (QuestView {
                encounter: pruned(
                    old(self).quest@.encounter,
                    old(self).encounters_to_remove@,
                    old(self).encounters_to_remove@.len() as int,
                ),
                ..old(self).quest@
            }),
            final(self).encounters_to_remove == old(self).encounters_to_remove,
            final(self).quest_id == old(self).quest_id,
    {
        let mut i: usize = 0;
        while i < self.encounters_to_remove.len()
            invariant
                self.quest.wf(),
                self.encounters_to_remove == old(self).encounters_to_remove,
                self.quest_id == old(self).quest_id,
                i <= self.encounters_to_remove@.len(),
                self.quest@ == (QuestView {
                    encounter: pruned(old(self).quest@.encounter, self.encounters_to_remove@, i as int),
                    ..old(self).quest@
                }),
            decreases self.encounters_to_remove@.len() - i,
        {
            let m = self.encounters_to_remove[i];
            let found = match self.quest.encounter.get(m.0.0) {
                Some(l) => Some(*l),
                None => None,
            };
            match found {
                Some(mut location) => {
                    location.remove(m.1);
                    self.quest.encounter.insert(m.0.0, location);
                },
                None => {},
            }
            i = i + 1;
        }
    }

    /// Handles a message. State, restriction and marks change the copy only;
    /// saving puts the copy, with the note and without the marked encounters,
    /// into the journal, keeps what the journal held in its place, asks for
    /// the list of quests, and asks for the journal to be stored.
    pub fn update(&mut self, data: &mut Data, msg: MsgEditQuest) -> (r: UpdateResults)
        requires
            old(data).wf(),
            old(self).wf(&old(data).quest_locale.catalog),
        ensures
            edit_quest_updated(*old(self), *old(data), msg, *final(self), *final(data), r),
    {
        let ghost catalog = &data.quest_locale.catalog;
        match msg {
            MsgEditQuest::State(state) => {
                self.quest.state = state;
                UpdateResults::empty()
            },
            MsgEditQuest::Vis(vis) => {
                self.quest.vis = vis;
                UpdateResults::empty()
            },
            MsgEditQuest::EncounterVis(location_id, encounter_type, vis) => {
                let ghost before = self.quest@;
                let found = match self.quest.encounter.get(location_id.0) {
                    Some(l) => Some(*l),
                    None => None,
                };
                match found {
                    Some(mut location) => {
                        if location.set_vis(encounter_type, vis) {
                            self.quest.encounter.insert(location_id.0, location);
                        }
                    },
                    None => {},
                }
                proof {
                    assert(self.quest@ == with_encounter_vis(before, location_id.0, encounter_type, vis));
                    assert forall|l: u16| #[trigger] self.quest@.encounter.contains_key(l) implies (l as int)
                        < catalog.location_count() && location_fits(self.quest@.encounter[l], catalog) by {
                        assert(before.encounter.contains_key(l));
                        assert(location_fits(before.encounter[l], catalog));
                        if self.quest@.encounter[l] != before.encounter[l] {
                            assert forall|key: EncounterType|
                                (#[trigger] self.quest@.encounter[l].slot(key)) is Some
                                    && self.quest@.encounter[l].slot(key)->Some_0.prerequisite is Some
                                implies self.quest@.encounter[l].slot(key)->Some_0.prerequisite->Some_0.known(
                                catalog,
                            ) by {
                                assert(before.encounter[l].slot(key) is Some);
                            }
                        }
                    }
                }
                self.unmark((location_id, encounter_type));
                UpdateResults::empty()
            },
            MsgEditQuest::KillEncounter(location_id, encounter_type) => {
                self.mark((location_id, encounter_type));
                UpdateResults::empty()
            },
            MsgEditQuest::Save(note) => {
                let ghost copy = self.quest@;
                self.quest.note = note;
                self.prune();
                proof {
                    lemma_pruned_fits(
                        copy.encounter,
                        self.encounters_to_remove@,
                        self.encounters_to_remove@.len() as int,
                        catalog,
                    );
                    assert(self.quest@ == saved_copy(copy, self.encounters_to_remove@, note@));
                }
                let mut held = match data.take_quest(self.quest_id) {
                    Some(q) => q,
                    None => Quest::new(),
                };
                std::mem::swap(&mut held, &mut self.quest);
                data.put_quest(self.quest_id, held);
                proof {
                    assert(data@.quest =~= old(data)@.quest.insert(
                        self.quest_id.0,
                        saved_copy(copy, self.encounters_to_remove@, note@),
                    ));
                }
                data.chain_msg.push(Effect::GoEdit);
                UpdateResults::save_game_data()
            },
        }
    }
}

} // verus!
