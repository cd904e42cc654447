//! The oldest stored form of a journal, which knows no levels of restriction,
//! and its upgrade to the newest form.

use crate::data::encounter_map::EncounterMap;
use crate::data::encounter_type::EncounterType;
use crate::data::quest::{QuestState, QuestView};
use crate::data::quest_location::QuestLocation;
use crate::data::vis::Vis;
use crate::game::catalog::Catalog;
use crate::global::data::{clean_quest, fresh, quest_or_blank, Data};
use crate::ser::game_data_3::{
    loaded, loaded_encounters, loaded_quest, loaded_quests, loaded_raw, location_or_empty, merged_location,
    SerdeEncounter3, SerdeGameData3, SerdeGameData3View, SerdeLocation3, SerdeQuest3, SerdeQuest3View,
};
use vstd::prelude::*;

verus! {

/// The encounters at one location as the oldest form stores them: for each
/// type the number of the prerequisite quest, if any.
pub type SerdeEncounter = EncounterMap<Option<usize>>;

/// A quest in the oldest form: state, encounters by the number of the location, note.
pub struct SerdeQuest(pub QuestState, pub Vec<(usize, SerdeEncounter)>, pub String);

/// A location note in the oldest form.
pub struct SerdeLocation(pub String);

/// A journal in the oldest form.
pub struct SerdeGameData1 {
    pub quests: Vec<(usize, SerdeQuest)>,
    pub locations: Vec<(usize, SerdeLocation)>,
    pub game_language: String,
}

/// What a quest in the oldest form holds, as plain values.
pub struct SerdeQuestView {
    pub state: QuestState,
    pub encounters: Seq<(usize, SerdeEncounter)>,
    pub note: Seq<char>,
}

/// What a journal in the oldest form holds, as plain values.
pub struct SerdeGameData1View {
    pub quests: Seq<(usize, SerdeQuestView)>,
    pub locations: Seq<(usize, Seq<char>)>,
}

impl SerdeQuest {
    pub open spec fn view(&self) -> SerdeQuestView {
        SerdeQuestView { state: self.0, encounters: self.1@, note: self.2@ }
    }
}

impl SerdeGameData1 {
    pub open spec fn view(&self) -> SerdeGameData1View {
        SerdeGameData1View {
            quests: Seq::new(self.quests@.len(), |i: int| (self.quests@[i].0, self.quests@[i].1@)),
            locations: Seq::new(self.locations@.len(), |i: int| (self.locations@[i].0, self.locations@[i].1.0@)),
        }
    }
}

/// An encounter of the oldest form in the newest: nothing is hidden.
pub open spec fn upgraded_entry(e: Option<Option<usize>>) -> Option<(Option<usize>, Vis)> {
    match e {
        Some(p) => Some((p, Vis::Visible)),
        None => None,
    }
}

/// The encounters at a location in the newest form.
pub open spec fn upgraded_encounter(e: SerdeEncounter) -> SerdeEncounter3 {
    EncounterMap {
        unless: upgraded_entry(e.unless),
        gain: upgraded_entry(e.gain),
        when: upgraded_entry(e.when),
        complete: upgraded_entry(e.complete),
        lose: upgraded_entry(e.lose),
    }
}

/// The locations of a quest in the newest form.
pub open spec fn upgraded_encounters(stored: Seq<(usize, SerdeEncounter)>) -> Seq<(usize, SerdeEncounter3)> {
    Seq::new(stored.len(), |i: int| (stored[i].0, upgraded_encounter(stored[i].1)))
}

/// A quest in the newest form: the quest itself is not hidden either.
pub open spec fn upgraded_quest(q: SerdeQuestView) -> SerdeQuest3View {
    SerdeQuest3View {
        state: q.state,
        encounters: upgraded_encounters(q.encounters),
        note: q.note,
        vis: Vis::Visible,
    }
}

/// A journal in the newest form.
pub open spec fn upgraded(d: SerdeGameData1View) -> SerdeGameData3View {
    SerdeGameData3View {
        quests: Seq::new(d.quests.len(), |i: int| (d.quests[i].0, upgraded_quest(d.quests[i].1))),
        locations: d.locations,
    }
}

fn upgrade_entry(e: Option<Option<usize>>) -> (r: Option<(Option<usize>, Vis)>)
    ensures
        r == upgraded_entry(e),
{
    match e {
        Some(p) => Some((p, Vis::Visible)),
        None => None,
    }
}

fn upgrade_encounter(e: &SerdeEncounter) -> (r: SerdeEncounter3)
    ensures
        r == upgraded_encounter(*e),
{
    EncounterMap {
        unless: upgrade_entry(e.unless),
        gain: upgrade_entry(e.gain),
        when: upgrade_entry(e.when),
        complete: upgrade_entry(e.complete),
        lose: upgrade_entry(e.lose),
    }
}

fn upgrade_quest(q: &SerdeQuest) -> (r: SerdeQuest3)
    ensures
        r@ == upgraded_quest(q@),
{
    let mut encounters: Vec<(usize, SerdeEncounter3)> = Vec::new();
    let mut i: usize = 0;
    while i < q.1.len()
        invariant
            i <= q.1@.len(),
            encounters@.len() == i,
            forall|j: int|
                0 <= j < i ==> #[trigger] encounters@[j] == (q.1@[j].0, upgraded_encounter(q.1@[j].1)),
        decreases q.1@.len() - i,
    {
        encounters.push((q.1[i].0, upgrade_encounter(&q.1[i].1)));
        i = i + 1;
    }
    let r = SerdeQuest3(q.0, encounters, q.2.clone(), Vis::Visible);
    assert(r@.encounters =~= upgraded_quest(q@).encounters);
    r
}

/// Brings a journal of the oldest form into the newest.
pub fn upgrade(game_data: &SerdeGameData1) -> (r: SerdeGameData3)
    ensures
        r@ == upgraded(game_data@),
{
    let mut quests: Vec<(usize, SerdeQuest3)> = Vec::new();
    let mut i: usize = 0;
    while i < game_data.quests.len()
        invariant
            i <= game_data.quests@.len(),
            quests@.len() == i,
            forall|j: int|
                0 <= j < i ==> (#[trigger] quests@[j]).0 == game_data.quests@[j].0 && quests@[j].1@ == upgraded_quest(
                    game_data.quests@[j].1@,
                ),
        decreases game_data.quests@.len() - i,
    {
        quests.push((game_data.quests[i].0, upgrade_quest(&game_data.quests[i].1)));
        i = i + 1;
    }
    let mut locations: Vec<(usize, SerdeLocation3)> = Vec::new();
    let mut i: usize = 0;
    while i < game_data.locations.len()
        invariant
            i <= game_data.locations@.len(),
            locations@.len() == i,
            forall|j: int|
                0 <= j < i ==> (#[trigger] locations@[j]).0 == game_data.locations@[j].0 && locations@[j].1.0@
                    == game_data.locations@[j].1.0@,
        decreases game_data.locations@.len() - i,
    {
        locations.push((game_data.locations[i].0, SerdeLocation3(game_data.locations[i].1.0.clone())));
        i = i + 1;
    }
    let r = SerdeGameData3 { quests, locations };
    proof {
        assert(r@.quests =~= upgraded(game_data@).quests);
        assert(r@.locations =~= upgraded(game_data@).locations);
    }
    r
}

impl Data {
    /// Reads a journal in its oldest stored form, by way of the newest.
    pub fn load_game_data_1(&mut self, game_data: SerdeGameData1)
        requires
            old(self).quest_locale.wf(),
        ensures
            final(self).wf(),
            final(self)@ == loaded(&old(self).quest_locale.catalog, upgraded(game_data@)),
            final(self).quest_locale == old(self).quest_locale,
            final(self).chain_msg == old(self).chain_msg,
    {
        let newest = upgrade(&game_data);
        self.load_game_data_3(newest);
    }
}

/// Whether no encounter at a location is hidden.
pub open spec fn location_all_visible(l: QuestLocation) -> bool {
    forall|key: EncounterType| (#[trigger] l.slot(key)) is Some ==> l.slot(key)->Some_0.vis == Vis::Visible
}

/// Whether neither a quest nor any of its encounters is hidden.
pub open spec fn quest_all_visible(q: QuestView) -> bool {
    &&& q.vis == Vis::Visible
    &&& forall|l: u16| #[trigger] q.encounter.contains_key(l) ==> location_all_visible(q.encounter[l])
}

proof fn lemma_upgraded_encounters_visible(
    catalog: &Catalog,
    base: Map<u16, QuestLocation>,
    stored: Seq<(usize, SerdeEncounter)>,
    n: int,
)
    requires
        0 <= n <= stored.len(),
        forall|l: u16| #[trigger] base.contains_key(l) ==> location_all_visible(base[l]),
    ensures
        forall|l: u16| #[trigger]
            loaded_encounters(catalog, base, upgraded_encounters(stored), n).contains_key(l)
                ==> location_all_visible(loaded_encounters(catalog, base, upgraded_encounters(stored), n)[l]),
    decreases n,
{
    if n > 0 {
        lemma_upgraded_encounters_visible(catalog, base, stored, n - 1);
        let newest = upgraded_encounters(stored);
        let before = loaded_encounters(catalog, base, newest, n - 1);
        let raw = newest[n - 1].0;
        if 0 < raw && (raw as int) < catalog.location_count() {
            let b = location_or_empty(before, raw as u16);
            let m = merged_location(catalog, b, newest[n - 1].1);
            assert(location_all_visible(b)) by {
                if !before.contains_key(raw as u16) {
                    assert forall|key: EncounterType| (#[trigger] b.slot(key)) is None by {}
                }
            }
            assert forall|key: EncounterType| (#[trigger] m.slot(key)) is Some implies m.slot(key)->Some_0.vis
                == Vis::Visible by {
                if newest[n - 1].1.slot(key) is None {
                    assert(m.slot(key) == b.slot(key));
                } else {
                    assert(stored[n - 1].1.slot(key) is Some);
                }
            }
        }
    }
}

proof fn lemma_upgraded_quests_visible(catalog: &Catalog, stored: SerdeGameData1View, n: int)
    requires
        0 <= n <= stored.quests.len(),
    ensures
        forall|k: u16| #[trigger]
            loaded_quests(catalog, fresh().quest, upgraded(stored).quests, n).contains_key(k) ==> quest_all_visible(
                loaded_quests(catalog, fresh().quest, upgraded(stored).quests, n)[k],
            ),
    decreases n,
{
    if n > 0 {
        lemma_upgraded_quests_visible(catalog, stored, n - 1);
        let newest = upgraded(stored).quests;
        let before = loaded_quests(catalog, fresh().quest, newest, n - 1);
        let raw = newest[n - 1].0;
        if (raw as int) < catalog.quest_count() {
            let base = quest_or_blank(before, raw as u16);
            let old_record = stored.quests[n - 1].1;
            assert(newest[n - 1].1 == upgraded_quest(old_record));
            lemma_upgraded_encounters_visible(
                catalog,
                base.encounter,
                old_record.encounters,
                old_record.encounters.len() as int,
            );
            assert(quest_all_visible(loaded_quest(catalog, base, newest[n - 1].1)));
        }
    } else {
        let f = fresh().quest;
        assert forall|k: u16| #[trigger] f.contains_key(k) implies quest_all_visible(f[k]) by {
            assert forall|l: u16| #[trigger] f[k].encounter.contains_key(l) implies location_all_visible(
                f[k].encounter[l],
            ) by {
                assert(f[k].encounter[l] == crate::global::data::built_in_location());
            }
        }
    }
}

/// A journal read from the oldest stored form hides nothing: every quest and
/// every encounter in it is visible.
pub proof fn lemma_oldest_form_hides_nothing(catalog: &Catalog, stored: SerdeGameData1View, k: u16)
    requires
        loaded(catalog, upgraded(stored)).quest.contains_key(k),
    ensures
        quest_all_visible(loaded(catalog, upgraded(stored)).quest[k]),
{
    lemma_upgraded_quests_visible(catalog, stored, stored.quests.len() as int);
    let raw = loaded_raw(catalog, upgraded(stored));
    assert(raw.quest.contains_key(k));
    assert(quest_all_visible(raw.quest[k]));
    let c = clean_quest(raw.quest[k]);
    assert forall|l: u16| #[trigger] c.encounter.contains_key(l) implies location_all_visible(c.encounter[l]) by {
        assert(raw.quest[k].encounter.contains_key(l));
    }
}

} // verus!
