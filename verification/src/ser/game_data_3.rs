//! The newest stored form of a journal.

use crate::data::encounter_map::EncounterMap;
use crate::data::encounter_type::EncounterType;
use crate::data::quest::{Quest, QuestState, QuestView};
use crate::data::quest_location::{QuestLocation, QuestLocationEncounter};
use crate::data::vis::Vis;
use crate::game::catalog::Catalog;
use crate::game::location_id::LocationId;
use crate::game::quest_id::QuestId;
use crate::global::data::{cleaned, fresh, location_fits, quest_fits, Data, DataView};
use crate::id_map::IdMap;
use vstd::prelude::*;

verus! {

/// The encounters at one location as they are stored: for each type the
/// number of the prerequisite quest, if any, and the level of restriction.
pub type SerdeEncounter3 = EncounterMap<(Option<usize>, Vis)>;

/// A quest as it is stored: state, encounters by the number of the location, note, restriction.
pub struct SerdeQuest3(pub QuestState, pub Vec<(usize, SerdeEncounter3)>, pub String, pub Vis);

/// A location note as it is stored.
pub struct SerdeLocation3(pub String);

/// A journal as it is stored: quests and location notes by their numbers.
pub struct SerdeGameData3 {
    pub quests: Vec<(usize, SerdeQuest3)>,
    pub locations: Vec<(usize, SerdeLocation3)>,
}

/// What a stored quest holds, as plain values.
pub struct SerdeQuest3View {
    pub state: QuestState,
    pub encounters: Seq<(usize, SerdeEncounter3)>,
    pub note: Seq<char>,
    pub vis: Vis,
}

/// What a stored journal holds, as plain values.
pub struct SerdeGameData3View {
    pub quests: Seq<(usize, SerdeQuest3View)>,
    pub locations: Seq<(usize, Seq<char>)>,
}

impl SerdeQuest3 {
    pub open spec fn view(&self) -> SerdeQuest3View {
        SerdeQuest3View { state: self.0, encounters: self.1@, note: self.2@, vis: self.3 }
    }
}

impl SerdeGameData3 {
    pub open spec fn view(&self) -> SerdeGameData3View {
        SerdeGameData3View {
            quests: Seq::new(self.quests@.len(), |i: int| (self.quests@[i].0, self.quests@[i].1@)),
            locations: Seq::new(self.locations@.len(), |i: int| (self.locations@[i].0, self.locations@[i].1.0@)),
        }
    }
}

/// An encounter as it is stored.
pub open spec fn saved_entry(e: Option<QuestLocationEncounter>) -> Option<(Option<usize>, Vis)> {
    match e {
        Some(e) => Some(
            (
                match e.prerequisite {
                    Some(p) => Some(p.0 as usize),
                    None => None,
                },
                e.vis,
            ),
        ),
        None => None,
    }
}

/// The encounters at a location as they are stored.
pub open spec fn saved_encounter(l: QuestLocation) -> SerdeEncounter3 {
    EncounterMap {
        unless: saved_entry(l.unless),
        gain: saved_entry(l.gain),
        when: saved_entry(l.when),
        complete: saved_entry(l.complete),
        lose: saved_entry(l.lose),
    }
}

/// The first `n` locations of a quest as they are stored: all but the prologue, in order.
pub open spec fn saved_encounters(encounter: Seq<(u16, QuestLocation)>, n: int) -> Seq<(usize, SerdeEncounter3)>
    decreases n,
{
    if n <= 0 {
        Seq::empty()
    } else if encounter[n - 1].0 != 0 {
        saved_encounters(encounter, n - 1).push((encounter[n - 1].0 as usize, saved_encounter(encounter[n - 1].1)))
    } else {
        saved_encounters(encounter, n - 1)
    }
}

/// A quest as it is stored.
pub open spec fn saved_quest(q: &Quest) -> SerdeQuest3View {
    SerdeQuest3View {
        state: q.state,
        encounters: saved_encounters(q.encounter.seq(), q.encounter.seq().len() as int),
        note: q.note@,
        vis: q.vis,
    }
}

/// A journal as it is stored: every quest and every location note, in the order of their numbers.
pub open spec fn saved(d: &Data) -> SerdeGameData3View {
    SerdeGameData3View {
        quests: Seq::new(d.quest.seq().len(), |i: int| (d.quest.seq()[i].0 as usize, saved_quest(&d.quest.seq()[i].1))),
        locations: Seq::new(d.location.seq().len(), |i: int| (d.location.seq()[i].0 as usize, d.location.seq()[i].1@)),
    }
}

/// The prerequisite that a stored number stands for: only an encounter that
/// gains the quest has one, and only a quest of the catalog can be one.
pub open spec fn loaded_prerequisite(catalog: &Catalog, key: EncounterType, raw: Option<usize>) -> Option<QuestId> {
    if key == EncounterType::Gain && raw is Some && (raw->Some_0 as int) < catalog.quest_count() {
        Some(QuestId(raw->Some_0 as u16))
    } else {
        None
    }
}

/// What a location holds for an encounter type after stored encounters were
/// read into it: the stored one where there is one, else what was there.
pub open spec fn merged_entry(
    catalog: &Catalog,
    key: EncounterType,
    base: Option<QuestLocationEncounter>,
    stored: Option<(Option<usize>, Vis)>,
) -> Option<QuestLocationEncounter> {
    match stored {
        Some(e) => Some(
            QuestLocationEncounter { prerequisite: loaded_prerequisite(catalog, key, e.0), vis: e.1 },
        ),
        None => base,
    }
}

/// A location after stored encounters were read into it.
pub open spec fn merged_location(catalog: &Catalog, base: QuestLocation, stored: SerdeEncounter3) -> QuestLocation {
    EncounterMap {
        unless: merged_entry(catalog, EncounterType::Unless, base.unless, stored.unless),
        gain: merged_entry(catalog, EncounterType::Gain, base.gain, stored.gain),
        when: merged_entry(catalog, EncounterType::When, base.when, stored.when),
        complete: merged_entry(catalog, EncounterType::Complete, base.complete, stored.complete),
        lose: merged_entry(catalog, EncounterType::Lose, base.lose, stored.lose),
    }
}

/// The location under a key, or the empty one where there is none.
pub open spec fn location_or_empty(encounter: Map<u16, QuestLocation>, l: u16) -> QuestLocation {
    if encounter.contains_key(l) {
        encounter[l]
    } else {
        QuestLocation::empty()
    }
}

/// The locations of a quest after the first `n` stored ones were read into
/// them; a number that is no location of the catalog, or the prologue, is passed over.
pub open spec fn loaded_encounters(
    catalog: &Catalog,
    base: Map<u16, QuestLocation>,
    stored: Seq<(usize, SerdeEncounter3)>,
    n: int,
) -> Map<u16, QuestLocation>
    decreases n,
{
    if n <= 0 {
        base
    } else {
        let before = loaded_encounters(catalog, base, stored, n - 1);
        let raw = stored[n - 1].0;
        if 0 < raw && (raw as int) < catalog.location_count() {
            before.insert(
                raw as u16,
                merged_location(catalog, location_or_empty(before, raw as u16), stored[n - 1].1),
            )
        } else {
            before
        }
    }
}

/// A quest after a stored one was read into it.
pub open spec fn loaded_quest(catalog: &Catalog, base: QuestView, stored: SerdeQuest3View) -> QuestView {
    QuestView {
        state: stored.state,
        encounter: loaded_encounters(catalog, base.encounter, stored.encounters, stored.encounters.len() as int),
        vis: stored.vis,
        note: stored.note,
    }
}

/// The quests after the first `n` stored ones were read into them; a number
/// that is no quest of the catalog is passed over.
pub open spec fn loaded_quests(
    catalog: &Catalog,
    base: Map<u16, QuestView>,
    stored: Seq<(usize, SerdeQuest3View)>,
    n: int,
) -> Map<u16, QuestView>
    decreases n,
{
    if n <= 0 {
        base
    } else {
        let before = loaded_quests(catalog, base, stored, n - 1);
        let raw = stored[n - 1].0;
        if (raw as int) < catalog.quest_count() {
            before.insert(
                raw as u16,
                loaded_quest(catalog, crate::global::data::quest_or_blank(before, raw as u16), stored[n - 1].1),
            )
        } else {
            before
        }
    }
}

/// The location notes after the first `n` stored ones were read; a number
/// that is no location of the catalog, or the prologue, is passed over.
pub open spec fn loaded_locations(catalog: &Catalog, stored: Seq<(usize, Seq<char>)>, n: int) -> Map<
    u16,
    Seq<char>,
>
    decreases n,
{
    if n <= 0 {
        Map::empty()
    } else {
        let before = loaded_locations(catalog, stored, n - 1);
        let raw = stored[n - 1].0;
        if 0 < raw && (raw as int) < catalog.location_count() {
            before.insert(raw as u16, stored[n - 1].1)
        } else {
            before
        }
    }
}

/// The journal before cleaning that reading a stored one gives: the built-in
/// quests, then every stored note and quest in turn.
pub open spec fn loaded_raw(catalog: &Catalog, stored: SerdeGameData3View) -> DataView {
    DataView {
        quest: loaded_quests(catalog, fresh().quest, stored.quests, stored.quests.len() as int),
        location: loaded_locations(catalog, stored.locations, stored.locations.len() as int),
    }
}

/// The journal that reading a stored one gives.
pub open spec fn loaded(catalog: &Catalog, stored: SerdeGameData3View) -> DataView {
    cleaned(loaded_raw(catalog, stored))
}

fn save_entry(e: Option<QuestLocationEncounter>) -> (r: Option<(Option<usize>, Vis)>)
    ensures
        r == saved_entry(e),
{
    match e {
        Some(e) => {
            let p = match e.prerequisite {
                Some(p) => Some(p.raw()),
                None => None,
            };
            Some((p, e.vis))
        },
        None => None,
    }
}

impl Data {
    pub fn save_encounter(encounters: &QuestLocation) -> (r: SerdeEncounter3)
        ensures
            r == saved_encounter(*encounters),
    {
        EncounterMap {
            unless: save_entry(encounters.unless),
            gain: save_entry(encounters.gain),
            when: save_entry(encounters.when),
            complete: save_entry(encounters.complete),
            lose: save_entry(encounters.lose),
        }
    }

    pub fn save_quest(quest: &Quest) -> (r: SerdeQuest3)
        ensures
            r@ == saved_quest(quest),
    {
        let mut encounters: Vec<(usize, SerdeEncounter3)> = Vec::new();
        let mut i: usize = 0;
        while i < quest.encounter.len()
            invariant
                i <= quest.encounter.seq().len(),
                encounters@ == saved_encounters(quest.encounter.seq(), i as int),
            decreases quest.encounter.seq().len() - i,
        {
            let l = quest.encounter.key_at(i);
            if l != 0 {
                encounters.push((l as usize, Data::save_encounter(quest.encounter.value_at(i))));
            }
            i = i + 1;
        }
        SerdeQuest3(quest.state, encounters, quest.note.clone(), quest.vis)
    }

    /// The journal in its newest stored form.
    pub fn save_game_data(&self) -> (r: SerdeGameData3)
        ensures
            r@ == saved(self),
    {
        let mut quests: Vec<(usize, SerdeQuest3)> = Vec::new();
        let mut i: usize = 0;
        while i < self.quest.len()
            invariant
                i <= self.quest.seq().len(),
                quests@.len() == i,
                forall|j: int|
                    0 <= j < i ==> (#[trigger] quests@[j]).0 == self.quest.seq()[j].0 as usize && quests@[j].1@
                        == saved_quest(&self.quest.seq()[j].1),
            decreases self.quest.seq().len() - i,
        {
            quests.push((self.quest.key_at(i) as usize, Data::save_quest(self.quest.value_at(i))));
            i = i + 1;
        }
        let mut locations: Vec<(usize, SerdeLocation3)> = Vec::new();
        let mut i: usize = 0;
        while i < self.location.len()
            invariant
                i <= self.location.seq().len(),
                locations@.len() == i,
                forall|j: int|
                    0 <= j < i ==> (#[trigger] locations@[j]).0 == self.location.seq()[j].0 as usize
                        && locations@[j].1.0@ == self.location.seq()[j].1@,
            decreases self.location.seq().len() - i,
        {
            locations.push((self.location.key_at(i) as usize, SerdeLocation3(self.location.value_at(i).clone())));
            i = i + 1;
        }
        let r = SerdeGameData3 { quests, locations };
        proof {
            assert(r@.quests =~= saved(self).quests);
            assert(r@.locations =~= saved(self).locations);
        }
        r
    }
}

/// Reading stored encounters into locations that fit the catalog gives locations that fit it.
pub proof fn lemma_loaded_encounters_fit(
    catalog: &Catalog,
    base: Map<u16, QuestLocation>,
    stored: Seq<(usize, SerdeEncounter3)>,
    n: int,
)
    requires
        0 <= n <= stored.len(),
        forall|l: u16| #[trigger]
            base.contains_key(l) ==> (l as int) < catalog.location_count() && location_fits(base[l], catalog),
    ensures
        forall|l: u16| #[trigger]
            loaded_encounters(catalog, base, stored, n).contains_key(l) ==> (l as int) < catalog.location_count()
                && location_fits(loaded_encounters(catalog, base, stored, n)[l], catalog),
    decreases n,
{
    if n > 0 {
        lemma_loaded_encounters_fit(catalog, base, stored, n - 1);
        let before = loaded_encounters(catalog, base, stored, n - 1);
        let raw = stored[n - 1].0;
        if 0 < raw && (raw as int) < catalog.location_count() {
            let b = location_or_empty(before, raw as u16);
            let m = merged_location(catalog, b, stored[n - 1].1);
            assert(location_fits(b, catalog)) by {
                if !before.contains_key(raw as u16) {
                    assert forall|key: EncounterType| (#[trigger] b.slot(key)) is None by {}
                }
            }
            assert forall|key: EncounterType|
                (#[trigger] m.slot(key)) is Some && m.slot(key)->Some_0.prerequisite is Some implies m.slot(
                key,
            )->Some_0.prerequisite->Some_0.known(catalog) by {
                if stored[n - 1].1.slot(key) is None {
                    assert(m.slot(key) == b.slot(key));
                }
            }
        }
    }
}

fn load_entry(
    catalog: &Catalog,
    key: EncounterType,
    base: Option<QuestLocationEncounter>,
    stored: Option<(Option<usize>, Vis)>,
) -> (r: Option<QuestLocationEncounter>)
    requires
        catalog.wf(),
    ensures
        r == merged_entry(catalog, key, base, stored),
{
    match stored {
        Some(e) => {
            let prerequisite = if key == EncounterType::Gain {
                match e.0 {
                    Some(raw) => QuestId::from_raw(raw, catalog),
                    None => None,
                }
            } else {
                None
            };
            Some(QuestLocationEncounter { prerequisite, vis: e.1 })
        },
        None => base,
    }
}

fn load_location(catalog: &Catalog, base: QuestLocation, stored: &SerdeEncounter3) -> (r: QuestLocation)
    requires
        catalog.wf(),
    ensures
        r == merged_location(catalog, base, *stored),
{
    EncounterMap {
        unless: load_entry(catalog, EncounterType::Unless, base.unless, stored.unless),
        gain: load_entry(catalog, EncounterType::Gain, base.gain, stored.gain),
        when: load_entry(catalog, EncounterType::When, base.when, stored.when),
        complete: load_entry(catalog, EncounterType::Complete, base.complete, stored.complete),
        lose: load_entry(catalog, EncounterType::Lose, base.lose, stored.lose),
    }
}

fn load_encounters(catalog: &Catalog, encounter: &mut IdMap<QuestLocation>, stored: &Vec<(usize, SerdeEncounter3)>)
    requires
        catalog.wf(),
        old(encounter).wf(),
    ensures
        final(encounter).wf(),
        final(encounter)@ == loaded_encounters(catalog, old(encounter)@, stored@, stored@.len() as int),
{
    let mut i: usize = 0;
    while i < stored.len()
        invariant
            catalog.wf(),
            encounter.wf(),
            i <= stored@.len(),
            encounter@ == loaded_encounters(catalog, old(encounter)@, stored@, i as int),
        decreases stored@.len() - i,
    {
        match LocationId::from_raw(stored[i].0, catalog) {
            Some(l) => {
                let base = match encounter.get(l.0) {
                    Some(b) => *b,
                    None => QuestLocation::new(),
                };
                encounter.insert(l.0, load_location(catalog, base, &stored[i].1));
            },
            None => {},
        }
        i = i + 1;
    }
}

impl Data {
    /// Reads a journal in its newest stored form: starts from the built-in
    /// quests, takes every note and quest whose number the catalog knows, and cleans up.
    pub fn load_game_data_3(&mut self, game_data: SerdeGameData3)
        requires
            old(self).quest_locale.wf(),
        ensures
            final(self).wf(),
            final(self)@ == loaded(&old(self).quest_locale.catalog, game_data@),
            final(self).quest_locale == old(self).quest_locale,
            final(self).chain_msg == old(self).chain_msg,
    {
        self.reset();
        let ghost stored = game_data@;
        let mut i: usize = 0;
        while i < game_data.locations.len()
            invariant
                stored == game_data@,
                self.wf(),
                self.quest_locale == old(self).quest_locale,
                self.chain_msg == old(self).chain_msg,
                self@.quest == fresh().quest,
                i <= game_data.locations@.len(),
                self@.location == loaded_locations(&self.quest_locale.catalog, stored.locations, i as int),
            decreases game_data.locations@.len() - i,
        {
            let ghost before = self@;
            match LocationId::from_raw(game_data.locations[i].0, &self.quest_locale.catalog) {
                Some(l) => {
                    let note = game_data.locations[i].1.0.clone();
                    self.location.insert(l.0, note);
                    proof {
                        assert(self@.location =~= before.location.insert(l.0, note@));
                        assert(self@.quest =~= before.quest);
                        assert(stored.locations[i as int].1 == note@);
                    }
                },
                None => {},
            }
            i = i + 1;
        }
        let mut i: usize = 0;
        while i < game_data.quests.len()
            invariant
                stored == game_data@,
                self.wf(),
                self.quest_locale == old(self).quest_locale,
                self.chain_msg == old(self).chain_msg,
                self@.location == loaded_locations(
                    &self.quest_locale.catalog,
                    stored.locations,
                    stored.locations.len() as int,
                ),
                i <= game_data.quests@.len(),
                self@.quest == loaded_quests(&self.quest_locale.catalog, fresh().quest, stored.quests, i as int),
            decreases game_data.quests@.len() - i,
        {
            let ghost before = self@;
            match QuestId::from_raw(game_data.quests[i].0, &self.quest_locale.catalog) {
                Some(quest_id) => {
                    let record = &game_data.quests[i].1;
                    let mut quest = match self.take_quest(quest_id) {
                        Some(q) => q,
                        None => Quest::new(),
                    };
                    let ghost base = quest@;
                    assert(base == crate::global::data::quest_or_blank(before.quest, quest_id.0));
                    quest.state = record.0;
                    load_encounters(&self.quest_locale.catalog, &mut quest.encounter, &record.1);
                    quest.note = record.2.clone();
                    quest.vis = record.3;
                    proof {
                        let catalog = &self.quest_locale.catalog;
                        assert(stored.quests[i as int].1 == record@);
                        assert(quest@ == loaded_quest(catalog, base, record@));
                        assert(quest_fits(base, catalog));
                        lemma_loaded_encounters_fit(catalog, base.encounter, record@.encounters, record@.encounters.len() as int);
                        assert(quest_fits(quest@, catalog));
                    }
                    self.put_quest(quest_id, quest);
                    proof {
                        assert(self@.quest =~= before.quest.insert(quest_id.0, quest@));
                    }
                },
                None => {},
            }
            i = i + 1;
        }
        assert(self@ == loaded_raw(&self.quest_locale.catalog, stored));
        self.cleanup();
    }
}

} // verus!
