//! The journal: every quest and every location note, with the chosen language.

use crate::data::encounter_map::EncounterMap;
use crate::data::encounter_type::EncounterType;
use crate::data::quest::{Quest, QuestState, QuestView};
use crate::data::quest_location::{QuestLocation, QuestLocationEncounter};
use crate::data::vis::Vis;
use crate::game::catalog::Catalog;
use crate::game::quest_id::QuestId;
use crate::game::quest_locale::QuestLocale;
use crate::id_map::IdMap;
use vstd::prelude::*;

verus! {

/// What a pane asks the application to do once its own work is done.
#[derive(Clone, Copy, Debug, PartialEq, Eq, Structural)]
pub enum Effect {
    Back,
    GoEdit,
    ResetToNew,
}

/// The journal.
pub struct Data {
    pub quest: IdMap<Quest>,
    pub location: IdMap<String>,
    pub quest_locale: QuestLocale,
    pub chain_msg: Vec<Effect>,
}

/// What a journal holds, as plain values.
pub struct DataView {
    pub quest: Map<u16, QuestView>,
    pub location: Map<u16, Seq<char>>,
}

/// The encounter that each built-in quest has at the prologue.
pub open spec fn built_in_location() -> QuestLocation {
    EncounterMap::empty().with(
        EncounterType::Gain,
        Some(QuestLocationEncounter { prerequisite: None, vis: Vis::Visible }),
    )
}

/// A quest made a built-in one: in the game unless it is over, with the prologue encounter.
pub open spec fn as_built_in(q: QuestView) -> QuestView {
    QuestView {
        state: if q.state == QuestState::Removed {
            QuestState::Removed
        } else {
            QuestState::InGame
        },
        encounter: q.encounter.insert(0, built_in_location()),
        ..q
    }
}

/// The quest under a key, or the blank quest where there is none.
pub open spec fn quest_or_blank(quests: Map<u16, QuestView>, k: u16) -> QuestView {
    if quests.contains_key(k) {
        quests[k]
    } else {
        QuestView::blank()
    }
}

/// The quests with the two built-in ones put in place.
pub open spec fn with_built_ins(quests: Map<u16, QuestView>) -> Map<u16, QuestView> {
    quests.insert(0, as_built_in(quest_or_blank(quests, 0))).insert(1, as_built_in(quest_or_blank(quests, 1)))
}

/// The journal that holds the built-in quests and nothing else.
pub open spec fn fresh() -> DataView {
    DataView { quest: with_built_ins(Map::empty()), location: Map::empty() }
}

/// A quest without its empty locations.
pub open spec fn clean_quest(q: QuestView) -> QuestView {
    QuestView {
        encounter: Map::new(
            |l: u16| q.encounter.contains_key(l) && q.encounter[l] != QuestLocation::empty(),
            |l: u16| q.encounter[l],
        ),
        ..q
    }
}

/// Whether a quest is worth keeping: it has an encounter somewhere, or a note.
pub open spec fn is_kept(q: QuestView) -> bool {
    (exists|l: u16| #[trigger] q.encounter.contains_key(l) && q.encounter[l] != QuestLocation::empty())
        || q.note.len() > 0
}

/// The journal without empty locations and without the quests that are not worth keeping.
pub open spec fn cleaned(d: DataView) -> DataView {
    DataView {
        quest: Map::new(
            |k: u16| d.quest.contains_key(k) && is_kept(d.quest[k]),
            |k: u16| clean_quest(d.quest[k]),
        ),
        location: d.location,
    }
}

/// Whether every identifier in the encounters of a location is one of the catalog.
pub open spec fn location_fits(location: QuestLocation, catalog: &Catalog) -> bool {
    forall|key: EncounterType|
        (#[trigger] location.slot(key)) is Some && location.slot(key)->Some_0.prerequisite is Some
            ==> location.slot(key)->Some_0.prerequisite->Some_0.known(catalog)
}

/// Whether every identifier in a quest is one of the catalog.
pub open spec fn quest_fits(q: QuestView, catalog: &Catalog) -> bool {
    forall|l: u16| #[trigger]
        q.encounter.contains_key(l) ==> (l as int) < catalog.location_count() && location_fits(
            q.encounter[l],
            catalog,
        )
}

/// Whether every identifier in a journal is one of the catalog.
pub open spec fn fits(d: DataView, catalog: &Catalog) -> bool {
    &&& forall|k: u16| #[trigger]
        d.quest.contains_key(k) ==> (k as int) < catalog.quest_count() && quest_fits(d.quest[k], catalog)
    &&& forall|l: u16| #[trigger] d.location.contains_key(l) ==> (l as int) < catalog.location_count()
}

/// Cleaning a quest twice is cleaning it once, and does not change whether it is kept.
pub proof fn lemma_clean_quest(q: QuestView)
    ensures
        clean_quest(clean_quest(q)) == clean_quest(q),
        is_kept(clean_quest(q)) == is_kept(q),
{
    let c = clean_quest(q);
    assert(clean_quest(c).encounter =~= c.encounter);
    if is_kept(q) && q.note.len() == 0 {
        let l = choose|l: u16| #[trigger] q.encounter.contains_key(l) && q.encounter[l] != QuestLocation::empty();
        assert(c.encounter.contains_key(l));
    }
    if is_kept(c) && c.note.len() == 0 {
        let l = choose|l: u16| #[trigger] c.encounter.contains_key(l) && c.encounter[l] != QuestLocation::empty();
        assert(q.encounter.contains_key(l));
    }
}

/// Cleaning a journal twice in a row gives what cleaning it once gives.
pub proof fn lemma_cleanup_idempotent(d: DataView)
    ensures
        cleaned(cleaned(d)) == cleaned(d),
{
    let c = cleaned(d);
    assert forall|k: u16| d.quest.contains_key(k) implies clean_quest(clean_quest(#[trigger] d.quest[k]))
        == clean_quest(d.quest[k]) && is_kept(clean_quest(d.quest[k])) == is_kept(d.quest[k]) by {
        lemma_clean_quest(d.quest[k]);
    }
    assert(cleaned(c).quest =~= c.quest);
}

/// After cleaning, a quest without an encounter and without a note is gone,
/// and a quest with a note is still there.
pub proof fn lemma_cleanup_keeps(d: DataView, k: u16)
    requires
        d.quest.contains_key(k),
    ensures
        d.quest[k].encounter == Map::<u16, QuestLocation>::empty() && d.quest[k].note.len() == 0 ==> !cleaned(
            d,
        ).quest.contains_key(k),
        d.quest[k].note.len() > 0 ==> cleaned(d).quest.contains_key(k),
        forall|j: u16| #[trigger]
            cleaned(d).quest.contains_key(j) ==> cleaned(d).quest[j].note.len() > 0 || exists|l: u16| #[trigger]
                cleaned(d).quest[j].encounter.contains_key(l) && cleaned(d).quest[j].encounter[l]
                    != QuestLocation::empty(),
{
    assert forall|j: u16| #[trigger] cleaned(d).quest.contains_key(j) implies cleaned(d).quest[j].note.len() > 0
        || exists|l: u16| #[trigger]
        cleaned(d).quest[j].encounter.contains_key(l) && cleaned(d).quest[j].encounter[l] != QuestLocation::empty(
        ) by {
        let q = d.quest[j];
        if q.note.len() == 0 {
            let l = choose|l: u16| #[trigger] q.encounter.contains_key(l) && q.encounter[l] != QuestLocation::empty();
            assert(clean_quest(q).encounter.contains_key(l));
        }
    }
}

/// The locations of a quest without the empty ones.
fn clean_encounters(encounter: &IdMap<QuestLocation>) -> (r: IdMap<QuestLocation>)
    requires
        encounter.wf(),
    ensures
        r.wf(),
        r@ == Map::new(
            |l: u16| encounter@.contains_key(l) && encounter@[l] != QuestLocation::empty(),
            |l: u16| encounter@[l],
        ),
{
    let mut r: IdMap<QuestLocation> = IdMap::new();
    let mut i: usize = 0;
    proof {
        encounter.lemma_entries();
    }
    while i < encounter.len()
        invariant
            encounter.wf(),
            r.wf(),
            i <= encounter.seq().len(),
            forall|l: u16| #[trigger]
                r@.contains_key(l) <==> (encounter@.contains_key(l) && encounter@[l] != QuestLocation::empty()
                    && exists|j: int| 0 <= j < i && #[trigger] encounter.seq()[j].0 == l),
            forall|l: u16| #[trigger] r@.contains_key(l) ==> r@[l] == encounter@[l],
        decreases encounter.seq().len() - i,
    {
        let l = encounter.key_at(i);
        let ql = *encounter.value_at(i);
        proof {
            encounter.lemma_entries();
        }
        let ghost before = r@;
        if !ql.is_empty() {
            r.insert(l, ql);
        }
        proof {
            assert forall|x: u16| #[trigger]
                r@.contains_key(x) <==> (encounter@.contains_key(x) && encounter@[x] != QuestLocation::empty()
                    && exists|j: int| 0 <= j < i + 1 && #[trigger] encounter.seq()[j].0 == x) by {
                if before.contains_key(x) {
                    let j = choose|j: int| 0 <= j < i && #[trigger] encounter.seq()[j].0 == x;
                    assert(0 <= j < i + 1 && encounter.seq()[j].0 == x);
                }
                if encounter@.contains_key(x) && encounter@[x] != QuestLocation::empty() && exists|j: int|
                    0 <= j < i + 1 && #[trigger] encounter.seq()[j].0 == x {
                    let j = choose|j: int| 0 <= j < i + 1 && #[trigger] encounter.seq()[j].0 == x;
                    if j < i {
                        assert(before.contains_key(x));
                    } else {
                        assert(x == l);
                    }
                }
            }
        }
        i = i + 1;
    }
    proof {
        encounter.lemma_entries();
        assert forall|l: u16|
            encounter@.contains_key(l) && encounter@[l] != QuestLocation::empty() implies #[trigger] r@.contains_key(
            l,
        ) by {
            let j = choose|j: int| 0 <= j < encounter.seq().len() && #[trigger] encounter.seq()[j].0 == l;
            assert(0 <= j < i && encounter.seq()[j].0 == l);
        }
        assert(r@ =~= Map::new(
            |l: u16| encounter@.contains_key(l) && encounter@[l] != QuestLocation::empty(),
            |l: u16| encounter@[l],
        ));
    }
    r
}

impl Data {
    pub open spec fn view(&self) -> DataView {
        DataView {
            quest: Map::new(|k: u16| self.quest@.contains_key(k), |k: u16| self.quest@[k]@),
            location: Map::new(|k: u16| self.location@.contains_key(k), |k: u16| self.location@[k]@),
        }
    }

    /// The invariant: the maps and the list of names are in order, and every
    /// identifier in the journal is one of the catalog.
    pub open spec fn wf(&self) -> bool {
        &&& self.quest.wf()
        &&& self.location.wf()
        &&& self.quest_locale.wf()
        &&& forall|k: u16| #[trigger] self.quest@.contains_key(k) ==> self.quest@[k].wf()
        &&& fits(self@, &self.quest_locale.catalog)
    }

    /// A journal for a catalog, with the built-in quests in place.
    pub fn new(catalog: Catalog) -> (r: Self)
        requires
            catalog.wf(),
        ensures
            r.wf(),
            r@ == fresh(),
            r.quest_locale.catalog == catalog,
            r.quest_locale.language.0 == 0,
            r.chain_msg@.len() == 0,
    {
        let mut r = Data {
            quest: IdMap::new(),
            location: IdMap::new(),
            quest_locale: QuestLocale::new(catalog),
            chain_msg: Vec::new(),
        };
        r.reset();
        r
    }

    /// Forgets everything but the built-in quests.
    pub fn reset(&mut self)
        requires
            old(self).quest_locale.wf(),
        ensures
            final(self).wf(),
            final(self)@ == fresh(),
            final(self).quest_locale == old(self).quest_locale,
            final(self).chain_msg == old(self).chain_msg,
    {
        self.quest.clear();
        self.location.clear();
        assert(self@.quest =~= Map::<u16, QuestView>::empty());
        assert(self@.location =~= Map::<u16, Seq<char>>::empty());
        self.built_in();
    }

    /// Puts the two built-in quests in place.
    pub fn built_in(&mut self)
        requires
            old(self).wf(),
        ensures
            final(self).wf(),
            final(self)@.quest == with_built_ins(old(self)@.quest),
            final(self)@.location == old(self)@.location,
            final(self).quest_locale == old(self).quest_locale,
            final(self).chain_msg == old(self).chain_msg,
    {
        self.built_in_one(QuestId::raid());
        self.built_in_one(QuestId::cottage());
        assert(self@.quest =~= with_built_ins(old(self)@.quest));
    }

    fn built_in_one(&mut self, quest_id: QuestId)
        requires
            old(self).wf(),
            quest_id.0 < 2,
        ensures
            final(self).wf(),
            final(self)@.quest == old(self)@.quest.insert(
                quest_id.0,
                as_built_in(quest_or_blank(old(self)@.quest, quest_id.0)),
            ),
            final(self)@.location == old(self)@.location,
            final(self).quest_locale == old(self).quest_locale,
            final(self).chain_msg == old(self).chain_msg,
    {
        let mut quest = match self.quest.remove(quest_id.0) {
            Some(q) => q,
            None => Quest::new(),
        };
        assert(quest@ == quest_or_blank(old(self)@.quest, quest_id.0));
        if quest.state != QuestState::Removed {
            quest.state = QuestState::InGame;
        }
        let mut prologue = QuestLocation::new();
        prologue.insert(EncounterType::Gain, None, Vis::Visible);
        quest.encounter.insert(0, prologue);
        proof {
            let catalog = &self.quest_locale.catalog;
            let before = quest_or_blank(old(self)@.quest, quest_id.0);
            assert(quest@ == as_built_in(before));
            assert(quest_fits(before, catalog));
            assert(location_fits(built_in_location(), catalog));
            assert(quest_fits(quest@, catalog));
        }
        self.quest.insert(quest_id.0, quest);
        proof {
            assert(self@.quest =~= old(self)@.quest.insert(
                quest_id.0,
                as_built_in(quest_or_blank(old(self)@.quest, quest_id.0)),
            ));
            assert(self@.location =~= old(self)@.location);
        }
    }

    /// Takes a quest out of the journal.
    pub fn take_quest(&mut self, quest_id: QuestId) -> (r: Option<Quest>)
        requires
            old(self).wf(),
        ensures
            final(self).wf(),
            final(self)@.quest == old(self)@.quest.remove(quest_id.0),
            final(self)@.location == old(self)@.location,
            final(self).location == old(self).location,
            final(self).quest_locale == old(self).quest_locale,
            final(self).chain_msg == old(self).chain_msg,
            match r {
                Some(q) => old(self)@.quest.contains_key(quest_id.0) && q@ == old(self)@.quest[quest_id.0] && q.wf()
                    && quest_id.known(&old(self).quest_locale.catalog) && quest_fits(
                    q@,
                    &old(self).quest_locale.catalog,
                ),
                None => !old(self)@.quest.contains_key(quest_id.0),
            },
    {
        let r = self.quest.remove(quest_id.0);
        proof {
            assert(self@.quest =~= old(self)@.quest.remove(quest_id.0));
            assert(self@.location =~= old(self)@.location);
            assert(old(self)@.quest.contains_key(quest_id.0) == old(self).quest@.contains_key(quest_id.0));
            assert forall|k: u16| #[trigger] self@.quest.contains_key(k) implies old(self)@.quest.contains_key(k)
                && self@.quest[k] == old(self)@.quest[k] by {}
        }
        r
    }

    /// Puts a quest into the journal, in place of the one that was there.
    pub fn put_quest(&mut self, quest_id: QuestId, quest: Quest)
        requires
            old(self).wf(),
            quest.wf(),
            quest_id.known(&old(self).quest_locale.catalog),
            quest_fits(quest@, &old(self).quest_locale.catalog),
        ensures
            final(self).wf(),
            final(self)@.quest == old(self)@.quest.insert(quest_id.0, quest@),
            final(self)@.location == old(self)@.location,
            final(self).location == old(self).location,
            final(self).quest_locale == old(self).quest_locale,
            final(self).chain_msg == old(self).chain_msg,
    {
        self.quest.insert(quest_id.0, quest);
        proof {
            assert(self@.quest =~= old(self)@.quest.insert(quest_id.0, quest@));
            assert(self@.location =~= old(self)@.location);
            assert forall|k: u16| #[trigger] self@.quest.contains_key(k) implies (k as int)
                < self.quest_locale.catalog.quest_count() && quest_fits(self@.quest[k], &self.quest_locale.catalog) by {
                if k != quest_id.0 {
                    assert(old(self)@.quest.contains_key(k));
                }
            }
        }
    }

    /// The quests that the journal holds, in the order of their names, each with its name.
    pub fn quest_iter(&self) -> (r: Vec<(QuestId, &Quest, &str)>)
        requires
            self.wf(),
        ensures
            r@.len() == self.listed().len(),
            forall|i: int|
                0 <= i < r@.len() ==> (#[trigger] r@[i]).0 == self.listed()[i] && self.quest@.contains_key(r@[i].0.0)
                    && *r@[i].1 == self.quest@[r@[i].0.0] && r@[i].2@ == self.quest_locale.name_of(r@[i].0),
    {
        let mut r: Vec<(QuestId, &Quest, &str)> = Vec::new();
        let mut i: usize = 0;
        while i < self.quest_locale.translation.len()
            invariant
                self.wf(),
                i <= self.quest_locale.translation@.len(),
                r@.len() == listed_among(self.quest_locale.translation@, self@.quest.dom(), i as int).len(),
                forall|j: int|
                    0 <= j < r@.len() ==> (#[trigger] r@[j]).0 == listed_among(
                        self.quest_locale.translation@,
                        self@.quest.dom(),
                        i as int,
                    )[j] && self.quest@.contains_key(r@[j].0.0) && *r@[j].1 == self.quest@[r@[j].0.0] && r@[j].2@
                        == self.quest_locale.name_of(r@[j].0),
            decreases self.quest_locale.translation@.len() - i,
        {
            let quest_id = self.quest_locale.translation[i];
            match self.quest.get(quest_id.0) {
                Some(quest) => {
                    r.push((quest_id, quest, self.quest_locale.get(quest_id)));
                },
                None => {},
            }
            i = i + 1;
        }
        r
    }

    /// The quests that the journal holds, in the order of their names.
    pub open spec fn listed(&self) -> Seq<QuestId> {
        listed_among(self.quest_locale.translation@, self@.quest.dom(), self.quest_locale.translation@.len() as int)
    }

    /// Drops empty locations, and the quests that have neither an encounter nor a note.
    pub fn cleanup(&mut self)
        requires
            old(self).wf(),
        ensures
            final(self).wf(),
            final(self)@ == cleaned(old(self)@),
            final(self).quest_locale == old(self).quest_locale,
            final(self).chain_msg == old(self).chain_msg,
    {
        let keys = self.quest.keys();
        let ghost start = self.quest@;
        proof {
            self.quest.lemma_entries();
            assert forall|k: u16| #[trigger] start.contains_key(k) implies exists|j: int|
                0 <= j < keys@.len() && keys@[j] == k by {
                let j = choose|j: int| 0 <= j < self.quest.seq().len() && #[trigger] self.quest.seq()[j].0 == k;
                assert(keys@[j] == k);
            }
        }
        let mut i: usize = 0;
        while i < keys.len()
            invariant
                old(self).wf(),
                start == old(self).quest@,
                self.quest.wf(),
                self.location == old(self).location,
                self.quest_locale == old(self).quest_locale,
                self.chain_msg == old(self).chain_msg,
                i <= keys@.len(),
                forall|j: int| 0 <= j < keys@.len() ==> start.contains_key(#[trigger] keys@[j]),
                forall|k: u16| #[trigger] start.contains_key(k) ==> exists|j: int| 0 <= j < keys@.len() && keys@[j] == k,
                forall|a: int, b: int| 0 <= a < b < keys@.len() ==> keys@[a] != keys@[b],
                forall|k: u16| #[trigger] self.quest@.contains_key(k) ==> start.contains_key(k) && self.quest@[k].wf(),
                forall|j: int|
                    0 <= j < i ==> (self.quest@.contains_key(#[trigger] keys@[j]) <==> is_kept(start[keys@[j]]@)),
                forall|j: int|
                    0 <= j < i && self.quest@.contains_key(#[trigger] keys@[j]) ==> self.quest@[keys@[j]]@
                        == clean_quest(start[keys@[j]]@),
                forall|j: int|
                    i <= j < keys@.len() ==> self.quest@.contains_key(#[trigger] keys@[j]) && self.quest@[keys@[j]]
                        == start[keys@[j]],
            decreases keys@.len() - i,
        {
            let k = keys[i];
            let ghost before = self.quest@;
            let taken = self.quest.remove(k);
            let quest = taken.unwrap();
            let encounter = clean_encounters(&quest.encounter);
            let keep = !encounter.is_empty() || !quest.note.as_str().is_empty();
            let cleaned_quest = Quest { state: quest.state, encounter, vis: quest.vis, note: quest.note };
            proof {
                assert(cleaned_quest@.encounter =~= clean_quest(quest@).encounter);
                assert(cleaned_quest@ == clean_quest(start[k]@));
                if is_kept(quest@) && quest@.note.len() == 0 {
                    let l = choose|l: u16| #[trigger]
                        quest@.encounter.contains_key(l) && quest@.encounter[l] != QuestLocation::empty();
                    assert(cleaned_quest@.encounter.contains_key(l));
                }
                if !(cleaned_quest@.encounter =~= Map::<u16, QuestLocation>::empty()) {
                    let l = choose|l: u16| cleaned_quest@.encounter.contains_key(l);
                    assert(quest@.encounter.contains_key(l) && quest@.encounter[l] != QuestLocation::empty());
                }
                assert(keep == is_kept(start[k]@));
            }
            if keep {
                self.quest.insert(k, cleaned_quest);
            }
            proof {
                assert forall|j: int| 0 <= j < i + 1 implies (self.quest@.contains_key(#[trigger] keys@[j]) <==> is_kept(
                    start[keys@[j]]@,
                )) by {
                    if j < i {
                        assert(keys@[j] != keys@[i as int]);
                        assert(before.contains_key(keys@[j]) <==> is_kept(start[keys@[j]]@));
                    }
                }
                assert forall|j: int|
                    0 <= j < i + 1 && self.quest@.contains_key(#[trigger] keys@[j]) implies self.quest@[keys@[j]]@
                    == clean_quest(start[keys@[j]]@) by {
                    if j < i {
                        assert(keys@[j] != keys@[i as int]);
                        assert(before.contains_key(keys@[j]));
                    }
                }
                assert forall|j: int| i + 1 <= j < keys@.len() implies self.quest@.contains_key(#[trigger] keys@[j])
                    && self.quest@[keys@[j]] == start[keys@[j]] by {
                    assert(keys@[i as int] != keys@[j]);
                    assert(before.contains_key(keys@[j]));
                }
            }
            i = i + 1;
        }
        proof {
            let catalog = &self.quest_locale.catalog;
            assert forall|k: u16| #[trigger] self@.quest.contains_key(k) <==> cleaned(old(self)@).quest.contains_key(
                k,
            ) by {
                if start.contains_key(k) {
                    let j = choose|j: int| 0 <= j < keys@.len() && keys@[j] == k;
                    assert(self.quest@.contains_key(keys@[j]) <==> is_kept(start[keys@[j]]@));
                }
            }
            assert forall|k: u16| #[trigger] self@.quest.contains_key(k) implies self@.quest[k] == cleaned(
                old(self)@,
            ).quest[k] by {
                let j = choose|j: int| 0 <= j < keys@.len() && keys@[j] == k;
                assert(self.quest@[keys@[j]]@ == clean_quest(start[keys@[j]]@));
            }
            assert(self@.quest =~= cleaned(old(self)@).quest);
            assert(self@.location =~= old(self)@.location);
            lemma_cleaned_fits(old(self)@, catalog);
        }
    }
}

/// Those of the first `n` quests of a list that are among `held`, in the order of the list.
pub open spec fn listed_among(order: Seq<QuestId>, held: Set<u16>, n: int) -> Seq<QuestId>
    decreases n,
{
    if n <= 0 {
        Seq::empty()
    } else if held.contains(order[n - 1].0) {
        listed_among(order, held, n - 1).push(order[n - 1])
    } else {
        listed_among(order, held, n - 1)
    }
}

/// Cleaning keeps every identifier within the catalog.
pub proof fn lemma_cleaned_fits(d: DataView, catalog: &Catalog)
    requires
        fits(d, catalog),
    ensures
        fits(cleaned(d), catalog),
{
    assert forall|k: u16| #[trigger] cleaned(d).quest.contains_key(k) implies (k as int) < catalog.quest_count()
        && quest_fits(cleaned(d).quest[k], catalog) by {
        assert(d.quest.contains_key(k));
        assert(quest_fits(d.quest[k], catalog));
        assert forall|l: u16| #[trigger] clean_quest(d.quest[k]).encounter.contains_key(l) implies (l as int)
            < catalog.location_count() && location_fits(clean_quest(d.quest[k]).encounter[l], catalog) by {
            assert(d.quest[k].encounter.contains_key(l));
        }
    }
}

} // verus!
