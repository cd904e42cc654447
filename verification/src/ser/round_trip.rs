//! Storing a journal and reading it back.

use crate::data::encounter_map::EncounterMap;
use crate::data::encounter_type::EncounterType;
use crate::data::quest::{Quest, QuestView};
use crate::data::quest_location::QuestLocation;
use crate::game::catalog::Catalog;
use crate::global::data::{
    built_in_location, cleaned, fresh, location_fits, quest_fits, quest_or_blank, Data, DataView,
};
use crate::id_map::keys_rise;
use crate::ser::game_data_3::{
    loaded, loaded_encounters, loaded_locations, loaded_quest, loaded_quests, loaded_raw, merged_location, saved, saved_encounter, saved_encounters, saved_quest, SerdeEncounter3,
};
use vstd::prelude::*;

verus! {

/// Whether only the encounters that gain the quest name a prerequisite.
pub open spec fn prerequisite_on_gain_only(l: QuestLocation) -> bool {
    forall|key: EncounterType|
        (#[trigger] l.slot(key)) is Some && key != EncounterType::Gain ==> l.slot(key)->Some_0.prerequisite is None
}

/// Whether a quest can be stored without loss: a built-in quest has at the
/// prologue the one encounter that every journal gives it, another quest has
/// nothing there, and only encounters that gain the quest name a prerequisite.
pub open spec fn quest_is_storable(k: u16, q: QuestView) -> bool {
    &&& q.encounter.contains_key(0) <==> k < 2
    &&& k < 2 ==> q.encounter[0] == built_in_location()
    &&& forall|l: u16| #[trigger] q.encounter.contains_key(l) ==> prerequisite_on_gain_only(q.encounter[l])
}

/// Whether a journal can be stored without loss: it holds both built-in
/// quests, every quest can be stored without loss, and the prologue has no note.
pub open spec fn is_storable(d: DataView) -> bool {
    &&& d.quest.contains_key(0)
    &&& d.quest.contains_key(1)
    &&& forall|k: u16| #[trigger] d.quest.contains_key(k) ==> quest_is_storable(k, d.quest[k])
    &&& !d.location.contains_key(0)
}

proof fn lemma_encounters_prefix(
    catalog: &Catalog,
    base: Map<u16, QuestLocation>,
    s: Seq<(usize, SerdeEncounter3)>,
    x: (usize, SerdeEncounter3),
    m: int,
)
    requires
        0 <= m <= s.len(),
    ensures
        loaded_encounters(catalog, base, s.push(x), m) == loaded_encounters(catalog, base, s, m),
    decreases m,
{
    if m > 0 {
        lemma_encounters_prefix(catalog, base, s, x, m - 1);
        assert(s.push(x)[m - 1] == s[m - 1]);
    }
}

proof fn lemma_location_restored(catalog: &Catalog, l: QuestLocation)
    requires
        location_fits(l, catalog),
        prerequisite_on_gain_only(l),
        catalog.wf(),
    ensures
        merged_location(catalog, QuestLocation::empty(), saved_encounter(l)) == l,
{
    let m = merged_location(catalog, QuestLocation::empty(), saved_encounter(l));
    assert forall|key: EncounterType| #[trigger] m.slot(key) == l.slot(key) by {
        if l.slot(key) is Some {
            let e = l.slot(key)->Some_0;
            if e.prerequisite is Some {
                assert(key == EncounterType::Gain);
                assert(e.prerequisite->Some_0.known(catalog));
                assert((e.prerequisite->Some_0.0 as usize) as u16 == e.prerequisite->Some_0.0);
            }
        }
    }
    EncounterMap::lemma_same_slots(m, l);
}

/// The length of the stored list of locations never exceeds that of the list it was made from.
proof fn lemma_saved_encounters_len(e: Seq<(u16, QuestLocation)>, n: int)
    requires
        0 <= n <= e.len(),
    ensures
        saved_encounters(e, n).len() <= n,
    decreases n,
{
    if n > 0 {
        lemma_saved_encounters_len(e, n - 1);
    }
}

proof fn lemma_encounters_restored(catalog: &Catalog, base: Map<u16, QuestLocation>, e: Seq<(u16, QuestLocation)>, n: int)
    requires
        catalog.wf(),
        keys_rise(e),
        0 <= n <= e.len(),
        forall|l: u16| #[trigger] base.contains_key(l) ==> l == 0,
        forall|j: int|
            0 <= j < e.len() ==> ((#[trigger] e[j]).0 as int) < catalog.location_count() && location_fits(
                e[j].1,
                catalog,
            ) && prerequisite_on_gain_only(e[j].1),
    ensures
        ({
            let s = saved_encounters(e, n);
            let g = loaded_encounters(catalog, base, s, s.len() as int);
            &&& forall|l: u16| #[trigger]
                g.contains_key(l) <==> base.contains_key(l) || (l != 0 && exists|j: int|
                    0 <= j < n && (#[trigger] e[j]).0 == l)
            &&& forall|l: u16| #[trigger] base.contains_key(l) ==> g[l] == base[l]
            &&& forall|j: int| 0 <= j < n && (#[trigger] e[j]).0 != 0 ==> g[e[j].0] == e[j].1
        }),
    decreases n,
{
    if n > 0 {
        lemma_encounters_restored(catalog, base, e, n - 1);
        let s0 = saved_encounters(e, n - 1);
        let g0 = loaded_encounters(catalog, base, s0, s0.len() as int);
        let s = saved_encounters(e, n);
        let g = loaded_encounters(catalog, base, s, s.len() as int);
        let key = e[n - 1].0;
        if key != 0 {
            let x = (key as usize, saved_encounter(e[n - 1].1));
            assert(s == s0.push(x));
            lemma_encounters_prefix(catalog, base, s0, x, s0.len() as int);
            assert(!g0.contains_key(key)) by {
                if g0.contains_key(key) {
                    let j = choose|j: int| 0 <= j < n - 1 && (#[trigger] e[j]).0 == key;
                    assert(e[j].0 < e[n - 1].0);
                }
            }
            lemma_location_restored(catalog, e[n - 1].1);
            assert(s[s.len() - 1] == x);
            assert((key as usize) as u16 == key);
            assert(g == g0.insert(key, e[n - 1].1));
            assert forall|l: u16| #[trigger]
                g.contains_key(l) <==> base.contains_key(l) || (l != 0 && exists|j: int|
                    0 <= j < n && (#[trigger] e[j]).0 == l) by {
                if l == key {
                    assert(e[n - 1].0 == l);
                } else {
                    if l != 0 && exists|j: int| 0 <= j < n && (#[trigger] e[j]).0 == l {
                        let j = choose|j: int| 0 <= j < n && (#[trigger] e[j]).0 == l;
                        assert(0 <= j < n - 1 && e[j].0 == l);
                    }
                    if g0.contains_key(l) && !base.contains_key(l) {
                        let j = choose|j: int| 0 <= j < n - 1 && (#[trigger] e[j]).0 == l;
                        assert(0 <= j < n && e[j].0 == l);
                    }
                }
            }
            assert forall|j: int| 0 <= j < n && (#[trigger] e[j]).0 != 0 implies g[e[j].0] == e[j].1 by {
                if j < n - 1 {
                    assert(e[j].0 < e[n - 1].0);
                }
            }
        } else {
            assert(s == s0);
            assert forall|l: u16| #[trigger]
                g.contains_key(l) <==> base.contains_key(l) || (l != 0 && exists|j: int|
                    0 <= j < n && (#[trigger] e[j]).0 == l) by {
                if l != 0 && exists|j: int| 0 <= j < n && (#[trigger] e[j]).0 == l {
                    let j = choose|j: int| 0 <= j < n && (#[trigger] e[j]).0 == l;
                    assert(0 <= j < n - 1 && e[j].0 == l);
                }
                if g0.contains_key(l) && !base.contains_key(l) {
                    let j = choose|j: int| 0 <= j < n - 1 && (#[trigger] e[j]).0 == l;
                    assert(0 <= j < n && e[j].0 == l);
                }
            }
        }
    }
}

/// A quest that can be stored without loss is read back as it was, on top of
/// what every journal starts with.
proof fn lemma_quest_restored(catalog: &Catalog, k: u16, q: &Quest)
    requires
        catalog.wf(),
        q.wf(),
        quest_fits(q@, catalog),
        quest_is_storable(k, q@),
    ensures
        loaded_quest(catalog, quest_or_blank(fresh().quest, k), saved_quest(q)) == q@,
{
    let base = quest_or_blank(fresh().quest, k);
    let e = q.encounter.seq();
    let n = e.len() as int;
    q.encounter.lemma_entries();
    assert forall|j: int| 0 <= j < e.len() implies ((#[trigger] e[j]).0 as int) < catalog.location_count()
        && location_fits(e[j].1, catalog) && prerequisite_on_gain_only(e[j].1) by {
        assert(q@.encounter.contains_key(e[j].0));
    }
    assert forall|l: u16| #[trigger] base.encounter.contains_key(l) implies l == 0 by {}
    lemma_encounters_restored(catalog, base.encounter, e, n);
    let s = saved_encounters(e, n);
    let g = loaded_encounters(catalog, base.encounter, s, s.len() as int);
    assert forall|l: u16| #[trigger] g.contains_key(l) <==> q@.encounter.contains_key(l) by {
        if q@.encounter.contains_key(l) {
            let j = choose|j: int| 0 <= j < e.len() && #[trigger] e[j].0 == l;
            if l != 0 {
                assert(0 <= j < n && e[j].0 == l);
            } else {
                assert(k < 2);
                assert(base.encounter.contains_key(0));
            }
        }
        if g.contains_key(l) && !base.encounter.contains_key(l) {
            let j = choose|j: int| 0 <= j < n && (#[trigger] e[j]).0 == l;
            assert(q@.encounter.contains_key(e[j].0));
        }
    }
    assert forall|l: u16| #[trigger] g.contains_key(l) implies g[l] == q@.encounter[l] by {
        if l != 0 {
            let j = choose|j: int| 0 <= j < e.len() && #[trigger] e[j].0 == l;
            assert(g[e[j].0] == e[j].1);
        } else {
            assert(base.encounter.contains_key(0));
        }
    }
    assert(g =~= q@.encounter);
}

proof fn lemma_quests_restored(d: &Data, n: int)
    requires
        d.wf(),
        is_storable(d@),
        0 <= n <= d.quest.seq().len(),
    ensures
        ({
            let g = loaded_quests(&d.quest_locale.catalog, fresh().quest, saved(d).quests, n);
            &&& forall|k: u16| #[trigger]
                g.contains_key(k) <==> k < 2 || exists|j: int| 0 <= j < n && (#[trigger] d.quest.seq()[j]).0 == k
            &&& forall|j: int| 0 <= j < n ==> g[(#[trigger] d.quest.seq()[j]).0] == d.quest.seq()[j].1@
            &&& forall|k: u16|
                k < 2 && !(exists|j: int| 0 <= j < n && (#[trigger] d.quest.seq()[j]).0 == k) ==> #[trigger] g[k]
                    == fresh().quest[k]
        }),
    decreases n,
{
    let catalog = &d.quest_locale.catalog;
    let e = d.quest.seq();
    let t = saved(d).quests;
    if n > 0 {
        lemma_quests_restored(d, n - 1);
        let g0 = loaded_quests(catalog, fresh().quest, t, n - 1);
        let g = loaded_quests(catalog, fresh().quest, t, n);
        let key = e[n - 1].0;
        d.quest.lemma_entries();
        assert(d.quest@.contains_key(key));
        assert(d@.quest.contains_key(key));
        assert(d@.quest[key] == e[n - 1].1@);
        assert(t[n - 1] == (key as usize, saved_quest(&e[n - 1].1)));
        assert((key as usize) as u16 == key);
        assert(!(exists|j: int| 0 <= j < n - 1 && (#[trigger] e[j]).0 == key)) by {
            if exists|j: int| 0 <= j < n - 1 && (#[trigger] e[j]).0 == key {
                let j = choose|j: int| 0 <= j < n - 1 && (#[trigger] e[j]).0 == key;
                assert(e[j].0 < e[n - 1].0);
            }
        }
        assert(quest_or_blank(g0, key) == quest_or_blank(fresh().quest, key));
        lemma_quest_restored(catalog, key, &e[n - 1].1);
        assert(g == g0.insert(key, e[n - 1].1@));
        assert forall|k: u16| #[trigger]
            g.contains_key(k) <==> k < 2 || exists|j: int| 0 <= j < n && (#[trigger] e[j]).0 == k by {
            if k == key {
                assert(e[n - 1].0 == k);
            } else {
                if exists|j: int| 0 <= j < n && (#[trigger] e[j]).0 == k {
                    let j = choose|j: int| 0 <= j < n && (#[trigger] e[j]).0 == k;
                    assert(0 <= j < n - 1 && e[j].0 == k);
                }
                if g0.contains_key(k) && k >= 2 {
                    let j = choose|j: int| 0 <= j < n - 1 && (#[trigger] e[j]).0 == k;
                    assert(0 <= j < n && e[j].0 == k);
                }
            }
        }
        assert forall|j: int| 0 <= j < n implies g[(#[trigger] e[j]).0] == e[j].1@ by {
            if j < n - 1 {
                assert(e[j].0 < e[n - 1].0);
            }
        }
        assert forall|k: u16|
            k < 2 && !(exists|j: int| 0 <= j < n && (#[trigger] e[j]).0 == k) implies #[trigger] g[k]
            == fresh().quest[k] by {
            assert(k != key) by {
                if k == key {
                    assert(e[n - 1].0 == k);
                }
            }
            if exists|j: int| 0 <= j < n - 1 && (#[trigger] e[j]).0 == k {
                let j = choose|j: int| 0 <= j < n - 1 && (#[trigger] e[j]).0 == k;
                assert(0 <= j < n && e[j].0 == k);
            }
        }
    }
}

proof fn lemma_locations_restored(d: &Data, n: int)
    requires
        d.wf(),
        !d@.location.contains_key(0),
        0 <= n <= d.location.seq().len(),
    ensures
        ({
            let g = loaded_locations(&d.quest_locale.catalog, saved(d).locations, n);
            &&& forall|l: u16| #[trigger]
                g.contains_key(l) <==> exists|j: int| 0 <= j < n && (#[trigger] d.location.seq()[j]).0 == l
            &&& forall|j: int| 0 <= j < n ==> g[(#[trigger] d.location.seq()[j]).0] == d.location.seq()[j].1@
        }),
    decreases n,
{
    let catalog = &d.quest_locale.catalog;
    let e = d.location.seq();
    let t = saved(d).locations;
    if n > 0 {
        lemma_locations_restored(d, n - 1);
        let g0 = loaded_locations(catalog, t, n - 1);
        let g = loaded_locations(catalog, t, n);
        let key = e[n - 1].0;
        d.location.lemma_entries();
        assert(d.location@.contains_key(key));
        assert(d@.location.contains_key(key));
        assert(key != 0);
        assert(t[n - 1] == (key as usize, e[n - 1].1@));
        assert((key as usize) as u16 == key);
        assert(g == g0.insert(key, e[n - 1].1@));
        assert forall|l: u16| #[trigger]
            g.contains_key(l) <==> exists|j: int| 0 <= j < n && (#[trigger] e[j]).0 == l by {
            if l == key {
                assert(e[n - 1].0 == l);
            } else {
                if exists|j: int| 0 <= j < n && (#[trigger] e[j]).0 == l {
                    let j = choose|j: int| 0 <= j < n && (#[trigger] e[j]).0 == l;
                    assert(0 <= j < n - 1 && e[j].0 == l);
                }
                if g0.contains_key(l) {
                    let j = choose|j: int| 0 <= j < n - 1 && (#[trigger] e[j]).0 == l;
                    assert(0 <= j < n && e[j].0 == l);
                }
            }
        }
        assert forall|j: int| 0 <= j < n implies g[(#[trigger] e[j]).0] == e[j].1@ by {
            if j < n - 1 {
                assert(e[j].0 < e[n - 1].0);
            }
        }
    }
}

/// Reading back what was stored gives the journal again, cleaned up: the same
/// quests with the same states, encounters, notes and levels of restriction,
/// and the same location notes. This holds of every journal that can be
/// stored without loss.
pub proof fn lemma_stored_round_trip(d: &Data)
    requires
        d.wf(),
        is_storable(d@),
    ensures
        loaded(&d.quest_locale.catalog, saved(d)) == cleaned(d@),
{
    let catalog = &d.quest_locale.catalog;
    let raw = loaded_raw(catalog, saved(d));
    let nq = d.quest.seq().len() as int;
    let nl = d.location.seq().len() as int;
    lemma_quests_restored(d, nq);
    lemma_locations_restored(d, nl);
    d.quest.lemma_entries();
    d.location.lemma_entries();
    assert(saved(d).quests.len() == nq);
    assert(saved(d).locations.len() == nl);
    assert forall|k: u16| #[trigger] raw.quest.contains_key(k) <==> d@.quest.contains_key(k) by {
        if d@.quest.contains_key(k) {
            let j = choose|j: int| 0 <= j < nq && #[trigger] d.quest.seq()[j].0 == k;
            assert(0 <= j < nq && d.quest.seq()[j].0 == k);
        }
        if raw.quest.contains_key(k) && k >= 2 {
            let j = choose|j: int| 0 <= j < nq && (#[trigger] d.quest.seq()[j]).0 == k;
            assert(d.quest@.contains_key(d.quest.seq()[j].0));
        }
    }
    assert forall|k: u16| #[trigger] raw.quest.contains_key(k) implies raw.quest[k] == d@.quest[k] by {
        let j = choose|j: int| 0 <= j < nq && #[trigger] d.quest.seq()[j].0 == k;
        assert(raw.quest[d.quest.seq()[j].0] == d.quest.seq()[j].1@);
    }
    assert(raw.quest =~= d@.quest);
    assert forall|l: u16| #[trigger] raw.location.contains_key(l) <==> d@.location.contains_key(l) by {
        if d@.location.contains_key(l) {
            let j = choose|j: int| 0 <= j < nl && #[trigger] d.location.seq()[j].0 == l;
            assert(0 <= j < nl && d.location.seq()[j].0 == l);
        }
        if raw.location.contains_key(l) {
            let j = choose|j: int| 0 <= j < nl && (#[trigger] d.location.seq()[j]).0 == l;
            assert(d.location@.contains_key(d.location.seq()[j].0));
        }
    }
    assert forall|l: u16| #[trigger] raw.location.contains_key(l) implies raw.location[l] == d@.location[l] by {
        let j = choose|j: int| 0 <= j < nl && #[trigger] d.location.seq()[j].0 == l;
        assert(raw.location[d.location.seq()[j].0] == d.location.seq()[j].1@);
    }
    assert(raw.location =~= d@.location);
    assert(raw == d@);
}

} // verus!
