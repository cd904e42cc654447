//! Writing a journal as an exchanged file and reading the rows back.

use crate::data::encounter_map::EncounterMap;
use crate::data::encounter_type::EncounterType;
use crate::data::quest::{QuestState, QuestView};
use crate::data::quest_location::{QuestLocation, QuestLocationEncounter};
use crate::data::vis::Vis;
use crate::game::game_language::GameLanguage;
use crate::game::location_id::LocationId;
use crate::game::quest_id::QuestId;
use crate::game::quest_locale::lists;
use crate::global::data::{
    built_in_location, clean_quest, cleaned, fresh, is_kept, lemma_clean_quest, listed_among, quest_fits,
    quest_or_blank, Data, DataView,
};
use crate::ser::csv::{
    all_read, applied, checked, diagnostics, field_of, header_row, imported_rows, language_checked,
    location_table, lookup, quest_table, read_of, read_rows, row_fails, type_of, with_encounter_row,
    with_location_row, with_quest_row, MyError, Type,
};
use crate::ser::csv_export::{
    encounter_row, encounter_rows_at, encounter_rows_of, exported, is_exported, language_row, location_name_of,
    location_row, location_rows, prerequisite_name, quest_row, quest_rows, rows_of_location,
};
use crate::ser::game_data_3::location_or_empty;
use vstd::prelude::*;

verus! {

/// What a row of an exchanged file speaks of.
pub enum RowOf {
    Quest(u16),
    Location(u16),
    Encounter(u16, u16, EncounterType),
}

/// Whether the name of a quest is read back as that quest.
pub open spec fn quest_resolves(d: &Data, q: QuestId) -> bool {
    let names = quest_table(&d.quest_locale.catalog, d.quest_locale.language);
    &&& d.quest_locale.name_of(q).len() > 0
    &&& lookup(names, d.quest_locale.name_of(q), names.len() as int) == Some(q)
}

/// Whether the name of a location is read back as that location.
pub open spec fn location_resolves(d: &Data, l: u16) -> bool {
    let names = location_table(&d.quest_locale.catalog, d.quest_locale.language);
    &&& location_name_of(d, l as int).len() > 0
    &&& lookup(names, location_name_of(d, l as int), names.len() as int) == Some(LocationId(l))
}

/// Whether the journal holds what a row would speak of, so that writing the journal gives the row.
pub open spec fn is_row_of(d: &Data, what: RowOf) -> bool {
    match what {
        RowOf::Quest(k) => d@.quest.contains_key(k) && is_exported(d@.quest[k]),
        RowOf::Location(l) => l != 0 && d@.location.contains_key(l) && d@.location[l].len() > 0,
        RowOf::Encounter(k, l, t) => l != 0 && d@.quest.contains_key(k) && d@.quest[k].encounter.contains_key(l)
            && d@.quest[k].encounter[l].slot(t) is Some,
    }
}

/// The row that writing the journal gives for what the journal holds.
pub open spec fn row_for(d: &Data, what: RowOf) -> Seq<Seq<char>> {
    match what {
        RowOf::Quest(k) => quest_row(d.quest_locale.name_of(QuestId(k)), d@.quest[k]),
        RowOf::Location(l) => location_row(location_name_of(d, l as int), d@.location[l]),
        RowOf::Encounter(k, l, t) => encounter_row(
            location_name_of(d, l as int),
            d.quest_locale.name_of(QuestId(k)),
            t,
            prerequisite_name(d, d@.quest[k].encounter[l].slot(t)->Some_0),
            d@.quest[k].encounter[l].slot(t)->Some_0.vis,
        ),
    }
}

/// Whether every name that writing the journal puts into a row is read back
/// as what it names.
pub open spec fn names_resolve(d: &Data) -> bool {
    &&& forall|k: u16| #[trigger] d@.quest.contains_key(k) ==> quest_resolves(d, QuestId(k))
    &&& forall|l: u16| l != 0 && #[trigger] d@.location.contains_key(l) ==> location_resolves(d, l)
    &&& forall|k: u16, l: u16|
        l != 0 && d@.quest.contains_key(k) && #[trigger] d@.quest[k].encounter.contains_key(l) ==> location_resolves(
            d,
            l,
        )
    &&& forall|k: u16, l: u16, t: EncounterType|
        d@.quest.contains_key(k) && d@.quest[k].encounter.contains_key(l) && (
        #[trigger] d@.quest[k].encounter[l].slot(t)) is Some && d@.quest[k].encounter[l].slot(
            t,
        )->Some_0.prerequisite is Some ==> quest_resolves(
            d,
            d@.quest[k].encounter[l].slot(t)->Some_0.prerequisite->Some_0,
        )
}

/// What a journal read from rows holds for one encounter type of one quest at
/// one location, when the rows spoke of `written`: what the row said where
/// there was one, and else only what every journal starts with.
pub open spec fn cell(d: &Data, written: Set<RowOf>, k: u16, l: u16, t: EncounterType) -> Option<
    QuestLocationEncounter,
> {
    if written.contains(RowOf::Encounter(k, l, t)) {
        d@.quest[k].encounter[l].slot(t)
    } else if l == 0 && k < 2 && t == EncounterType::Gain {
        Some(QuestLocationEncounter { prerequisite: None, vis: Vis::Visible })
    } else {
        None
    }
}

/// Whether the rows spoke of an encounter of one quest at one location.
pub open spec fn wrote_at(written: Set<RowOf>, k: u16, l: u16) -> bool {
    exists|t: EncounterType| #[trigger] written.contains(RowOf::Encounter(k, l, t))
}

/// Whether the rows spoke of an encounter of one quest.
pub open spec fn wrote_for(written: Set<RowOf>, k: u16) -> bool {
    exists|l: u16| #[trigger] wrote_at(written, k, l)
}

/// The quest that a journal read from rows holds under a key.
pub open spec fn read_quest(d: &Data, written: Set<RowOf>, k: u16) -> QuestView {
    let own = written.contains(RowOf::Quest(k));
    QuestView {
        state: if own {
            d@.quest[k].state
        } else if k < 2 {
            QuestState::InGame
        } else {
            QuestState::NotFound
        },
        encounter: Map::new(
            |l: u16| (l == 0 && k < 2) || wrote_at(written, k, l),
            |l: u16|
                EncounterMap {
                    unless: cell(d, written, k, l, EncounterType::Unless),
                    gain: cell(d, written, k, l, EncounterType::Gain),
                    when: cell(d, written, k, l, EncounterType::When),
                    complete: cell(d, written, k, l, EncounterType::Complete),
                    lose: cell(d, written, k, l, EncounterType::Lose),
                },
        ),
        vis: if own {
            d@.quest[k].vis
        } else {
            Vis::Visible
        },
        note: if own {
            d@.quest[k].note
        } else {
            Seq::empty()
        },
    }
}

/// The journal that is read from rows that spoke of `written`, before it is cleaned.
pub open spec fn read_from(d: &Data, written: Set<RowOf>) -> DataView {
    DataView {
        quest: Map::new(
            |k: u16| k < 2 || written.contains(RowOf::Quest(k)) || wrote_for(written, k),
            |k: u16| read_quest(d, written, k),
        ),
        location: Map::new(|l: u16| written.contains(RowOf::Location(l)), |l: u16| d@.location[l]),
    }
}

/// The first cells of the rows say what the rows speak of.
pub proof fn lemma_row_types()
    ensures
        type_of("quest"@) == Some(Type::Quest),
        type_of("location"@) == Some(Type::Location),
        type_of("encounter"@) == Some(Type::Encounter),
        ""@.len() == 0,
{
    reveal_strlit("quest");
    reveal_strlit("location");
    reveal_strlit("encounter");
    reveal_strlit("");
    assert("quest"@.len() == 5);
    assert("location"@.len() == 8);
    assert("encounter"@.len() == 9);
    assert(""@.len() == 0);
}

/// A journal without rows is the journal that every journal starts as.
pub proof fn lemma_read_from_nothing(d: &Data)
    ensures
        read_from(d, Set::<RowOf>::empty()) == fresh(),
{
    let w = Set::<RowOf>::empty();
    let r = read_from(d, w);
    let f = fresh();
    assert forall|k: u16| k < 2 implies #[trigger] r.quest[k] == f.quest[k] by {
        let q = read_quest(d, w, k);
        assert(q.encounter =~= f.quest[k].encounter) by {
            assert forall|l: u16| q.encounter.contains_key(l) implies #[trigger] q.encounter[l] == built_in_location(
            ) by {
                assert(l == 0);
            }
        }
    }
    assert(r.quest =~= f.quest);
    assert(r.location =~= f.location);
}

/// Two sets of rows that speak of the same encounters of a quest give the quest the same encounters.
proof fn lemma_same_encounters(d: &Data, a: Set<RowOf>, b: Set<RowOf>, k: u16)
    requires
        forall|l: u16, t: EncounterType|
            a.contains(RowOf::Encounter(k, l, t)) == #[trigger] b.contains(RowOf::Encounter(k, l, t)),
    ensures
        read_quest(d, a, k).encounter == read_quest(d, b, k).encounter,
        wrote_for(a, k) == wrote_for(b, k),
        forall|l: u16| wrote_at(a, k, l) == #[trigger] wrote_at(b, k, l),
{
    assert forall|l: u16| wrote_at(a, k, l) == #[trigger] wrote_at(b, k, l) by {
        if wrote_at(a, k, l) {
            let t = choose|t: EncounterType| #[trigger] a.contains(RowOf::Encounter(k, l, t));
            assert(b.contains(RowOf::Encounter(k, l, t)));
        }
        if wrote_at(b, k, l) {
            let t = choose|t: EncounterType| #[trigger] b.contains(RowOf::Encounter(k, l, t));
            assert(a.contains(RowOf::Encounter(k, l, t)));
        }
    }
    if wrote_for(a, k) {
        let l = choose|l: u16| #[trigger] wrote_at(a, k, l);
        assert(wrote_at(b, k, l));
    }
    if wrote_for(b, k) {
        let l = choose|l: u16| #[trigger] wrote_at(b, k, l);
        assert(wrote_at(a, k, l));
    }
    let x = read_quest(d, a, k).encounter;
    let y = read_quest(d, b, k).encounter;
    assert forall|l: u16| x.contains_key(l) implies #[trigger] x[l] == y[l] by {
        assert(b.contains(RowOf::Encounter(k, l, EncounterType::Unless)) == a.contains(
            RowOf::Encounter(k, l, EncounterType::Unless),
        ));
        assert(b.contains(RowOf::Encounter(k, l, EncounterType::Gain)) == a.contains(
            RowOf::Encounter(k, l, EncounterType::Gain),
        ));
        assert(b.contains(RowOf::Encounter(k, l, EncounterType::When)) == a.contains(
            RowOf::Encounter(k, l, EncounterType::When),
        ));
        assert(b.contains(RowOf::Encounter(k, l, EncounterType::Complete)) == a.contains(
            RowOf::Encounter(k, l, EncounterType::Complete),
        ));
        assert(b.contains(RowOf::Encounter(k, l, EncounterType::Lose)) == a.contains(
            RowOf::Encounter(k, l, EncounterType::Lose),
        ));
    }
    assert(x =~= y);
}

/// A quest of which the rows did not speak is not among the quests that were
/// read, and its place holds no encounters.
proof fn lemma_unread_quest(d: &Data, w: Set<RowOf>, k: u16)
    requires
        !read_from(d, w).quest.contains_key(k),
    ensures
        read_quest(d, w, k).encounter == Map::<u16, QuestLocation>::empty(),
{
    let x = read_quest(d, w, k).encounter;
    assert forall|l: u16| !x.contains_key(l) by {
        if wrote_at(w, k, l) {
            assert(wrote_for(w, k));
        }
    }
    assert(x =~= Map::<u16, QuestLocation>::empty());
}

/// Reading the row of a quest adds the quest to what was read.
pub proof fn lemma_quest_row_read(d: &Data, w: Set<RowOf>, k: u16)
    requires
        d.wf(),
        names_resolve(d),
        is_row_of(d, RowOf::Quest(k)),
    ensures
        applied(
            read_from(d, w),
            row_for(d, RowOf::Quest(k)),
            location_table(&d.quest_locale.catalog, d.quest_locale.language),
            quest_table(&d.quest_locale.catalog, d.quest_locale.language),
        ) == Some(read_from(d, w.insert(RowOf::Quest(k)))),
{
    let s = read_from(d, w);
    let w2 = w.insert(RowOf::Quest(k));
    let q = d@.quest[k];
    let row = row_for(d, RowOf::Quest(k));
    let locations = location_table(&d.quest_locale.catalog, d.quest_locale.language);
    let quests = quest_table(&d.quest_locale.catalog, d.quest_locale.language);
    lemma_row_types();
    Vis::lemma_csv_tag_round_trip(q.vis);
    QuestState::lemma_csv_tag_round_trip(q.state);
    assert(quest_resolves(d, QuestId(k)));
    assert(row.len() == 7);
    assert(field_of(row, 0) == "quest"@);
    assert(field_of(row, 1) == ""@);
    assert(field_of(row, 2) == d.quest_locale.name_of(QuestId(k)));
    assert(field_of(row, 3) == q.state.csv_tag());
    assert(field_of(row, 4) == ""@);
    assert(field_of(row, 5) == q.vis.csv_tag());
    assert(field_of(row, 6) == q.note);
    assert(read_of(row, 1, locations) == Some(None::<LocationId>));
    assert(read_of(row, 2, quests) == Some(Some(QuestId(k))));
    assert(read_of(row, 4, quests) == Some(None::<QuestId>));
    let got = with_quest_row(s, QuestId(k), q.state, q.vis, q.note);
    assert(applied(s, row, locations, quests) == Some(got));
    let want = read_from(d, w2);
    assert forall|j: u16| #[trigger] got.quest.contains_key(j) == want.quest.contains_key(j) by {
        lemma_same_encounters(d, w, w2, j);
    }
    assert forall|j: u16| got.quest.contains_key(j) implies #[trigger] got.quest[j] == want.quest[j] by {
        lemma_same_encounters(d, w, w2, j);
        if j == k && !s.quest.contains_key(k) {
            lemma_unread_quest(d, w, k);
        }
    }
    assert(got.quest =~= want.quest);
    assert(got.location =~= want.location);
}

/// Reading the row of a location note adds the note to what was read.
pub proof fn lemma_location_row_read(d: &Data, w: Set<RowOf>, l: u16)
    requires
        d.wf(),
        names_resolve(d),
        is_row_of(d, RowOf::Location(l)),
    ensures
        applied(
            read_from(d, w),
            row_for(d, RowOf::Location(l)),
            location_table(&d.quest_locale.catalog, d.quest_locale.language),
            quest_table(&d.quest_locale.catalog, d.quest_locale.language),
        ) == Some(read_from(d, w.insert(RowOf::Location(l)))),
{
    let s = read_from(d, w);
    let w2 = w.insert(RowOf::Location(l));
    let row = row_for(d, RowOf::Location(l));
    let locations = location_table(&d.quest_locale.catalog, d.quest_locale.language);
    let quests = quest_table(&d.quest_locale.catalog, d.quest_locale.language);
    lemma_row_types();
    Vis::lemma_csv_tag_round_trip(Vis::Visible);
    assert(location_resolves(d, l));
    assert(row.len() == 7);
    assert(field_of(row, 0) == "location"@);
    assert(field_of(row, 1) == location_name_of(d, l as int));
    assert(field_of(row, 2) == ""@);
    assert(field_of(row, 4) == ""@);
    assert(field_of(row, 5) == ""@);
    assert(field_of(row, 6) == d@.location[l]);
    assert(field_of(row, 5) == Vis::Visible.csv_tag());
    assert(read_of(row, 1, locations) == Some(Some(LocationId(l))));
    assert(read_of(row, 2, quests) == Some(None::<QuestId>));
    assert(read_of(row, 4, quests) == Some(None::<QuestId>));
    let got = with_location_row(s, LocationId(l), d@.location[l]);
    assert(applied(s, row, locations, quests) == Some(got));
    let want = read_from(d, w2);
    assert forall|j: u16| #[trigger] got.quest.contains_key(j) == want.quest.contains_key(j) by {
        lemma_same_encounters(d, w, w2, j);
    }
    assert forall|j: u16| got.quest.contains_key(j) implies #[trigger] got.quest[j] == want.quest[j] by {
        lemma_same_encounters(d, w, w2, j);
    }
    assert(got.quest =~= want.quest);
    assert(got.location =~= want.location);
}

/// Reading the row of an encounter adds the encounter to what was read.
pub proof fn lemma_encounter_row_read(d: &Data, w: Set<RowOf>, k: u16, l: u16, t: EncounterType)
    requires
        d.wf(),
        names_resolve(d),
        is_row_of(d, RowOf::Encounter(k, l, t)),
    ensures
        applied(
            read_from(d, w),
            row_for(d, RowOf::Encounter(k, l, t)),
            location_table(&d.quest_locale.catalog, d.quest_locale.language),
            quest_table(&d.quest_locale.catalog, d.quest_locale.language),
        ) == Some(read_from(d, w.insert(RowOf::Encounter(k, l, t)))),
{
    let s = read_from(d, w);
    let w2 = w.insert(RowOf::Encounter(k, l, t));
    let e = d@.quest[k].encounter[l].slot(t)->Some_0;
    let row = row_for(d, RowOf::Encounter(k, l, t));
    let locations = location_table(&d.quest_locale.catalog, d.quest_locale.language);
    let quests = quest_table(&d.quest_locale.catalog, d.quest_locale.language);
    lemma_row_types();
    Vis::lemma_csv_tag_round_trip(e.vis);
    EncounterType::lemma_csv_tag_round_trip(t);
    assert(quest_resolves(d, QuestId(k)));
    assert(location_resolves(d, l));
    assert(row.len() == 7);
    assert(field_of(row, 0) == "encounter"@);
    assert(field_of(row, 1) == location_name_of(d, l as int));
    assert(field_of(row, 2) == d.quest_locale.name_of(QuestId(k)));
    assert(field_of(row, 3) == t.csv_tag());
    assert(field_of(row, 4) == prerequisite_name(d, e));
    assert(field_of(row, 5) == e.vis.csv_tag());
    assert(read_of(row, 1, locations) == Some(Some(LocationId(l))));
    assert(read_of(row, 2, quests) == Some(Some(QuestId(k))));
    assert(read_of(row, 4, quests) == Some(e.prerequisite)) by {
        if e.prerequisite is Some {
            assert(quest_resolves(d, e.prerequisite->Some_0));
        }
    }
    let got = with_encounter_row(s, QuestId(k), LocationId(l), t, e.prerequisite, e.vis);
    assert(applied(s, row, locations, quests) == Some(got));
    let want = read_from(d, w2);
    assert(w2.contains(RowOf::Encounter(k, l, t)));
    assert(wrote_at(w2, k, l));
    assert(wrote_for(w2, k));
    assert forall|j: u16| #[trigger] got.quest.contains_key(j) == want.quest.contains_key(j) by {
        if j != k {
            lemma_same_encounters(d, w, w2, j);
        }
    }
    assert forall|j: u16| got.quest.contains_key(j) implies #[trigger] got.quest[j] == want.quest[j] by {
        if j != k {
            lemma_same_encounters(d, w, w2, j);
        } else {
            let base = quest_or_blank(s.quest, k);
            let before = read_quest(d, w, k);
            if !s.quest.contains_key(k) {
                lemma_unread_quest(d, w, k);
            }
            assert(base.encounter == before.encounter);
            let x = got.quest[k].encounter;
            let y = want.quest[k].encounter;
            assert forall|m: u16| #[trigger] x.contains_key(m) == y.contains_key(m) by {
                if m != l {
                    if wrote_at(w, k, m) {
                        let u = choose|u: EncounterType| #[trigger] w.contains(RowOf::Encounter(k, m, u));
                        assert(w2.contains(RowOf::Encounter(k, m, u)));
                    }
                    if wrote_at(w2, k, m) {
                        let u = choose|u: EncounterType| #[trigger] w2.contains(RowOf::Encounter(k, m, u));
                        assert(w.contains(RowOf::Encounter(k, m, u)));
                    }
                }
            }
            assert forall|m: u16| x.contains_key(m) implies #[trigger] x[m] == y[m] by {
                assert forall|u: EncounterType| w2.contains(RowOf::Encounter(k, m, u)) == (w.contains(
                    RowOf::Encounter(k, m, u),
                ) || (m == l && u == t)) by {}
                if m == l {
                    let old_location = location_or_empty(before.encounter, l);
                    if !before.encounter.contains_key(l) {
                        assert forall|u: EncounterType| !w.contains(RowOf::Encounter(k, l, u)) by {
                            if w.contains(RowOf::Encounter(k, l, u)) {
                                assert(wrote_at(w, k, l));
                            }
                        }
                    }
                    assert forall|u: EncounterType| #[trigger] x[l].slot(u) == y[l].slot(u) by {
                        assert(w2.contains(RowOf::Encounter(k, l, u)) == (w.contains(RowOf::Encounter(k, l, u)) || u
                            == t));
                        if u != t {
                            assert(x[l].slot(u) == old_location.slot(u));
                        }
                    }
                    EncounterMap::lemma_same_slots(x[l], y[l]);
                } else {
                    assert(x[m] == before.encounter[m]);
                    assert(w2.contains(RowOf::Encounter(k, m, EncounterType::Unless)) == w.contains(
                        RowOf::Encounter(k, m, EncounterType::Unless),
                    ));
                    assert(w2.contains(RowOf::Encounter(k, m, EncounterType::Gain)) == w.contains(
                        RowOf::Encounter(k, m, EncounterType::Gain),
                    ));
                    assert(w2.contains(RowOf::Encounter(k, m, EncounterType::When)) == w.contains(
                        RowOf::Encounter(k, m, EncounterType::When),
                    ));
                    assert(w2.contains(RowOf::Encounter(k, m, EncounterType::Complete)) == w.contains(
                        RowOf::Encounter(k, m, EncounterType::Complete),
                    ));
                    assert(w2.contains(RowOf::Encounter(k, m, EncounterType::Lose)) == w.contains(
                        RowOf::Encounter(k, m, EncounterType::Lose),
                    ));
                }
            }
            assert(x =~= y);
        }
    }
    assert(got.quest =~= want.quest);
    assert(got.location =~= want.location);
}

/// Two things that the journal holds are written as different rows.
pub proof fn lemma_rows_differ(d: &Data, a: RowOf, b: RowOf)
    requires
        d.wf(),
        names_resolve(d),
        is_row_of(d, a),
        is_row_of(d, b),
        row_for(d, a) == row_for(d, b),
    ensures
        a == b,
{
    reveal_strlit("quest");
    reveal_strlit("location");
    reveal_strlit("encounter");
    assert("quest"@.len() == 5);
    assert("location"@.len() == 8);
    assert("encounter"@.len() == 9);
    let x = row_for(d, a);
    let y = row_for(d, b);
    assert(x[0] == y[0]);
    assert(x[1] == y[1]);
    assert(x[2] == y[2]);
    assert(x[3] == y[3]);
    match (a, b) {
        (RowOf::Quest(k), RowOf::Quest(j)) => {
            assert(quest_resolves(d, QuestId(k)));
            assert(quest_resolves(d, QuestId(j)));
        },
        (RowOf::Location(l), RowOf::Location(m)) => {
            assert(location_resolves(d, l));
            assert(location_resolves(d, m));
        },
        (RowOf::Encounter(k, l, t), RowOf::Encounter(j, m, u)) => {
            assert(quest_resolves(d, QuestId(k)));
            assert(quest_resolves(d, QuestId(j)));
            assert(location_resolves(d, l));
            assert(location_resolves(d, m));
            EncounterType::lemma_csv_tag_round_trip(t);
            EncounterType::lemma_csv_tag_round_trip(u);
        },
        _ => {},
    }
}

/// Whether a row is one that writing the journal gives.
pub open spec fn is_own_row(d: &Data, row: Seq<Seq<char>>) -> bool {
    exists|what: RowOf| is_row_of(d, what) && #[trigger] row_for(d, what) == row
}

/// Whether every row is one that writing the journal gives.
pub open spec fn all_own_rows(d: &Data, rows: Seq<Seq<Seq<char>>>) -> bool {
    forall|j: int| 0 <= j < rows.len() ==> is_own_row(d, #[trigger] rows[j])
}

/// Whether a row is among the first `n` rows.
pub open spec fn has_row(rows: Seq<Seq<Seq<char>>>, row: Seq<Seq<char>>, n: int) -> bool {
    exists|j: int| 0 <= j < n && #[trigger] rows[j] == row
}

/// What the first `n` rows speak of.
pub open spec fn written(d: &Data, rows: Seq<Seq<Seq<char>>>, n: int) -> Set<RowOf> {
    Set::new(|what: RowOf| is_row_of(d, what) && has_row(rows, row_for(d, what), n))
}

/// Rows that writing the journal gives are all read, and the journal that is
/// read holds what they speak of.
pub proof fn lemma_own_rows_read(d: &Data, rows: Seq<Seq<Seq<char>>>, n: int)
    requires
        d.wf(),
        names_resolve(d),
        all_own_rows(d, rows),
        0 <= n <= rows.len(),
    ensures
        imported_rows(&d.quest_locale.catalog, d.quest_locale.language, rows, n) == read_from(d, written(d, rows, n)),
        forall|i: int| 0 <= i < n ==> !row_fails(&d.quest_locale.catalog, d.quest_locale.language, rows, i),
        diagnostics(&d.quest_locale.catalog, d.quest_locale.language, rows, n) == Seq::<char>::empty(),
    decreases n,
{
    let catalog = &d.quest_locale.catalog;
    let language = d.quest_locale.language;
    if n <= 0 {
        assert(written(d, rows, 0) =~= Set::<RowOf>::empty());
        lemma_read_from_nothing(d);
    } else {
        lemma_own_rows_read(d, rows, n - 1);
        let w = written(d, rows, n - 1);
        assert(is_own_row(d, rows[n - 1]));
        let what = choose|what: RowOf| is_row_of(d, what) && #[trigger] row_for(d, what) == rows[n - 1];
        match what {
            RowOf::Quest(k) => {
                lemma_quest_row_read(d, w, k);
            },
            RowOf::Location(l) => {
                lemma_location_row_read(d, w, l);
            },
            RowOf::Encounter(k, l, t) => {
                lemma_encounter_row_read(d, w, k, l, t);
            },
        }
        assert(written(d, rows, n) =~= w.insert(what)) by {
            assert forall|other: RowOf| written(d, rows, n).contains(other) == #[trigger] w.insert(what).contains(
                other,
            ) by {
                if written(d, rows, n).contains(other) {
                    let j = choose|j: int| 0 <= j < n && #[trigger] rows[j] == row_for(d, other);
                    if j == n - 1 {
                        lemma_rows_differ(d, other, what);
                    } else {
                        assert(has_row(rows, row_for(d, other), n - 1));
                    }
                }
                if w.contains(other) {
                    let j = choose|j: int| 0 <= j < n - 1 && #[trigger] rows[j] == row_for(d, other);
                    assert(0 <= j < n && rows[j] == row_for(d, other));
                }
                if other == what {
                    assert(rows[n - 1] == row_for(d, what));
                    assert(has_row(rows, row_for(d, what), n));
                }
            }
        }
        assert(!row_fails(catalog, language, rows, n - 1));
    }
}

/// Every quest of a listing is one of those that are held.
pub proof fn lemma_listed_are_held(order: Seq<QuestId>, held: Set<u16>, n: int)
    requires
        0 <= n <= order.len(),
    ensures
        forall|i: int|
            0 <= i < listed_among(order, held, n).len() ==> held.contains(
                (#[trigger] listed_among(order, held, n)[i]).0,
            ),
    decreases n,
{
    if n > 0 {
        lemma_listed_are_held(order, held, n - 1);
        let before = listed_among(order, held, n - 1);
        let now = listed_among(order, held, n);
        assert forall|i: int| 0 <= i < now.len() implies held.contains((#[trigger] now[i]).0) by {
            if i < before.len() {
                assert(now[i] == before[i]);
            }
        }
    }
}

/// Every quest that is held and stands among the first `n` of the order is in the listing.
pub proof fn lemma_held_are_listed(order: Seq<QuestId>, held: Set<u16>, n: int, j: int)
    requires
        0 <= j < n <= order.len(),
        held.contains(order[j].0),
    ensures
        exists|i: int| 0 <= i < listed_among(order, held, n).len() && #[trigger] listed_among(order, held, n)[i] == order[j],
    decreases n,
{
    let now = listed_among(order, held, n);
    if j == n - 1 {
        assert(now[now.len() - 1] == order[j]);
    } else {
        lemma_held_are_listed(order, held, n - 1, j);
        let before = listed_among(order, held, n - 1);
        let i = choose|i: int| 0 <= i < before.len() && #[trigger] before[i] == order[j];
        assert(now[i] == order[j]);
    }
}

/// Rows that the journal gives, followed by rows that the journal gives, are rows that the journal gives.
proof fn lemma_own_rows_joined(d: &Data, a: Seq<Seq<Seq<char>>>, b: Seq<Seq<Seq<char>>>)
    requires
        all_own_rows(d, a),
        all_own_rows(d, b),
    ensures
        all_own_rows(d, a + b),
{
    assert forall|j: int| 0 <= j < (a + b).len() implies is_own_row(d, #[trigger] (a + b)[j]) by {
        if j < a.len() {
            assert((a + b)[j] == a[j]);
        } else {
            assert((a + b)[j] == b[j - a.len()]);
        }
    }
}

/// A row of one of two lists is a row of the two lists joined.
proof fn lemma_row_in_joined(a: Seq<Seq<Seq<char>>>, b: Seq<Seq<Seq<char>>>, row: Seq<Seq<char>>)
    requires
        has_row(a, row, a.len() as int) || has_row(b, row, b.len() as int),
    ensures
        has_row(a + b, row, (a + b).len() as int),
{
    if has_row(a, row, a.len() as int) {
        let j = choose|j: int| 0 <= j < a.len() && #[trigger] a[j] == row;
        assert((a + b)[j] == row);
    } else {
        let j = choose|j: int| 0 <= j < b.len() && #[trigger] b[j] == row;
        assert((a + b)[j + a.len()] == row);
    }
}

/// The rows of the quests are rows that the journal gives, and every quest
/// that gets a row has its row among them.
proof fn lemma_quest_rows(d: &Data, n: int)
    requires
        d.wf(),
        0 <= n <= d.listed().len(),
    ensures
        all_own_rows(d, quest_rows(d, n)),
        forall|i: int|
            0 <= i < n && is_exported(d@.quest[(#[trigger] d.listed()[i]).0]) ==> has_row(
                quest_rows(d, n),
                row_for(d, RowOf::Quest(d.listed()[i].0)),
                quest_rows(d, n).len() as int,
            ),
    decreases n,
{
    if n > 0 {
        lemma_quest_rows(d, n - 1);
        let before = quest_rows(d, n - 1);
        let now = quest_rows(d, n);
        let q = d.listed()[n - 1];
        lemma_listed_are_held(
            d.quest_locale.translation@,
            d@.quest.dom(),
            d.quest_locale.translation@.len() as int,
        );
        assert(d@.quest.contains_key(q.0));
        if is_exported(d@.quest[q.0]) {
            let row = row_for(d, RowOf::Quest(q.0));
            assert(now == before.push(row));
            assert(is_row_of(d, RowOf::Quest(q.0)));
            assert forall|j: int| 0 <= j < now.len() implies is_own_row(d, #[trigger] now[j]) by {
                if j < before.len() {
                    assert(now[j] == before[j]);
                }
            }
            assert(now[now.len() - 1] == row);
        }
        assert forall|i: int| 0 <= i < n && is_exported(d@.quest[(#[trigger] d.listed()[i]).0]) implies has_row(
            now,
            row_for(d, RowOf::Quest(d.listed()[i].0)),
            now.len() as int,
        ) by {
            if i < n - 1 {
                let row = row_for(d, RowOf::Quest(d.listed()[i].0));
                let j = choose|j: int| 0 <= j < before.len() && #[trigger] before[j] == row;
                assert(now[j] == row);
            }
        }
    }
}

/// The rows of the encounters of one quest at one location are rows that the
/// journal gives, and every encounter there has its row among them.
proof fn lemma_encounter_rows_of(d: &Data, l: u16, q: QuestId, n: int)
    requires
        d.wf(),
        l != 0,
        d@.quest.contains_key(q.0),
        d@.quest[q.0].encounter.contains_key(l),
        0 <= n <= 5,
    ensures
        all_own_rows(d, encounter_rows_of(d, l, q, n)),
        forall|t: EncounterType|
            t.rank() < n && (#[trigger] d@.quest[q.0].encounter[l].slot(t)) is Some ==> has_row(
                encounter_rows_of(d, l, q, n),
                row_for(d, RowOf::Encounter(q.0, l, t)),
                encounter_rows_of(d, l, q, n).len() as int,
            ),
    decreases n,
{
    if n > 0 {
        lemma_encounter_rows_of(d, l, q, n - 1);
        let before = encounter_rows_of(d, l, q, n - 1);
        let now = encounter_rows_of(d, l, q, n);
        let last = EncounterType::at(n - 1);
        assert(q == QuestId(q.0));
        if d@.quest[q.0].encounter[l].slot(last) is Some {
            let row = row_for(d, RowOf::Encounter(q.0, l, last));
            assert(now == before.push(row));
            assert(is_row_of(d, RowOf::Encounter(q.0, l, last)));
            assert forall|j: int| 0 <= j < now.len() implies is_own_row(d, #[trigger] now[j]) by {
                if j < before.len() {
                    assert(now[j] == before[j]);
                }
            }
            assert(now[now.len() - 1] == row);
        }
        assert forall|t: EncounterType|
            t.rank() < n && (#[trigger] d@.quest[q.0].encounter[l].slot(t)) is Some implies has_row(
            now,
            row_for(d, RowOf::Encounter(q.0, l, t)),
            now.len() as int,
        ) by {
            EncounterType::lemma_rank_at(t);
            if t.rank() < n - 1 {
                let row = row_for(d, RowOf::Encounter(q.0, l, t));
                let j = choose|j: int| 0 <= j < before.len() && #[trigger] before[j] == row;
                assert(now[j] == row);
            }
        }
    }
}

/// The rows of the encounters at one location are rows that the journal
/// gives, and every encounter there has its row among them.
proof fn lemma_encounter_rows_at(d: &Data, l: u16, n: int)
    requires
        d.wf(),
        l != 0,
        0 <= n <= d.listed().len(),
    ensures
        all_own_rows(d, encounter_rows_at(d, l, n)),
        forall|i: int, t: EncounterType|
            0 <= i < n && d@.quest[(#[trigger] d.listed()[i]).0].encounter.contains_key(l) && (
            #[trigger] d@.quest[d.listed()[i].0].encounter[l].slot(t)) is Some ==> has_row(
                encounter_rows_at(d, l, n),
                row_for(d, RowOf::Encounter(d.listed()[i].0, l, t)),
                encounter_rows_at(d, l, n).len() as int,
            ),
    decreases n,
{
    if n > 0 {
        lemma_encounter_rows_at(d, l, n - 1);
        let before = encounter_rows_at(d, l, n - 1);
        let now = encounter_rows_at(d, l, n);
        let q = d.listed()[n - 1];
        lemma_listed_are_held(
            d.quest_locale.translation@,
            d@.quest.dom(),
            d.quest_locale.translation@.len() as int,
        );
        assert(d@.quest.contains_key(q.0));
        let own = encounter_rows_of(d, l, q, 5);
        if d@.quest[q.0].encounter.contains_key(l) {
            lemma_encounter_rows_of(d, l, q, 5);
            lemma_own_rows_joined(d, before, own);
            assert(now == before + own);
        }
        assert forall|i: int, t: EncounterType|
            0 <= i < n && d@.quest[(#[trigger] d.listed()[i]).0].encounter.contains_key(l) && (
            #[trigger] d@.quest[d.listed()[i].0].encounter[l].slot(t)) is Some implies has_row(
            now,
            row_for(d, RowOf::Encounter(d.listed()[i].0, l, t)),
            now.len() as int,
        ) by {
            let row = row_for(d, RowOf::Encounter(d.listed()[i].0, l, t));
            if i < n - 1 {
                assert(has_row(before, row, before.len() as int));
                if d@.quest[q.0].encounter.contains_key(l) {
                    lemma_row_in_joined(before, own, row);
                }
            } else {
                EncounterType::lemma_rank_at(t);
                assert(has_row(own, row, own.len() as int));
                lemma_row_in_joined(before, own, row);
            }
        }
    }
}

/// The rows of one location are rows that the journal gives, and the note of
/// the location and every encounter there has its row among them.
proof fn lemma_rows_of_location(d: &Data, l: u16)
    requires
        d.wf(),
        l != 0,
    ensures
        all_own_rows(d, rows_of_location(d, l)),
        is_row_of(d, RowOf::Location(l)) ==> has_row(
            rows_of_location(d, l),
            row_for(d, RowOf::Location(l)),
            rows_of_location(d, l).len() as int,
        ),
        forall|i: int, t: EncounterType|
            0 <= i < d.listed().len() && d@.quest[(#[trigger] d.listed()[i]).0].encounter.contains_key(l) && (
            #[trigger] d@.quest[d.listed()[i].0].encounter[l].slot(t)) is Some ==> has_row(
                rows_of_location(d, l),
                row_for(d, RowOf::Encounter(d.listed()[i].0, l, t)),
                rows_of_location(d, l).len() as int,
            ),
{
    let n = d.listed().len() as int;
    let encounters = encounter_rows_at(d, l, n);
    let all = rows_of_location(d, l);
    lemma_encounter_rows_at(d, l, n);
    if d@.location.contains_key(l) && d@.location[l].len() > 0 {
        let note = seq![row_for(d, RowOf::Location(l))];
        assert(all == note + encounters);
        assert(is_row_of(d, RowOf::Location(l)));
        assert(all_own_rows(d, note)) by {
            assert(note[0] == row_for(d, RowOf::Location(l)));
        }
        lemma_own_rows_joined(d, note, encounters);
        assert(all[0] == row_for(d, RowOf::Location(l)));
        assert forall|i: int, t: EncounterType|
            0 <= i < d.listed().len() && d@.quest[(#[trigger] d.listed()[i]).0].encounter.contains_key(l) && (
            #[trigger] d@.quest[d.listed()[i].0].encounter[l].slot(t)) is Some implies has_row(
            all,
            row_for(d, RowOf::Encounter(d.listed()[i].0, l, t)),
            all.len() as int,
        ) by {
            lemma_row_in_joined(note, encounters, row_for(d, RowOf::Encounter(d.listed()[i].0, l, t)));
        }
    }
}

/// The rows of the locations are rows that the journal gives, and every note
/// and every encounter of a location before number `n` has its row among them.
proof fn lemma_location_rows(d: &Data, n: int)
    requires
        d.wf(),
        1 <= n <= d.quest_locale.catalog.location_count(),
    ensures
        all_own_rows(d, location_rows(d, n)),
        forall|l: u16|
            0 < l < n && #[trigger] is_row_of(d, RowOf::Location(l)) ==> has_row(
                location_rows(d, n),
                row_for(d, RowOf::Location(l)),
                location_rows(d, n).len() as int,
            ),
        forall|l: u16, i: int, t: EncounterType|
            0 < l < n && 0 <= i < d.listed().len() && d@.quest[(#[trigger] d.listed()[i]).0].encounter.contains_key(l)
                && (#[trigger] d@.quest[d.listed()[i].0].encounter[l].slot(t)) is Some ==> has_row(
                location_rows(d, n),
                row_for(d, RowOf::Encounter(d.listed()[i].0, l, t)),
                location_rows(d, n).len() as int,
            ),
    decreases n,
{
    if n > 1 {
        lemma_location_rows(d, n - 1);
        let last = (n - 1) as u16;
        let before = location_rows(d, n - 1);
        let own = rows_of_location(d, last);
        let now = location_rows(d, n);
        assert(now == before + own);
        lemma_rows_of_location(d, last);
        lemma_own_rows_joined(d, before, own);
        assert forall|l: u16| 0 < l < n && #[trigger] is_row_of(d, RowOf::Location(l)) implies has_row(
            now,
            row_for(d, RowOf::Location(l)),
            now.len() as int,
        ) by {
            lemma_row_in_joined(before, own, row_for(d, RowOf::Location(l)));
        }
        assert forall|l: u16, i: int, t: EncounterType|
            0 < l < n && 0 <= i < d.listed().len() && d@.quest[(#[trigger] d.listed()[i]).0].encounter.contains_key(l)
                && (#[trigger] d@.quest[d.listed()[i].0].encounter[l].slot(t)) is Some implies has_row(
            now,
            row_for(d, RowOf::Encounter(d.listed()[i].0, l, t)),
            now.len() as int,
        ) by {
            lemma_row_in_joined(before, own, row_for(d, RowOf::Encounter(d.listed()[i].0, l, t)));
        }
    }
}

/// The rows of the journal after the header and the language row.
pub open spec fn own_rows(d: &Data) -> Seq<Seq<Seq<char>>> {
    quest_rows(d, d.listed().len() as int) + location_rows(d, d.quest_locale.catalog.location_count())
}

/// The rows after the header and the language row are rows that the journal gives,
/// and everything that the journal holds to write has its row among them.
proof fn lemma_own_rows(d: &Data)
    requires
        d.wf(),
    ensures
        all_own_rows(d, own_rows(d)),
        forall|what: RowOf| #[trigger]
            is_row_of(d, what) ==> has_row(own_rows(d), row_for(d, what), own_rows(d).len() as int),
{
    let catalog = &d.quest_locale.catalog;
    let order = d.quest_locale.translation@;
    let n = d.listed().len() as int;
    let quests = quest_rows(d, n);
    let locations = location_rows(d, catalog.location_count());
    lemma_quest_rows(d, n);
    lemma_location_rows(d, catalog.location_count());
    lemma_own_rows_joined(d, quests, locations);
    assert forall|what: RowOf| #[trigger] is_row_of(d, what) implies has_row(
        own_rows(d),
        row_for(d, what),
        own_rows(d).len() as int,
    ) by {
        let k = match what {
            RowOf::Quest(k) => k,
            RowOf::Location(_) => 0u16,
            RowOf::Encounter(k, _, _) => k,
        };
        if !(what is Location) {
            assert(d@.quest.contains_key(k));
            assert((k as int) < catalog.quest_count());
            assert(lists(order, k as int));
            let j = choose|j: int| 0 <= j < order.len() && (#[trigger] order[j]).0 == k;
            lemma_held_are_listed(order, d@.quest.dom(), order.len() as int, j);
            let i = choose|i: int| 0 <= i < d.listed().len() && #[trigger] d.listed()[i] == order[j];
            assert(d.listed()[i].0 == k);
            match what {
                RowOf::Encounter(_, l, t) => {
                    assert(quest_fits(d@.quest[k], catalog));
                    assert((l as int) < catalog.location_count());
                    assert(has_row(locations, row_for(d, what), locations.len() as int));
                },
                _ => {
                    assert(has_row(quests, row_for(d, what), quests.len() as int));
                },
            }
        } else {
            let l = what->Location_0;
            assert((l as int) < catalog.location_count());
            assert(has_row(locations, row_for(d, what), locations.len() as int));
        }
        lemma_row_in_joined(quests, locations, row_for(d, what));
    }
}

/// Whether a journal can be exchanged without loss: it holds both built-in
/// quests, each with a row of its own and with the one encounter at the
/// prologue that every journal gives it; no other quest has anything at the
/// prologue; and the notes of the locations are not empty, and none is one of the prologue.
pub open spec fn is_exchangeable(d: DataView) -> bool {
    &&& d.quest.contains_key(0)
    &&& d.quest.contains_key(1)
    &&& forall|k: u16| #[trigger]
        d.quest.contains_key(k) ==> (if k < 2 {
            is_exported(d.quest[k]) && d.quest[k].encounter.contains_key(0) && d.quest[k].encounter[0]
                == built_in_location()
        } else {
            !d.quest[k].encounter.contains_key(0)
        })
    &&& forall|l: u16| #[trigger] d.location.contains_key(l) ==> l != 0 && d.location[l].len() > 0
}

/// A location with an encounter is not the empty location, and the other way round.
proof fn lemma_some_encounter(l: QuestLocation)
    ensures
        (l != QuestLocation::empty()) == (exists|t: EncounterType| (#[trigger] l.slot(t)) is Some),
{
    if l != QuestLocation::empty() {
        if forall|t: EncounterType| (#[trigger] l.slot(t)) is None {
            assert forall|t: EncounterType| #[trigger] l.slot(t) == QuestLocation::empty().slot(t) by {}
            EncounterMap::lemma_same_slots(l, QuestLocation::empty());
        }
    }
}

/// A journal that is read from rows which speak of everything that the
/// journal holds to write is, once cleaned, the journal cleaned.
proof fn lemma_read_all(d: &Data, w: Set<RowOf>)
    requires
        d.wf(),
        is_exchangeable(d@),
        forall|what: RowOf| w.contains(what) == #[trigger] is_row_of(d, what),
    ensures
        cleaned(read_from(d, w)) == cleaned(d@),
{
    let s = read_from(d, w);
    assert forall|k: u16| #[trigger] s.quest.contains_key(k) implies d@.quest.contains_key(k) && s.quest[k]
        == clean_quest(d@.quest[k]) by {
        if k >= 2 && !w.contains(RowOf::Quest(k)) {
            let l = choose|l: u16| #[trigger] wrote_at(w, k, l);
            let t = choose|t: EncounterType| #[trigger] w.contains(RowOf::Encounter(k, l, t));
            assert(is_row_of(d, RowOf::Encounter(k, l, t)));
        }
        if w.contains(RowOf::Quest(k)) {
            assert(is_row_of(d, RowOf::Quest(k)));
        }
        let q = d@.quest[k];
        let r = s.quest[k];
        let c = clean_quest(q);
        assert(w.contains(RowOf::Quest(k)) == is_row_of(d, RowOf::Quest(k)));
        assert(r.note =~= q.note);
        assert forall|l: u16| #[trigger] r.encounter.contains_key(l) == c.encounter.contains_key(l) by {
            if q.encounter.contains_key(l) {
                lemma_some_encounter(q.encounter[l]);
            }
            if wrote_at(w, k, l) {
                let t = choose|t: EncounterType| #[trigger] w.contains(RowOf::Encounter(k, l, t));
                assert(is_row_of(d, RowOf::Encounter(k, l, t)));
            }
            if l != 0 && q.encounter.contains_key(l) && q.encounter[l] != QuestLocation::empty() {
                let t = choose|t: EncounterType| (#[trigger] q.encounter[l].slot(t)) is Some;
                assert(is_row_of(d, RowOf::Encounter(k, l, t)));
                assert(w.contains(RowOf::Encounter(k, l, t)));
            }
            if l == 0 && k < 2 {
                assert(built_in_location().slot(EncounterType::Gain) is Some);
            }
        }
        assert forall|l: u16| r.encounter.contains_key(l) implies #[trigger] r.encounter[l] == c.encounter[l] by {
            assert(q.encounter.contains_key(l));
            assert forall|t: EncounterType| #[trigger] r.encounter[l].slot(t) == q.encounter[l].slot(t) by {
                assert(w.contains(RowOf::Encounter(k, l, t)) == is_row_of(d, RowOf::Encounter(k, l, t)));
            }
            EncounterMap::lemma_same_slots(r.encounter[l], q.encounter[l]);
        }
        assert(r.encounter =~= c.encounter);
    }
    assert forall|k: u16| d@.quest.contains_key(k) && is_kept(d@.quest[k]) implies #[trigger] s.quest.contains_key(
        k,
    ) by {
        let q = d@.quest[k];
        if k >= 2 {
            if q.note.len() > 0 {
                assert(is_row_of(d, RowOf::Quest(k)));
            } else {
                let l = choose|l: u16| #[trigger] q.encounter.contains_key(l) && q.encounter[l] != QuestLocation::empty();
                lemma_some_encounter(q.encounter[l]);
                let t = choose|t: EncounterType| (#[trigger] q.encounter[l].slot(t)) is Some;
                assert(is_row_of(d, RowOf::Encounter(k, l, t)));
                assert(w.contains(RowOf::Encounter(k, l, t)));
                assert(wrote_at(w, k, l));
                assert(wrote_for(w, k));
            }
        }
    }
    let x = cleaned(s);
    let y = cleaned(d@);
    assert forall|k: u16| #[trigger] x.quest.contains_key(k) == y.quest.contains_key(k) by {
        if d@.quest.contains_key(k) {
            lemma_clean_quest(d@.quest[k]);
        }
    }
    assert forall|k: u16| x.quest.contains_key(k) implies #[trigger] x.quest[k] == y.quest[k] by {
        lemma_clean_quest(d@.quest[k]);
    }
    assert(x.quest =~= y.quest);
    assert forall|l: u16| #[trigger] s.location.contains_key(l) == d@.location.contains_key(l) by {
        assert(w.contains(RowOf::Location(l)) == is_row_of(d, RowOf::Location(l)));
    }
    assert(s.location =~= d@.location);
}

/// The records of a file that holds the given rows and nothing that cannot be read.
pub open spec fn records_of(rows: Seq<Seq<Seq<char>>>) -> Seq<Option<Seq<Seq<char>>>> {
    Seq::new(rows.len(), |i: int| Some(rows[i]))
}

/// The rows of a written journal are the header, the language row, and the rows of what the journal holds.
proof fn lemma_exported_shape(d: &Data)
    ensures
        exported(d).len() == own_rows(d).len() + 2,
        exported(d)[0] == header_row(),
        exported(d)[1] == language_row(d.quest_locale.catalog.language_code(d.quest_locale.language)),
        forall|i: int| 0 <= i < own_rows(d).len() ==> #[trigger] exported(d)[i + 2] == own_rows(d)[i],
{
    let head = seq![header_row(), language_row(d.quest_locale.catalog.language_code(d.quest_locale.language))];
    assert(exported(d) =~= head + own_rows(d));
    assert(head[0] == header_row());
    assert(head[1] == language_row(d.quest_locale.catalog.language_code(d.quest_locale.language)));
}

/// The language row names the language in its fourth cell.
proof fn lemma_language_row(code: Seq<char>)
    ensures
        field_of(language_row(code), 0) == "language"@,
        field_of(language_row(code), 3) == code,
{
    let line = language_row(code);
    assert(line.len() == 7);
    assert(line[0] == "language"@);
    assert(line[3] == code);
}

/// The file that a journal is written as is not refused.
proof fn lemma_checked_own(d: &Data)
    requires
        d.quest_locale.catalog.language_of_code(d.quest_locale.catalog.language_code(d.quest_locale.language))
            == Some(d.quest_locale.language),
    ensures
        checked(records_of(exported(d)), &d.quest_locale.catalog) == Ok::<
            (GameLanguage, Seq<Seq<Seq<char>>>),
            MyError,
        >((d.quest_locale.language, own_rows(d))),
{
    let catalog = &d.quest_locale.catalog;
    let language = d.quest_locale.language;
    let rows = own_rows(d);
    let all = exported(d);
    lemma_exported_shape(d);
    lemma_language_row(catalog.language_code(language));
    let records = records_of(all);
    assert(records.len() == rows.len() + 2);
    assert(records[0] == Some(header_row()));
    let rest = records.skip(1);
    assert(rest.len() == rows.len() + 1);
    assert(rest[0] == records[1]);
    assert(rest[0] == Some(language_row(catalog.language_code(language))));
    let data = rest.skip(1);
    assert(data.len() == rows.len());
    assert forall|i: int| 0 <= i < data.len() implies (#[trigger] data[i]) is Some && data[i]->Some_0 == rows[i] by {
        assert(data[i] == rest[i + 1]);
        assert(rest[i + 1] == records[i + 2]);
        assert(all[i + 2] == rows[i]);
    }
    assert(all_read(data));
    assert(read_rows(data) =~= rows);
    assert(language_checked(rest, catalog) == Ok::<
        (GameLanguage, Seq<Seq<Seq<char>>>),
        MyError,
    >((language, rows)));
}

/// A journal that is written as a file and read back from the rows of that
/// file is the same journal, cleaned: the file is not refused, no row is in
/// error, the language is the one of the journal, and the journal that is
/// read has the same quests with the same states, encounters, notes and
/// levels of restriction, and the same location notes. This holds of every
/// journal that can be exchanged without loss and whose names are read back
/// as what they name.
pub proof fn lemma_exchange_round_trip(d: &Data)
    requires
        d.wf(),
        names_resolve(d),
        is_exchangeable(d@),
        d.quest_locale.catalog.language_of_code(d.quest_locale.catalog.language_code(d.quest_locale.language))
            == Some(d.quest_locale.language),
    ensures
        checked(records_of(exported(d)), &d.quest_locale.catalog) == Ok::<
            (GameLanguage, Seq<Seq<Seq<char>>>),
            MyError,
        >((d.quest_locale.language, own_rows(d))),
        diagnostics(&d.quest_locale.catalog, d.quest_locale.language, own_rows(d), own_rows(d).len() as int)
            == Seq::<char>::empty(),
        cleaned(
            imported_rows(&d.quest_locale.catalog, d.quest_locale.language, own_rows(d), own_rows(d).len() as int),
        ) == cleaned(d@),
{
    let rows = own_rows(d);
    let n = rows.len() as int;
    lemma_checked_own(d);
    lemma_own_rows(d);
    lemma_own_rows_read(d, rows, n);
    lemma_read_all(d, written(d, rows, n));
}

} // verus!
