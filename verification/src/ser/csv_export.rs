//! Writing a journal as an exchanged file.

use crate::data::encounter_type::EncounterType;
use crate::data::quest::{Quest, QuestState, QuestView};
use crate::data::quest_location::{QuestLocation, QuestLocationEncounter};
use crate::data::vis::Vis;
use crate::game::location_id::LocationId;
use crate::game::quest_id::QuestId;
use crate::global::data::Data;
use crate::ser::csv::{header_row, rows_view};
use crate::ser::csv_io::{csv_record_bytes, encode_record, fields_view};
use vstd::prelude::*;

verus! {

/// The row that names the language of the names in the file.
pub open spec fn language_row(code: Seq<char>) -> Seq<Seq<char>> {
    seq!["language"@, ""@, ""@, code, ""@, ""@, "This file is in UTF-8 ðŸ˜€"@]
}

/// Whether a quest gets a row of its own: it was found, or has a note, or is hidden.
pub open spec fn is_exported(q: QuestView) -> bool {
    q.state != QuestState::NotFound || q.note.len() > 0 || q.vis != Vis::Visible
}

/// The row of a quest.
pub open spec fn quest_row(name: Seq<char>, q: QuestView) -> Seq<Seq<char>> {
    seq!["quest"@, ""@, name, q.state.csv_tag(), ""@, q.vis.csv_tag(), q.note]
}

/// The row of a location note.
pub open spec fn location_row(name: Seq<char>, note: Seq<char>) -> Seq<Seq<char>> {
    seq!["location"@, name, ""@, ""@, ""@, ""@, note]
}

/// The row of an encounter.
pub open spec fn encounter_row(
    location: Seq<char>,
    quest: Seq<char>,
    encounter_type: EncounterType,
    prerequisite: Seq<char>,
    vis: Vis,
) -> Seq<Seq<char>> {
    seq!["encounter"@, location, quest, encounter_type.csv_tag(), prerequisite, vis.csv_tag(), ""@]
}

/// The name of the quest that an encounter waits for; empty where it waits for none.
pub open spec fn prerequisite_name(d: &Data, e: QuestLocationEncounter) -> Seq<char> {
    match e.prerequisite {
        Some(p) => d.quest_locale.name_of(p),
        None => Seq::empty(),
    }
}

/// The name of a location in the language of the journal.
pub open spec fn location_name_of(d: &Data, l: int) -> Seq<char> {
    d.quest_locale.catalog.location_name(d.quest_locale.language, l)
}

/// The rows of the first `n` listed quests: one for each that gets a row.
pub open spec fn quest_rows(d: &Data, n: int) -> Seq<Seq<Seq<char>>>
    decreases n,
{
    if n <= 0 {
        Seq::empty()
    } else {
        let before = quest_rows(d, n - 1);
        let q = d.listed()[n - 1];
        if is_exported(d@.quest[q.0]) {
            before.push(quest_row(d.quest_locale.name_of(q), d@.quest[q.0]))
        } else {
            before
        }
    }
}

/// The rows of the encounters of one quest at one location, for the first
/// `n` encounter types in their declared order.
pub open spec fn encounter_rows_of(d: &Data, l: u16, q: QuestId, n: int) -> Seq<Seq<Seq<char>>>
    decreases n,
{
    if n <= 0 {
        Seq::empty()
    } else {
        let before = encounter_rows_of(d, l, q, n - 1);
        match d@.quest[q.0].encounter[l].slot(EncounterType::at(n - 1)) {
            Some(e) => before.push(
                encounter_row(
                    location_name_of(d, l as int),
                    d.quest_locale.name_of(q),
                    EncounterType::at(n - 1),
                    prerequisite_name(d, e),
                    e.vis,
                ),
            ),
            None => before,
        }
    }
}

/// The rows of the encounters at one location, for the first `n` listed quests.
pub open spec fn encounter_rows_at(d: &Data, l: u16, n: int) -> Seq<Seq<Seq<char>>>
    decreases n,
{
    if n <= 0 {
        Seq::empty()
    } else {
        let before = encounter_rows_at(d, l, n - 1);
        let q = d.listed()[n - 1];
        if d@.quest[q.0].encounter.contains_key(l) {
            before + encounter_rows_of(d, l, q, 5)
        } else {
            before
        }
    }
}

/// The rows of one location: its note, if it has one that is not empty, then its encounters.
pub open spec fn rows_of_location(d: &Data, l: u16) -> Seq<Seq<Seq<char>>> {
    let encounters = encounter_rows_at(d, l, d.listed().len() as int);
    if d@.location.contains_key(l) && d@.location[l].len() > 0 {
        seq![location_row(location_name_of(d, l as int), d@.location[l])] + encounters
    } else {
        encounters
    }
}

/// The rows of the locations before number `n`, the prologue left out.
pub open spec fn location_rows(d: &Data, n: int) -> Seq<Seq<Seq<char>>>
    decreases n,
{
    if n <= 1 {
        Seq::empty()
    } else {
        location_rows(d, n - 1) + rows_of_location(d, (n - 1) as u16)
    }
}

/// The rows of the file that a journal is written as: the header, the
/// language, the quests in the order of their names, then location by location.
pub open spec fn exported(d: &Data) -> Seq<Seq<Seq<char>>> {
    seq![header_row(), language_row(d.quest_locale.catalog.language_code(d.quest_locale.language))] + quest_rows(
        d,
        d.listed().len() as int,
    ) + location_rows(d, d.quest_locale.catalog.location_count())
}

/// The bytes of the first `n` rows, one after the other.
pub open spec fn encoded(rows: Seq<Seq<Seq<char>>>, n: int) -> Seq<u8>
    decreases n,
{
    if n <= 0 {
        Seq::empty()
    } else {
        encoded(rows, n - 1) + csv_record_bytes(rows[n - 1])
    }
}

fn row(a: &str, b: &str, c: &str, d: &str, e: &str, f: &str, g: &str) -> (r: Vec<String>)
    ensures
        fields_view(r@) == seq![a@, b@, c@, d@, e@, f@, g@],
{
    let mut r: Vec<String> = Vec::new();
    r.push(a.to_owned());
    r.push(b.to_owned());
    r.push(c.to_owned());
    r.push(d.to_owned());
    r.push(e.to_owned());
    r.push(f.to_owned());
    r.push(g.to_owned());
    assert(fields_view(r@) =~= seq![a@, b@, c@, d@, e@, f@, g@]);
    r
}

proof fn lemma_rows_pushed(rows: Seq<Vec<String>>, line: Vec<String>)
    ensures
        rows_view(rows.push(line)) == rows_view(rows).push(fields_view(line@)),
{
    assert(rows_view(rows.push(line)) =~= rows_view(rows).push(fields_view(line@)));
}

impl Data {
    fn push_quest_rows(&self, quests: &Vec<(QuestId, &Quest, &str)>, rows: &mut Vec<Vec<String>>)
        requires
            self.wf(),
            quests@.len() == self.listed().len(),
            forall|i: int|
                0 <= i < quests@.len() ==> (#[trigger] quests@[i]).0 == self.listed()[i] && self.quest@.contains_key(
                    quests@[i].0.0,
                ) && *quests@[i].1 == self.quest@[quests@[i].0.0] && quests@[i].2@ == self.quest_locale.name_of(
                    quests@[i].0,
                ),
        ensures
            rows_view(final(rows)@) == rows_view(old(rows)@) + quest_rows(self, self.listed().len() as int),
    {
        let ghost start = rows_view(rows@);
        let mut i: usize = 0;
        assert(start + quest_rows(self, 0) =~= start);
        while i < quests.len()
            invariant
                self.wf(),
                quests@.len() == self.listed().len(),
                forall|i: int|
                    0 <= i < quests@.len() ==> (#[trigger] quests@[i]).0 == self.listed()[i]
                        && self.quest@.contains_key(quests@[i].0.0) && *quests@[i].1 == self.quest@[quests@[i].0.0]
                        && quests@[i].2@ == self.quest_locale.name_of(quests@[i].0),
                i <= quests@.len(),
                rows_view(rows@) == start + quest_rows(self, i as int),
            decreases quests@.len() - i,
        {
            let quest = quests[i].1;
            assert(quest@ == self@.quest[self.listed()[i as int].0]);
            if quest.state != QuestState::NotFound || !quest.note.as_str().is_empty() || quest.vis != Vis::Visible {
                let line = row(
                    "quest",
                    "",
                    quests[i].2,
                    quest.state.to_csv(),
                    "",
                    quest.vis.to_csv(),
                    quest.note.as_str(),
                );
                proof {
                    lemma_rows_pushed(rows@, line);
                    assert(start + quest_rows(self, i as int + 1) =~= (start + quest_rows(self, i as int)).push(
                        fields_view(line@),
                    ));
                }
                rows.push(line);
            }
            i = i + 1;
        }
    }

    fn push_encounter_rows(
        &self,
        location_name: &str,
        l: u16,
        quest_id: QuestId,
        quest_name: &str,
        location: &QuestLocation,
        rows: &mut Vec<Vec<String>>,
    )
        requires
            self.wf(),
            self.quest@.contains_key(quest_id.0),
            self@.quest[quest_id.0].encounter.contains_key(l),
            *location == self@.quest[quest_id.0].encounter[l],
            location_name@ == location_name_of(self, l as int),
            quest_name@ == self.quest_locale.name_of(quest_id),
        ensures
            rows_view(final(rows)@) == rows_view(old(rows)@) + encounter_rows_of(self, l, quest_id, 5),
    {
        let ghost start = rows_view(rows@);
        let mut i: u8 = 0;
        assert(start + encounter_rows_of(self, l, quest_id, 0) =~= start);
        while i < 5
            invariant
                self.wf(),
                self.quest@.contains_key(quest_id.0),
                self@.quest[quest_id.0].encounter.contains_key(l),
                *location == self@.quest[quest_id.0].encounter[l],
                location_name@ == location_name_of(self, l as int),
                quest_name@ == self.quest_locale.name_of(quest_id),
                i <= 5,
                rows_view(rows@) == start + encounter_rows_of(self, l, quest_id, i as int),
            decreases 5 - i,
        {
            let encounter_type = EncounterType::from_raw(i).unwrap();
            match location.get(encounter_type) {
                Some(e) => {
                    proof {
                        let catalog = &self.quest_locale.catalog;
                        assert(self@.quest.contains_key(quest_id.0));
                        assert(crate::global::data::quest_fits(self@.quest[quest_id.0], catalog));
                        assert(crate::global::data::location_fits(*location, catalog));
                        assert(location.slot(encounter_type) is Some);
                    }
                    let prerequisite = match e.prerequisite {
                        Some(p) => self.quest_locale.get(p),
                        None => "",
                    };
                    proof {
                        reveal_strlit("");
                        assert(""@ =~= Seq::<char>::empty());
                    }
                    let line = row(
                        "encounter",
                        location_name,
                        quest_name,
                        encounter_type.to_csv(),
                        prerequisite,
                        e.vis.to_csv(),
                        "",
                    );
                    proof {
                        lemma_rows_pushed(rows@, line);
                        assert(start + encounter_rows_of(self, l, quest_id, i as int + 1) =~= (start
                            + encounter_rows_of(self, l, quest_id, i as int)).push(fields_view(line@)));
                    }
                    rows.push(line);
                },
                None => {},
            }
            i = i + 1;
        }
    }

    fn push_location_rows(&self, l: u16, quests: &Vec<(QuestId, &Quest, &str)>, rows: &mut Vec<Vec<String>>)
        requires
            self.wf(),
            0 < l < self.quest_locale.catalog.location_count(),
            quests@.len() == self.listed().len(),
            forall|i: int|
                0 <= i < quests@.len() ==> (#[trigger] quests@[i]).0 == self.listed()[i] && self.quest@.contains_key(
                    quests@[i].0.0,
                ) && *quests@[i].1 == self.quest@[quests@[i].0.0] && quests@[i].2@ == self.quest_locale.name_of(
                    quests@[i].0,
                ),
        ensures
            rows_view(final(rows)@) == rows_view(old(rows)@) + rows_of_location(self, l),
    {
        let location_id = LocationId(l);
        let location_name = location_id.name(&self.quest_locale.catalog, self.quest_locale.language);
        match self.location.get(l) {
            Some(note) => {
                if !note.as_str().is_empty() {
                    let line = row("location", location_name, "", "", "", "", note.as_str());
                    proof {
                        lemma_rows_pushed(rows@, line);
                    }
                    rows.push(line);
                }
            },
            None => {},
        }
        let ghost start = rows_view(rows@);
        let mut i: usize = 0;
        assert(start + encounter_rows_at(self, l, 0) =~= start);
        while i < quests.len()
            invariant
                self.wf(),
                quests@.len() == self.listed().len(),
                forall|i: int|
                    0 <= i < quests@.len() ==> (#[trigger] quests@[i]).0 == self.listed()[i]
                        && self.quest@.contains_key(quests@[i].0.0) && *quests@[i].1 == self.quest@[quests@[i].0.0]
                        && quests@[i].2@ == self.quest_locale.name_of(quests@[i].0),
                location_name@ == location_name_of(self, l as int),
                i <= quests@.len(),
                rows_view(rows@) == start + encounter_rows_at(self, l, i as int),
            decreases quests@.len() - i,
        {
            let quest = quests[i].1;
            let ghost before = rows_view(rows@);
            assert(quest@ == self@.quest[self.listed()[i as int].0]);
            match quest.encounter.get(l) {
                Some(location) => {
                    self.push_encounter_rows(location_name, l, quests[i].0, quests[i].2, location, rows);
                    proof {
                        assert(start + encounter_rows_at(self, l, i as int + 1) =~= before + encounter_rows_of(
                            self,
                            l,
                            quests@[i as int].0,
                            5,
                        ));
                    }
                },
                None => {},
            }
            i = i + 1;
        }
        proof {
            let encounters = encounter_rows_at(self, l, self.listed().len() as int);
            if self@.location.contains_key(l) && self@.location[l].len() > 0 {
                assert(rows_view(rows@) =~= rows_view(old(rows)@) + (seq![
                    location_row(location_name_of(self, l as int), self@.location[l]),
                ] + encounters));
            }
        }
    }

    /// The rows of the file that the journal is written as.
    pub fn export_rows(&self) -> (r: Vec<Vec<String>>)
        requires
            self.wf(),
        ensures
            rows_view(r@) == exported(self),
    {
        let mut rows: Vec<Vec<String>> = Vec::new();
        let header = row("type", "location", "quest", "status", "prerequisite", "visibility", "note");
        let language = row(
            "language",
            "",
            "",
            self.quest_locale.catalog.language_name(self.quest_locale.language),
            "",
            "",
            "This file is in UTF-8 ðŸ˜€",
        );
        proof {
            lemma_rows_pushed(rows@, header);
            lemma_rows_pushed(rows@.push(header), language);
        }
        rows.push(header);
        rows.push(language);
        let ghost head = rows_view(rows@);
        assert(head =~= seq![
            header_row(),
            language_row(self.quest_locale.catalog.language_code(self.quest_locale.language)),
        ]);
        let quests = self.quest_iter();
        self.push_quest_rows(&quests, &mut rows);
        let ghost before_locations = rows_view(rows@);
        let n = self.quest_locale.catalog.locations.len();
        let mut l: usize = 1;
        assert(before_locations + location_rows(self, 1) =~= before_locations);
        while l < n
            invariant
                self.wf(),
                n == self.quest_locale.catalog.location_count(),
                quests@.len() == self.listed().len(),
                forall|i: int|
                    0 <= i < quests@.len() ==> (#[trigger] quests@[i]).0 == self.listed()[i]
                        && self.quest@.contains_key(quests@[i].0.0) && *quests@[i].1 == self.quest@[quests@[i].0.0]
                        && quests@[i].2@ == self.quest_locale.name_of(quests@[i].0),
                1 <= l <= n,
                rows_view(rows@) == before_locations + location_rows(self, l as int),
            decreases n - l,
        {
            let ghost before = rows_view(rows@);
            self.push_location_rows(l as u16, &quests, &mut rows);
            proof {
                assert(before_locations + location_rows(self, l as int + 1) =~= before + rows_of_location(
                    self,
                    l as u16,
                ));
            }
            l = l + 1;
        }
        rows
    }

    /// The journal as an exchanged file.
    pub fn save_csv(&self) -> (r: Vec<u8>)
        requires
            self.wf(),
        ensures
            r@ == encoded(exported(self), exported(self).len() as int),
    {
        let rows = self.export_rows();
        let mut result: Vec<u8> = Vec::new();
        let mut i: usize = 0;
        while i < rows.len()
            invariant
                rows_view(rows@) == exported(self),
                i <= rows@.len(),
                result@ == encoded(exported(self), i as int),
            decreases rows@.len() - i,
        {
            let mut bytes = encode_record(&rows[i]);
            assert(rows_view(rows@)[i as int] == fields_view(rows@[i as int]@));
            result.append(&mut bytes);
            i = i + 1;
        }
        result
    }
}

} // verus!
