//! The exchanged form of a journal: a CSV file with one row for the language,
//! one for each quest, one for each location note and one for each encounter.

use crate::data::encounter_type::EncounterType;
use crate::data::quest::{Quest, QuestState, QuestView};
use crate::data::quest_location::{QuestLocation, QuestLocationEncounter};
use crate::data::vis::Vis;
use crate::game::catalog::Catalog;
use crate::game::game_language::GameLanguage;
use crate::game::location_id::LocationId;
use crate::game::quest_id::QuestId;
use crate::global::data::{cleaned, fresh, location_fits, quest_or_blank, Data, DataView};
use crate::ser::csv_io::{csv_rows, fields_view, next_record, open_reader, reader_rest};
use crate::ser::game_data_3::location_or_empty;
use crate::text::{decimal, decimal_string, str_eq};
use vstd::slice::slice_subrange;
use vstd::string::StringExecFns;
use vstd::prelude::*;

verus! {

/// Why a file was not read.
#[derive(Clone, Copy, Debug, PartialEq, Eq, Structural)]
pub enum MyError {
    CsvError,
    Header,
    Language,
}

/// What a row speaks of.
#[derive(Clone, Copy, Debug, PartialEq, Eq, Structural)]
pub enum Type {
    Quest,
    Location,
    Encounter,
}

/// The field of a record at a column; empty where the record is shorter.
pub open spec fn field_of(line: Seq<Seq<char>>, column: int) -> Seq<char> {
    if 0 <= column < line.len() {
        line[column]
    } else {
        Seq::empty()
    }
}

/// A table of names, as plain values.
pub open spec fn names_view<T>(names: Seq<(String, T)>) -> Seq<(Seq<char>, T)> {
    Seq::new(names.len(), |i: int| (names[i].0@, names[i].1))
}

/// What a table holds under a name among its first `n` entries; of two
/// entries with one name the later counts.
pub open spec fn lookup<T>(names: Seq<(Seq<char>, T)>, name: Seq<char>, n: int) -> Option<T>
    decreases n,
{
    if n <= 0 {
        None
    } else if names[n - 1].0 == name {
        Some(names[n - 1].1)
    } else {
        lookup(names, name, n - 1)
    }
}

/// What the cell at a column names: nothing where it is empty, an entry of
/// the table where it holds a name of the table; else the row is in error.
pub open spec fn read_of<T>(line: Seq<Seq<char>>, column: int, names: Seq<(Seq<char>, T)>) -> Option<Option<T>> {
    let input = field_of(line, column);
    if input.len() == 0 {
        Some(None)
    } else {
        match lookup(names, input, names.len() as int) {
            Some(id) => Some(Some(id)),
            None => None,
        }
    }
}

/// What the first cell of a row says the row speaks of.
pub open spec fn type_of(tag: Seq<char>) -> Option<Type> {
    if tag == "quest"@ {
        Some(Type::Quest)
    } else if tag == "location"@ {
        Some(Type::Location)
    } else if tag == "encounter"@ {
        Some(Type::Encounter)
    } else {
        None
    }
}

/// The journal after a `quest` row: state, restriction and note of the quest are set.
pub open spec fn with_quest_row(d: DataView, q: QuestId, state: QuestState, vis: Vis, note: Seq<char>) -> DataView {
    DataView {
        quest: d.quest.insert(q.0, QuestView { state, vis, note, ..quest_or_blank(d.quest, q.0) }),
        ..d
    }
}

/// The journal after a `location` row: the note of the location is set.
pub open spec fn with_location_row(d: DataView, l: LocationId, note: Seq<char>) -> DataView {
    DataView { location: d.location.insert(l.0, note), ..d }
}

/// The journal after an `encounter` row: the encounter is put under its type
/// at its location, in place of the one that was there.
pub open spec fn with_encounter_row(
    d: DataView,
    q: QuestId,
    l: LocationId,
    encounter_type: EncounterType,
    prerequisite: Option<QuestId>,
    vis: Vis,
) -> DataView {
    let quest = quest_or_blank(d.quest, q.0);
    let location = location_or_empty(quest.encounter, l.0).with(
        encounter_type,
        Some(QuestLocationEncounter { prerequisite, vis }),
    );
    DataView {
        quest: d.quest.insert(q.0, QuestView { encounter: quest.encounter.insert(l.0, location), ..quest }),
        ..d
    }
}

/// The journal after a row, or `None` where the row is in error: its type is
/// unknown, a name in it is not in the tables, a tag in it is unknown, or a
/// cell that the type needs is empty.
pub open spec fn applied(
    d: DataView,
    line: Seq<Seq<char>>,
    locations: Seq<(Seq<char>, LocationId)>,
    quests: Seq<(Seq<char>, QuestId)>,
) -> Option<DataView> {
    let row_type = type_of(field_of(line, 0));
    let location_id = read_of(line, 1, locations);
    let quest_id = read_of(line, 2, quests);
    let prerequisite = read_of(line, 4, quests);
    let vis = Vis::from_csv_tag(field_of(line, 5));
    let note = field_of(line, 6);
    if row_type is None || location_id is None || quest_id is None || prerequisite is None || vis is None {
        None
    } else {
        match row_type->Some_0 {
            Type::Quest => {
                let state = QuestState::from_csv_tag(field_of(line, 3));
                if quest_id->Some_0 is None || state is None {
                    None
                } else {
                    Some(with_quest_row(d, quest_id->Some_0->Some_0, state->Some_0, vis->Some_0, note))
                }
            },
            Type::Location => {
                if location_id->Some_0 is None {
                    None
                } else {
                    Some(with_location_row(d, location_id->Some_0->Some_0, note))
                }
            },
            Type::Encounter => {
                let encounter_type = EncounterType::from_csv_tag(field_of(line, 3));
                if location_id->Some_0 is None || quest_id->Some_0 is None || encounter_type is None {
                    None
                } else {
                    Some(
                        with_encounter_row(
                            d,
                            quest_id->Some_0->Some_0,
                            location_id->Some_0->Some_0,
                            encounter_type->Some_0,
                            prerequisite->Some_0,
                            vis->Some_0,
                        ),
                    )
                }
            },
        }
    }
}

/// Whether every location of a table is one of the catalog.
pub open spec fn locations_known(names: Seq<(Seq<char>, LocationId)>, catalog: &Catalog) -> bool {
    forall|i: int| 0 <= i < names.len() ==> (#[trigger] names[i]).1.known(catalog)
}

/// Whether every quest of a table is one of the catalog.
pub open spec fn quests_known(names: Seq<(Seq<char>, QuestId)>, catalog: &Catalog) -> bool {
    forall|i: int| 0 <= i < names.len() ==> (#[trigger] names[i]).1.known(catalog)
}

/// The field of a record at a column; empty where the record is shorter.
pub fn field(line: &Vec<String>, column: usize) -> (r: &str)
    ensures
        r@ == field_of(fields_view(line@), column as int),
{
    if column < line.len() {
        line[column].as_str()
    } else {
        proof {
            reveal_strlit("");
            assert(""@ =~= Seq::<char>::empty());
        }
        ""
    }
}

fn find<T: Copy>(names: &Vec<(String, T)>, name: &str) -> (r: Option<T>)
    ensures
        r == lookup(names_view(names@), name@, names@.len() as int),
{
    let mut found: Option<T> = None;
    let mut i: usize = 0;
    while i < names.len()
        invariant
            i <= names@.len(),
            found == lookup(names_view(names@), name@, i as int),
        decreases names@.len() - i,
    {
        if str_eq(names[i].0.as_str(), name) {
            found = Some(names[i].1);
        }
        i = i + 1;
    }
    found
}

/// Reads the name in the cell at a column: nothing where the cell is empty,
/// the entry of the table under the name, or `None` where the table lacks it.
pub fn read<T: Copy>(line: &Vec<String>, column: usize, map: &Vec<(String, T)>) -> (r: Option<Option<T>>)
    ensures
        r == read_of(fields_view(line@), column as int, names_view(map@)),
{
    let input = field(line, column);
    if input.is_empty() {
        return Some(None);
    }
    match find(map, input) {
        Some(id) => Some(Some(id)),
        None => None,
    }
}

fn type_from_csv(input: &str) -> (r: Option<Type>)
    ensures
        r == type_of(input@),
{
    if str_eq(input, "quest") {
        Some(Type::Quest)
    } else if str_eq(input, "location") {
        Some(Type::Location)
    } else if str_eq(input, "encounter") {
        Some(Type::Encounter)
    } else {
        None
    }
}

impl Data {
    /// Takes one row into the journal; a row in error leaves the journal as it is.
    pub fn load_csv3(
        &mut self,
        line: &Vec<String>,
        locations: &Vec<(String, LocationId)>,
        quests: &Vec<(String, QuestId)>,
    ) -> (r: Option<()>)
        requires
            old(self).wf(),
            locations_known(names_view(locations@), &old(self).quest_locale.catalog),
            quests_known(names_view(quests@), &old(self).quest_locale.catalog),
        ensures
            final(self).wf(),
            final(self).quest_locale == old(self).quest_locale,
            final(self).chain_msg == old(self).chain_msg,
            match applied(old(self)@, fields_view(line@), names_view(locations@), names_view(quests@)) {
                Some(d) => r is Some && final(self)@ == d,
                None => r is None && final(self)@ == old(self)@,
            },
    {
        let ghost catalog = &self.quest_locale.catalog;
        let row_type = match type_from_csv(field(line, 0)) {
            Some(t) => t,
            None => {
                return None;
            },
        };
        let location_id = match read(line, 1, locations) {
            Some(l) => l,
            None => {
                return None;
            },
        };
        let quest_id = match read(line, 2, quests) {
            Some(q) => q,
            None => {
                return None;
            },
        };
        let prerequisite = match read(line, 4, quests) {
            Some(p) => p,
            None => {
                return None;
            },
        };
        let vis = match Vis::try_from_csv(field(line, 5)) {
            Some(v) => v,
            None => {
                return None;
            },
        };
        let note = field(line, 6);
        proof {
            lemma_lookup_known(names_view(locations@), field_of(fields_view(line@), 1), locations@.len() as int);
            lemma_lookup_known(names_view(quests@), field_of(fields_view(line@), 2), quests@.len() as int);
            lemma_lookup_known(names_view(quests@), field_of(fields_view(line@), 4), quests@.len() as int);
        }
        match row_type {
            Type::Quest => {
                let quest_id = match quest_id {
                    Some(q) => q,
                    None => {
                        return None;
                    },
                };
                let state = match QuestState::try_from_csv(field(line, 3)) {
                    Some(s) => s,
                    None => {
                        return None;
                    },
                };
                let mut quest = match self.take_quest(quest_id) {
                    Some(q) => q,
                    None => Quest::new(),
                };
                quest.state = state;
                quest.vis = vis;
                quest.note = note.to_owned();
                self.put_quest(quest_id, quest);
                proof {
                    assert(self@.quest =~= with_quest_row(old(self)@, quest_id, state, vis, note@).quest);
                }
            },
            Type::Location => {
                let location_id = match location_id {
                    Some(l) => l,
                    None => {
                        return None;
                    },
                };
                self.location.insert(location_id.0, note.to_owned());
                proof {
                    assert(self@.location =~= old(self)@.location.insert(location_id.0, note@));
                    assert(self@.quest =~= old(self)@.quest);
                }
            },
            Type::Encounter => {
                let location_id = match location_id {
                    Some(l) => l,
                    None => {
                        return None;
                    },
                };
                let quest_id = match quest_id {
                    Some(q) => q,
                    None => {
                        return None;
                    },
                };
                let encounter_type = match EncounterType::try_from_csv(field(line, 3)) {
                    Some(t) => t,
                    None => {
                        return None;
                    },
                };
                let mut quest = match self.take_quest(quest_id) {
                    Some(q) => q,
                    None => Quest::new(),
                };
                let ghost before = quest@;
                let mut quest_location = match quest.encounter.get(location_id.0) {
                    Some(l) => *l,
                    None => QuestLocation::new(),
                };
                let ghost base = quest_location;
                quest_location.insert(encounter_type, prerequisite, vis);
                quest.encounter.insert(location_id.0, quest_location);
                proof {
                    assert(base == location_or_empty(before.encounter, location_id.0));
                    assert(location_fits(base, catalog)) by {
                        if !before.encounter.contains_key(location_id.0) {
                            assert forall|key: EncounterType| (#[trigger] base.slot(key)) is None by {}
                        }
                    }
                    assert forall|key: EncounterType|
                        (#[trigger] quest_location.slot(key)) is Some && quest_location.slot(
                            key,
                        )->Some_0.prerequisite is Some implies quest_location.slot(
                        key,
                    )->Some_0.prerequisite->Some_0.known(catalog) by {
                        if key != encounter_type {
                            assert(quest_location.slot(key) == base.slot(key));
                        }
                    }
                    assert forall|l: u16| #[trigger] quest@.encounter.contains_key(l) implies (l as int)
                        < catalog.location_count() && location_fits(quest@.encounter[l], catalog) by {
                        if l != location_id.0 {
                            assert(before.encounter.contains_key(l));
                        }
                    }
                }
                self.put_quest(quest_id, quest);
                proof {
                    assert(self@.quest =~= with_encounter_row(
                        old(self)@,
                        quest_id,
                        location_id,
                        encounter_type,
                        prerequisite,
                        vis,
                    ).quest);
                }
            },
        }
        Some(())
    }
}

/// What a table of identifiers of the catalog holds under a name is an identifier of the catalog.
pub proof fn lemma_lookup_in_table<T>(names: Seq<(Seq<char>, T)>, name: Seq<char>, n: int)
    requires
        0 <= n <= names.len(),
    ensures
        lookup(names, name, n) is Some ==> exists|i: int|
            0 <= i < n && (#[trigger] names[i]).0 == name && names[i].1 == lookup(names, name, n)->Some_0,
    decreases n,
{
    if n > 0 && names[n - 1].0 != name {
        lemma_lookup_in_table(names, name, n - 1);
    }
}

proof fn lemma_lookup_known<T>(names: Seq<(Seq<char>, T)>, name: Seq<char>, n: int)
    requires
        0 <= n <= names.len(),
    ensures
        lookup(names, name, n) is Some ==> exists|i: int|
            0 <= i < names.len() && (#[trigger] names[i]).1 == lookup(names, name, n)->Some_0,
{
    lemma_lookup_in_table(names, name, n);
}

/// The table of location names in a language: every location but the prologue.
pub open spec fn location_table(catalog: &Catalog, language: GameLanguage) -> Seq<(Seq<char>, LocationId)> {
    Seq::new(
        (catalog.location_count() - 1) as nat,
        |i: int| (catalog.location_name(language, i + 1), LocationId((i + 1) as u16)),
    )
}

/// The table of quest names in a language.
pub open spec fn quest_table(catalog: &Catalog, language: GameLanguage) -> Seq<(Seq<char>, QuestId)> {
    Seq::new(catalog.quest_count() as nat, |i: int| (catalog.quest_name(language, i), QuestId(i as u16)))
}

/// The rows of a file, as plain values.
pub open spec fn rows_view(rows: Seq<Vec<String>>) -> Seq<Seq<Seq<char>>> {
    Seq::new(rows.len(), |i: int| fields_view(rows[i]@))
}

/// The journal after the first `n` rows were taken in turn into a journal
/// that held only the built-in quests; a row in error changes nothing.
pub open spec fn imported_rows(catalog: &Catalog, language: GameLanguage, rows: Seq<Seq<Seq<char>>>, n: int) -> DataView
    decreases n,
{
    if n <= 0 {
        fresh()
    } else {
        let before = imported_rows(catalog, language, rows, n - 1);
        match applied(before, rows[n - 1], location_table(catalog, language), quest_table(catalog, language)) {
            Some(d) => d,
            None => before,
        }
    }
}

/// Whether the row at a place is in error.
pub open spec fn row_fails(catalog: &Catalog, language: GameLanguage, rows: Seq<Seq<Seq<char>>>, i: int) -> bool {
    applied(
        imported_rows(catalog, language, rows, i),
        rows[i],
        location_table(catalog, language),
        quest_table(catalog, language),
    ) is None
}

/// The number under which a row is reported: rows are counted from 1, and
/// the header and the language row come first.
pub open spec fn row_number(i: int) -> nat {
    (i + 3) as nat
}

/// The report on the first `n` rows: the numbers of the rows in error, with
/// a comma and a space between them.
pub open spec fn diagnostics(catalog: &Catalog, language: GameLanguage, rows: Seq<Seq<Seq<char>>>, n: int) -> Seq<char>
    decreases n,
{
    if n <= 0 {
        Seq::empty()
    } else {
        let before = diagnostics(catalog, language, rows, n - 1);
        if row_fails(catalog, language, rows, n - 1) {
            (if before.len() == 0 {
                before
            } else {
                before + ", "@
            }) + decimal(row_number(n - 1))
        } else {
            before
        }
    }
}

/// The file without a byte-order mark at its start.
pub open spec fn without_bom(file: Seq<u8>) -> Seq<u8> {
    if file.len() >= 3 && file[0] == 0xef && file[1] == 0xbb && file[2] == 0xbf {
        file.skip(3)
    } else {
        file
    }
}

/// The header that every file starts with.
pub open spec fn header_row() -> Seq<Seq<char>> {
    seq!["type"@, "location"@, "quest"@, "status"@, "prerequisite"@, "visibility"@, "note"@]
}

/// The header of a file: its first record, or an empty one where it has none.
pub open spec fn header_of(records: Seq<Option<Seq<Seq<char>>>>) -> Seq<Seq<char>> {
    if records.len() == 0 {
        Seq::empty()
    } else {
        records[0]->Some_0
    }
}

/// Whether every record of a list can be read.
pub open spec fn all_read(records: Seq<Option<Seq<Seq<char>>>>) -> bool {
    forall|i: int| 0 <= i < records.len() ==> (#[trigger] records[i]) is Some
}

/// The fields of the records of a list.
pub open spec fn read_rows(records: Seq<Option<Seq<Seq<char>>>>) -> Seq<Seq<Seq<char>>> {
    Seq::new(records.len(), |i: int| records[i]->Some_0)
}

/// What the records after the header amount to: the first must be a
/// `language` row with a known code, and the others are the rows to take in.
pub open spec fn language_checked(rest: Seq<Option<Seq<Seq<char>>>>, catalog: &Catalog) -> Result<
    (GameLanguage, Seq<Seq<Seq<char>>>),
    MyError,
> {
    if rest.len() > 0 && rest[0] is None {
        Err(MyError::CsvError)
    } else if rest.len() == 0 || field_of(rest[0]->Some_0, 0) != "language"@ || catalog.language_of_code(
        field_of(rest[0]->Some_0, 3),
    ) is None {
        Err(MyError::Language)
    } else if !all_read(rest.skip(1)) {
        Err(MyError::CsvError)
    } else {
        Ok((catalog.language_of_code(field_of(rest[0]->Some_0, 3))->Some_0, read_rows(rest.skip(1))))
    }
}

/// What the records of a file amount to: the language and the rows to take
/// in, or the reason why the file is refused. A record that cannot be read
/// refuses the file as soon as it is reached; before that the header must be
/// the fixed one, and the next record must be a `language` row with a known code.
pub open spec fn checked(records: Seq<Option<Seq<Seq<char>>>>, catalog: &Catalog) -> Result<
    (GameLanguage, Seq<Seq<Seq<char>>>),
    MyError,
> {
    if records.len() > 0 && records[0] is None {
        Err(MyError::CsvError)
    } else if header_of(records) != header_row() {
        Err(MyError::Header)
    } else {
        language_checked(records.skip(1), catalog)
    }
}

fn is_header(header: &Vec<String>) -> (r: bool)
    ensures
        r == (fields_view(header@) == header_row()),
{
    let r = header.len() == 7 && str_eq(header[0].as_str(), "type") && str_eq(header[1].as_str(), "location")
        && str_eq(header[2].as_str(), "quest") && str_eq(header[3].as_str(), "status") && str_eq(
        header[4].as_str(),
        "prerequisite",
    ) && str_eq(header[5].as_str(), "visibility") && str_eq(header[6].as_str(), "note");
    proof {
        let h = fields_view(header@);
        let w = header_row();
        assert(w.len() == 7);
        if r {
            assert(h =~= w);
        } else if header@.len() == 7 {
            assert(h[0] == header@[0]@ && h[1] == header@[1]@ && h[2] == header@[2]@ && h[3] == header@[3]@);
            assert(h[4] == header@[4]@ && h[5] == header@[5]@ && h[6] == header@[6]@);
            assert(w[0] == "type"@ && w[1] == "location"@ && w[2] == "quest"@ && w[3] == "status"@);
            assert(w[4] == "prerequisite"@ && w[5] == "visibility"@ && w[6] == "note"@);
        }
    }
    r
}

/// Opens a file and checks its header.
fn open_checked<'a>(file: &'a [u8]) -> (r: Result<csv::Reader<&'a [u8]>, MyError>)
    ensures
        match r {
            Ok(reader) => !(csv_rows(file@).len() > 0 && csv_rows(file@)[0] is None) && header_of(csv_rows(file@))
                == header_row() && reader_rest(reader) == csv_rows(file@).skip(1),
            Err(e) => if csv_rows(file@).len() > 0 && csv_rows(file@)[0] is None {
                e == MyError::CsvError
            } else {
                e == MyError::Header && header_of(csv_rows(file@)) != header_row()
            },
        },
{
    let ghost records = csv_rows(file@);
    let (reader, header) = match open_reader(file) {
        Ok(opened) => opened,
        Err(_) => {
            return Err(MyError::CsvError);
        },
    };
    proof {
        if records.len() == 0 {
            assert(fields_view(header@) =~= Seq::<Seq<char>>::empty());
        }
        assert(header_row().len() == 7);
    }
    if !is_header(&header) {
        return Err(MyError::Header);
    }
    Ok(reader)
}

/// Reads the language row.
fn read_language<'a>(reader: &mut csv::Reader<&'a [u8]>, catalog: &Catalog) -> (r: Result<GameLanguage, MyError>)
    ensures
        ({
            let rest = reader_rest(*old(reader));
            match r {
                Ok(language) => rest.len() > 0 && rest[0] is Some && field_of(rest[0]->Some_0, 0) == "language"@
                    && catalog.language_of_code(field_of(rest[0]->Some_0, 3)) == Some(language)
                    && catalog.has_language(language) && reader_rest(*final(reader)) == rest.skip(1),
                Err(e) => if rest.len() > 0 && rest[0] is None {
                    e == MyError::CsvError
                } else {
                    e == MyError::Language && (rest.len() == 0 || field_of(rest[0]->Some_0, 0) != "language"@
                        || catalog.language_of_code(field_of(rest[0]->Some_0, 3)) is None)
                },
            }
        }),
{
    let line = match next_record(reader) {
        Ok((more, line)) => {
            if !more {
                return Err(MyError::Language);
            }
            line
        },
        Err(_) => {
            return Err(MyError::CsvError);
        },
    };
    if !str_eq(field(&line, 0), "language") {
        return Err(MyError::Language);
    }
    match catalog.try_language(field(&line, 3)) {
        Some(language) => Ok(language),
        None => Err(MyError::Language),
    }
}

/// Reads every record that is left.
fn read_rest<'a>(reader: &mut csv::Reader<&'a [u8]>) -> (r: Result<Vec<Vec<String>>, MyError>)
    ensures
        match r {
            Ok(rows) => all_read(reader_rest(*old(reader))) && rows_view(rows@) == read_rows(
                reader_rest(*old(reader)),
            ),
            Err(e) => e == MyError::CsvError && !all_read(reader_rest(*old(reader))),
        },
{
    let ghost records = reader_rest(*reader);
    let mut rows: Vec<Vec<String>> = Vec::new();
    loop
        invariant
            records == reader_rest(*old(reader)),
            rows@.len() <= records.len(),
            reader_rest(*reader) == records.skip(rows@.len() as int),
            forall|i: int| 0 <= i < rows@.len() ==> (#[trigger] records[i]) is Some,
            forall|i: int| 0 <= i < rows@.len() ==> fields_view((#[trigger] rows@[i])@) == records[i]->Some_0,
        decreases records.len() - rows@.len(),
    {
        let ghost rest = reader_rest(*reader);
        let ghost at: int = rows@.len() as int;
        assert(rest.len() == records.len() - at);
        match next_record(reader) {
            Ok((more, line)) => {
                if more {
                    assert(rest[0] == records[at]);
                    assert(rest.skip(1) =~= records.skip(at + 1));
                    rows.push(line);
                } else {
                    proof {
                        assert(rest.len() == 0) by {
                            if rest.len() > 0 {
                                assert(rest[0] == records[at]);
                            }
                        }
                        assert(rows_view(rows@) =~= read_rows(records));
                    }
                    return Ok(rows);
                }
            },
            Err(_) => {
                proof {
                    assert(rest.len() > 0 && rest[0] is None);
                    assert(rest[0] == records[at]);
                    assert(records[at] is None);
                }
                return Err(MyError::CsvError);
            },
        }
    }
}

/// Reads a file into its language and its rows, or says why it is refused.
pub fn read_csv(file: &[u8], catalog: &Catalog) -> (r: Result<(GameLanguage, Vec<Vec<String>>), MyError>)
    ensures
        match checked(csv_rows(without_bom(file@)), catalog) {
            Ok((language, rows)) => r is Ok && r->Ok_0.0 == language && rows_view(r->Ok_0.1@) == rows
                && catalog.has_language(language),
            Err(e) => r == Err::<(GameLanguage, Vec<Vec<String>>), MyError>(e),
        },
{
    let bare = if file.len() >= 3 && file[0] == 0xef && file[1] == 0xbb && file[2] == 0xbf {
        slice_subrange(file, 3, file.len())
    } else {
        file
    };
    assert(bare@ =~= without_bom(file@));
    let mut reader = match open_checked(bare) {
        Ok(reader) => reader,
        Err(e) => {
            return Err(e);
        },
    };
    let language = match read_language(&mut reader, catalog) {
        Ok(language) => language,
        Err(e) => {
            return Err(e);
        },
    };
    match read_rest(&mut reader) {
        Ok(rows) => Ok((language, rows)),
        Err(e) => Err(e),
    }
}

impl Data {
    /// Takes the rows of a file into the journal: forgets what the journal
    /// held, chooses the language, takes the rows in turn, and cleans up.
    /// Hands back the numbers of the rows that were in error.
    pub fn load_rows(&mut self, language: GameLanguage, rows: &Vec<Vec<String>>) -> (r: String)
        requires
            old(self).quest_locale.wf(),
            old(self).quest_locale.catalog.has_language(language),
        ensures
            final(self).wf(),
            final(self).quest_locale.catalog == old(self).quest_locale.catalog,
            final(self).quest_locale.language == language,
            final(self).chain_msg == old(self).chain_msg,
            final(self)@ == cleaned(
                imported_rows(&old(self).quest_locale.catalog, language, rows_view(rows@), rows@.len() as int),
            ),
            r@ == diagnostics(&old(self).quest_locale.catalog, language, rows_view(rows@), rows@.len() as int),
    {
        self.reset();
        self.quest_locale.set_language(language);
        let ghost catalog = &self.quest_locale.catalog;
        let mut locations: Vec<(String, LocationId)> = Vec::new();
        let mut l: usize = 1;
        while l < self.quest_locale.catalog.locations.len()
            invariant
                self.wf(),
                catalog == &self.quest_locale.catalog,
                self.quest_locale.language == language,
                1 <= l <= catalog.location_count(),
                locations@.len() == l - 1,
                forall|i: int|
                    0 <= i < locations@.len() ==> (#[trigger] locations@[i]).0@ == catalog.location_name(
                        language,
                        i + 1,
                    ) && locations@[i].1 == LocationId((i + 1) as u16),
            decreases catalog.location_count() - l,
        {
            let id = LocationId(l as u16);
            locations.push((id.name(&self.quest_locale.catalog, language).to_owned(), id));
            l = l + 1;
        }
        let mut quests: Vec<(String, QuestId)> = Vec::new();
        let mut q: usize = 0;
        while q < self.quest_locale.catalog.keywords.len()
            invariant
                self.wf(),
                catalog == &self.quest_locale.catalog,
                self.quest_locale.language == language,
                q <= catalog.quest_count(),
                quests@.len() == q,
                forall|i: int|
                    0 <= i < quests@.len() ==> (#[trigger] quests@[i]).0@ == catalog.quest_name(language, i)
                        && quests@[i].1 == QuestId(i as u16),
            decreases catalog.quest_count() - q,
        {
            let id = QuestId(q as u16);
            quests.push((self.quest_locale.get(id).to_owned(), id));
            q = q + 1;
        }
        proof {
            assert(names_view(locations@) =~= location_table(catalog, language));
            assert(names_view(quests@) =~= quest_table(catalog, language));
        }
        let mut errors = String::new();
        let mut i: usize = 0;
        while i < rows.len()
            invariant
                self.wf(),
                catalog == &self.quest_locale.catalog,
                catalog == &old(self).quest_locale.catalog,
                self.quest_locale.language == language,
                self.chain_msg == old(self).chain_msg,
                names_view(locations@) == location_table(catalog, language),
                names_view(quests@) == quest_table(catalog, language),
                i <= rows@.len(),
                self@ == imported_rows(catalog, language, rows_view(rows@), i as int),
                errors@ == diagnostics(catalog, language, rows_view(rows@), i as int),
            decreases rows@.len() - i,
        {
            assert(rows_view(rows@)[i as int] == fields_view(rows@[i as int]@));
            match self.load_csv3(&rows[i], &locations, &quests) {
                Some(_) => {},
                None => {
                    if !errors.as_str().is_empty() {
                        errors.append(", ");
                    }
                    let number = decimal_string(i as u128 + 3);
                    errors.append(number.as_str());
                },
            }
            i = i + 1;
        }
        self.cleanup();
        errors
    }

    /// Reads an exchanged file into the journal. A file that is refused leaves
    /// the journal as it was; else the journal holds what the rows say and
    /// nothing else, and the numbers of the rows in error are handed back.
    pub fn load_csv(&mut self, file: &[u8]) -> (r: Result<String, MyError>)
        requires
            old(self).wf(),
        ensures
            final(self).wf(),
            final(self).quest_locale.catalog == old(self).quest_locale.catalog,
            final(self).chain_msg == old(self).chain_msg,
            match checked(csv_rows(without_bom(file@)), &old(self).quest_locale.catalog) {
                Ok((language, rows)) => r is Ok && r->Ok_0@ == diagnostics(
                    &old(self).quest_locale.catalog,
                    language,
                    rows,
                    rows.len() as int,
                ) && final(self)@ == cleaned(
                    imported_rows(&old(self).quest_locale.catalog, language, rows, rows.len() as int),
                ) && final(self).quest_locale.language == language,
                Err(e) => r == Err::<String, MyError>(e) && final(self)@ == old(self)@ && final(self).quest_locale
                    == old(self).quest_locale,
            },
    {
        match read_csv(file, &self.quest_locale.catalog) {
            Ok((language, rows)) => Ok(self.load_rows(language, &rows)),
            Err(e) => Err(e),
        }
    }
}

} // verus!
