use sleeping_journal::data::encounter_type::EncounterType;
use sleeping_journal::data::quest::{Quest, QuestState};
use sleeping_journal::data::quest_location::QuestLocation;
use sleeping_journal::data::vis::Vis;
use sleeping_journal::game::catalog::{Catalog, Language, Location};
use sleeping_journal::game::game_language::GameLanguage;
use sleeping_journal::game::location_id::LocationId;
use sleeping_journal::game::quest_id::QuestId;
use sleeping_journal::global::data::Data;
use sleeping_journal::ser::csv::{field, read, read_csv, MyError};

const HEADER: &str = "type,location,quest,status,prerequisite,visibility,note\n";
const LANGUAGE: &str = "language,,,English,,,marker\n";

fn exchange_catalog() -> Catalog {
    Catalog {
        languages: vec![
            Language {
                name: "English".to_string(),
                prologue: "Prologue".to_string(),
                quests: vec![
                    "Raid".to_string(),
                    "Cottage".to_string(),
                    "Amulet".to_string(),
                    "Bridge".to_string(),
                ],
            },
            Language {
                name: "Deutsch".to_string(),
                prologue: "Prolog".to_string(),
                quests: vec![
                    "Raubzug".to_string(),
                    "Hütte".to_string(),
                    "Amulett".to_string(),
                    "Brücke".to_string(),
                ],
            },
        ],
        locations: vec![
            Location { name: None, page: None },
            Location { name: Some("2".to_string()), page: Some("3".to_string()) },
            Location { name: Some("5".to_string()), page: Some("3".to_string()) },
        ],
        keywords: vec![false, false, true, false],
        map: vec![None, Some(("3".to_string(), "4".to_string())), Some(("7".to_string(), String::new()))],
        map_default_position: 1,
    }
}

fn sample() -> Data {
    let mut data = Data::new(exchange_catalog());
    let mut amulet = Quest::new();
    amulet.state = QuestState::Removed;
    amulet.vis = Vis::HiddenThisCampaign;
    amulet.note = "a \"quoted\", note".to_string();
    let mut at2 = QuestLocation::new();
    at2.insert(EncounterType::Gain, Some(QuestId(1)), Vis::Visible);
    at2.insert(EncounterType::Lose, None, Vis::HiddenForever);
    amulet.encounter.insert(1, at2);
    data.put_quest(QuestId(2), amulet);
    let mut bridge = Quest::new();
    let mut at5 = QuestLocation::new();
    at5.insert(EncounterType::Unless, None, Vis::Visible);
    bridge.encounter.insert(2, at5);
    data.put_quest(QuestId(3), bridge);
    data.location.insert(2, "two\nlines".to_string());
    data
}

fn state_of(data: &Data, q: u16) -> Option<QuestState> {
    data.quest.get(q).map(|quest| quest.state)
}

#[test]
fn save_csv_writes_the_expected_file() {
    let bytes = sample().save_csv();
    let text = String::from_utf8(bytes).unwrap();
    let expected = String::new()
        + HEADER
        + "language,,,English,,,This file is in UTF-8 ðŸ˜€\n"
        + "quest,,Amulet,removed,,hidden-this-campaign,\"a \"\"quoted\"\", note\"\n"
        + "quest,,Cottage,in-game,,,\n"
        + "quest,,Raid,in-game,,,\n"
        + "encounter,2,Amulet,gain,Cottage,,\n"
        + "encounter,2,Amulet,lose,,hidden-forever,\n"
        + "location,5,,,,,\"two\nlines\"\n"
        + "encounter,5,Bridge,unless,,,\n";
    assert_eq!(text, expected);
}

#[test]
fn export_rows_start_with_header_and_language() {
    let rows = sample().export_rows();
    assert_eq!(rows.len(), 9);
    assert_eq!(rows[0], vec!["type", "location", "quest", "status", "prerequisite", "visibility", "note"]);
    assert_eq!(rows[1][0], "language");
    assert_eq!(rows[1][3], "English");
    for row in &rows {
        assert_eq!(row.len(), 7);
    }
}

#[test]
fn csv_round_trip_reproduces_the_journal() {
    let original = sample();
    let file = original.save_csv();
    let mut loaded = Data::new(exchange_catalog());
    loaded.location.insert(1, "to be forgotten".to_string());
    let report = loaded.load_csv(&file);
    assert_eq!(report, Ok(String::new()));
    assert_eq!(loaded.save_csv(), file);
    assert_eq!(loaded.quest.len(), 4);
    assert_eq!(state_of(&loaded, 2), Some(QuestState::Removed));
    let amulet = loaded.quest.get(2).unwrap();
    assert_eq!(amulet.vis, Vis::HiddenThisCampaign);
    assert_eq!(amulet.note, "a \"quoted\", note");
    let at2 = amulet.encounter.get(1).unwrap();
    assert_eq!(at2.get(EncounterType::Gain).unwrap().prerequisite, Some(QuestId(1)));
    assert_eq!(at2.get(EncounterType::Lose).unwrap().vis, Vis::HiddenForever);
    assert_eq!(loaded.location.get(2).map(|n| n.as_str()), Some("two\nlines"));
    assert!(loaded.location.get(1).is_none());
}

#[test]
fn header_without_prerequisite_column_is_rejected() {
    let file = "type,location,quest,status,visibility,note\nlanguage,,,English,,\nquest,,Amulet,in-game,,x\n";
    let mut data = sample();
    let before = data.save_csv();
    assert_eq!(data.load_csv(file.as_bytes()), Err(MyError::Header));
    assert_eq!(data.save_csv(), before);
}

#[test]
fn header_with_an_extra_column_is_rejected() {
    let file = "type,location,quest,status,prerequisite,visibility,note,more\nlanguage,,,English,,,\n";
    let mut data = sample();
    assert_eq!(data.load_csv(file.as_bytes()), Err(MyError::Header));
}

#[test]
fn empty_file_is_rejected_for_its_header() {
    let mut data = sample();
    assert_eq!(data.load_csv(b""), Err(MyError::Header));
}

#[test]
fn missing_language_row_is_rejected() {
    let mut data = sample();
    let before = data.save_csv();
    assert_eq!(data.load_csv(HEADER.as_bytes()), Err(MyError::Language));
    let file = String::new() + HEADER + "quest,,Amulet,in-game,,,\n";
    assert_eq!(data.load_csv(file.as_bytes()), Err(MyError::Language));
    assert_eq!(data.save_csv(), before);
}

#[test]
fn unknown_language_is_rejected() {
    let mut data = sample();
    let file = String::new() + HEADER + "language,,,Klingon,,,\n";
    assert_eq!(data.load_csv(file.as_bytes()), Err(MyError::Language));
}

#[test]
fn unreadable_header_is_a_csv_error() {
    let mut data = sample();
    let mut file = b"type,location,quest,status,prerequisite,visibility,no".to_vec();
    file.push(0xff);
    file.extend_from_slice(b"\nlanguage,,,English,,,\n");
    assert_eq!(data.load_csv(&file), Err(MyError::CsvError));
}

#[test]
fn unreadable_row_is_a_csv_error_and_changes_nothing() {
    let mut data = sample();
    let before = data.save_csv();
    let mut file = (String::new() + HEADER + LANGUAGE + "quest,,Bridge,in-game,,,\nquest,,Amulet,in-game,,,").into_bytes();
    file.push(0xff);
    file.push(b'\n');
    assert_eq!(data.load_csv(&file), Err(MyError::CsvError));
    assert_eq!(data.save_csv(), before);
}

#[test]
fn wrong_header_wins_over_an_unreadable_row() {
    let mut data = sample();
    let mut file = b"type,location\nlanguage,,,English,,,\nquest,,".to_vec();
    file.push(0xff);
    file.push(b'\n');
    assert_eq!(data.load_csv(&file), Err(MyError::Header));
}

#[test]
fn partial_file_imports_the_valid_rows() {
    let file = String::new()
        + HEADER
        + LANGUAGE
        + "quest,,Amulet,in-game,,,first\n"
        + "location,2,,,,,at two\n"
        + "encounter,2,Amulet,complete,,,\n"
        + "quest,,Nowhere,in-game,,,\n"
        + "encounter,5,Bridge,gain,Amulet,hidden-forever,\n"
        + "quest,,Bridge,removed,,hidden-this-campaign,\n";
    let mut data = Data::new(exchange_catalog());
    assert_eq!(data.load_csv(file.as_bytes()), Ok("6".to_string()));
    assert_eq!(state_of(&data, 2), Some(QuestState::InGame));
    assert_eq!(data.quest.get(2).unwrap().note, "first");
    assert_eq!(data.location.get(1).map(|n| n.as_str()), Some("at two"));
    assert!(data.quest.get(2).unwrap().encounter.get(1).unwrap().contains_key(EncounterType::Complete));
    let bridge = data.quest.get(3).unwrap();
    assert_eq!(bridge.state, QuestState::Removed);
    assert_eq!(bridge.vis, Vis::HiddenThisCampaign);
    let gain = bridge.encounter.get(2).unwrap().get(EncounterType::Gain).unwrap();
    assert_eq!(gain.prerequisite, Some(QuestId(2)));
    assert_eq!(gain.vis, Vis::HiddenForever);
}

#[test]
fn rows_in_error_are_reported_by_number() {
    let file = String::new()
        + HEADER
        + LANGUAGE
        + "quest,,Nowhere,in-game,,,\n"
        + "quest,,Amulet,in-game,,,kept\n"
        + "quest,,Amulet,started,,,\n"
        + "\n"
        + "location,9,,,,,x\n"
        + "riddle,,,,,,\n"
        + "encounter,2,Amulet,gain,,shown,\n"
        + "encounter,,Amulet,gain,,,\n"
        + "encounter,2,,gain,,,\n"
        + "encounter,2,Amulet,win,,,\n"
        + "encounter,2,Amulet,gain,Nobody,,\n"
        + "quest,,,in-game,,,\n"
        + "location,,,,,,x\n"
        + "quest,,Bridge\n";
    let mut data = Data::new(exchange_catalog());
    assert_eq!(
        data.load_csv(file.as_bytes()),
        Ok("3, 5, 6, 7, 8, 9, 10, 11, 12, 13, 14".to_string())
    );
    assert_eq!(state_of(&data, 2), Some(QuestState::InGame));
    // the short row is read with empty cells, and a quest without anything to keep is cleaned away
    assert!(data.quest.get(3).is_none());
}

#[test]
fn byte_order_mark_is_skipped() {
    let mut file = vec![0xef, 0xbb, 0xbf];
    file.extend_from_slice((String::new() + HEADER + LANGUAGE + "quest,,Amulet,removed,,,\n").as_bytes());
    let mut data = Data::new(exchange_catalog());
    assert_eq!(data.load_csv(&file), Ok(String::new()));
    assert_eq!(state_of(&data, 2), None);
    let mut file = vec![0xef, 0xbb, 0xbf];
    file.extend_from_slice((String::new() + HEADER + LANGUAGE + "quest,,Amulet,removed,,,n\n").as_bytes());
    assert_eq!(data.load_csv(&file), Ok(String::new()));
    assert_eq!(state_of(&data, 2), Some(QuestState::Removed));
}

#[test]
fn import_switches_the_language() {
    let file = String::new()
        + HEADER
        + "language,,,Deutsch,,,\n"
        + "quest,,Brücke,in-game,,,über\n"
        + "quest,,Bridge,in-game,,,\n";
    let mut data = Data::new(exchange_catalog());
    assert_eq!(data.load_csv(file.as_bytes()), Ok("4".to_string()));
    assert_eq!(data.quest_locale.language(), GameLanguage(1));
    assert_eq!(state_of(&data, 3), Some(QuestState::InGame));
    assert_eq!(data.quest_locale.get(QuestId(3)), "Brücke");
}

#[test]
fn import_keeps_the_built_in_quests() {
    let file = String::new() + HEADER + LANGUAGE;
    let mut data = sample();
    assert_eq!(data.load_csv(file.as_bytes()), Ok(String::new()));
    assert_eq!(data.quest.len(), 2);
    assert_eq!(state_of(&data, 0), Some(QuestState::InGame));
    assert_eq!(state_of(&data, 1), Some(QuestState::InGame));
    assert!(data.quest.get(0).unwrap().encounter.get(0).unwrap().contains_key(EncounterType::Gain));
    assert_eq!(data.location.len(), 0);
}

#[test]
fn read_csv_hands_out_language_and_rows() {
    let file = String::new() + HEADER + "language,,,Deutsch,,,\n" + "a,b\n" + "c\n";
    let (language, rows) = read_csv(file.as_bytes(), &exchange_catalog()).unwrap();
    assert_eq!(language, GameLanguage(1));
    assert_eq!(rows, vec![vec!["a".to_string(), "b".to_string()], vec!["c".to_string()]]);
}

#[test]
fn field_is_empty_beyond_the_row() {
    let line = vec!["a".to_string(), "b".to_string()];
    assert_eq!(field(&line, 1), "b");
    assert_eq!(field(&line, 2), "");
}

#[test]
fn read_takes_the_later_of_two_entries() {
    let table = vec![("x".to_string(), LocationId(1)), ("y".to_string(), LocationId(2)), ("x".to_string(), LocationId(3))];
    let line = vec!["x".to_string(), "".to_string(), "z".to_string()];
    assert_eq!(read(&line, 0, &table), Some(Some(LocationId(3))));
    assert_eq!(read(&line, 1, &table), Some(None));
    assert_eq!(read(&line, 2, &table), None);
    assert_eq!(read(&line, 7, &table), Some(None));
}

#[test]
fn load_rows_reports_and_cleans() {
    let rows = vec![
        vec!["quest".to_string(), "".to_string(), "Amulet".to_string(), "in-game".to_string()],
        vec!["quest".to_string(), "".to_string(), "Amulet".to_string(), "bogus".to_string()],
    ];
    let mut data = sample();
    assert_eq!(data.load_rows(GameLanguage(0), &rows), "4");
    // in the game, but with nothing to keep
    assert!(data.quest.get(2).is_none());
    assert_eq!(data.quest.len(), 2);
}
