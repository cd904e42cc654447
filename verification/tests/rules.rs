use sleeping_journal::data::encounter_map::EncounterMap;
use sleeping_journal::data::encounter_type::EncounterType;
use sleeping_journal::data::quest::{Quest, QuestState};
use sleeping_journal::data::quest_location::QuestLocation;
use sleeping_journal::data::vis::Vis;
use sleeping_journal::game::catalog::{Catalog, Language, Location};
use sleeping_journal::game::quest_id::QuestId;
use sleeping_journal::global::data::Data;

fn catalog() -> Catalog {
    Catalog {
        languages: vec![Language {
            name: "English".to_string(),
            prologue: "Prologue".to_string(),
            quests: vec![
                "Raid".to_string(),
                "Cottage".to_string(),
                "Amulet".to_string(),
                "Bridge".to_string(),
            ],
        }],
        locations: vec![
            Location { name: None, page: None },
            Location { name: Some("2".to_string()), page: Some("3".to_string()) },
            Location { name: Some("5".to_string()), page: Some("3".to_string()) },
        ],
        keywords: vec![false, false, true, false],
        map: vec![None, Some(("3".to_string(), "4".to_string())), Some(("7".to_string(), String::new()))],
        map_default_position: 1,
    }
}

fn quest(state: QuestState, vis: Vis) -> Quest {
    let mut q = Quest::new();
    q.state = state;
    q.vis = vis;
    q
}

fn all_types() -> [EncounterType; 5] {
    [
        EncounterType::Unless,
        EncounterType::Gain,
        EncounterType::When,
        EncounterType::Complete,
        EncounterType::Lose,
    ]
}

fn full_location(prerequisite: Option<QuestId>, vis: Vis) -> QuestLocation {
    let mut l = QuestLocation::new();
    for t in all_types() {
        l.insert(t, prerequisite, vis);
    }
    l
}

#[test]
fn active_not_found_gain_without_prerequisite() {
    let data = Data::new(catalog());
    let l = full_location(None, Vis::Visible);
    let active = l.get_active(&quest(QuestState::NotFound, Vis::Visible), &data, false);
    assert_eq!(active.get(EncounterType::Unless), Some(true));
    assert_eq!(active.get(EncounterType::Gain), Some(true));
    assert_eq!(active.get(EncounterType::When), Some(false));
    assert_eq!(active.get(EncounterType::Complete), Some(false));
    assert_eq!(active.get(EncounterType::Lose), Some(false));
}

#[test]
fn active_gain_waits_for_prerequisite_in_game() {
    // the built-in quest 0 is in the game, so an encounter that waits for it is closed
    let data = Data::new(catalog());
    let l = full_location(Some(QuestId(0)), Vis::Visible);
    let active = l.get_active(&quest(QuestState::NotFound, Vis::Visible), &data, false);
    assert_eq!(active.get(EncounterType::Gain), Some(false));
    assert_eq!(active.get(EncounterType::Unless), Some(true));
}

#[test]
fn active_gain_opens_when_prerequisite_removed() {
    let mut data = Data::new(catalog());
    let mut q0 = data.take_quest(QuestId(0)).unwrap();
    q0.state = QuestState::Removed;
    data.put_quest(QuestId(0), q0);
    let l = full_location(Some(QuestId(0)), Vis::Visible);
    let active = l.get_active(&quest(QuestState::NotFound, Vis::Visible), &data, false);
    assert_eq!(active.get(EncounterType::Gain), Some(true));
}

#[test]
fn active_gain_closed_for_unknown_prerequisite() {
    let data = Data::new(catalog());
    let l = full_location(Some(QuestId(3)), Vis::Visible);
    let active = l.get_active(&quest(QuestState::NotFound, Vis::Visible), &data, false);
    assert_eq!(active.get(EncounterType::Gain), Some(false));
}

#[test]
fn active_in_game() {
    let data = Data::new(catalog());
    let l = full_location(None, Vis::Visible);
    let active = l.get_active(&quest(QuestState::InGame, Vis::Visible), &data, false);
    assert_eq!(active.get(EncounterType::Unless), Some(false));
    assert_eq!(active.get(EncounterType::Gain), Some(false));
    assert_eq!(active.get(EncounterType::When), Some(true));
    assert_eq!(active.get(EncounterType::Complete), Some(true));
    assert_eq!(active.get(EncounterType::Lose), Some(true));
}

#[test]
fn active_removed_is_all_false() {
    let data = Data::new(catalog());
    let l = full_location(None, Vis::Visible);
    let active = l.get_active(&quest(QuestState::Removed, Vis::Visible), &data, false);
    for t in all_types() {
        assert_eq!(active.get(t), Some(false));
    }
}

#[test]
fn hidden_quest_has_no_active_encounters() {
    let data = Data::new(catalog());
    let l = full_location(None, Vis::Visible);
    for state in [QuestState::NotFound, QuestState::InGame, QuestState::Removed] {
        for vis in [Vis::HiddenForever, Vis::HiddenThisCampaign] {
            let active = l.get_active(&quest(state, vis), &data, false);
            assert!(active.is_empty());
            assert_eq!(active.len(), 0);
        }
    }
}

#[test]
fn hidden_quest_is_listed_on_the_map() {
    let data = Data::new(catalog());
    let l = full_location(None, Vis::HiddenForever);
    let active = l.get_active(&quest(QuestState::InGame, Vis::HiddenForever), &data, true);
    assert_eq!(active.len(), 5);
    assert_eq!(active.get(EncounterType::Complete), Some(true));
}

#[test]
fn hidden_encounter_is_left_out() {
    let data = Data::new(catalog());
    let mut l = QuestLocation::new();
    l.insert(EncounterType::When, None, Vis::Visible);
    l.insert(EncounterType::Lose, None, Vis::HiddenThisCampaign);
    let active = l.get_active(&quest(QuestState::InGame, Vis::Visible), &data, false);
    assert_eq!(active.get(EncounterType::When), Some(true));
    assert_eq!(active.get(EncounterType::Lose), None);
    assert_eq!(active.len(), 1);
}

#[test]
fn empty_location_gives_empty_map() {
    let data = Data::new(catalog());
    let l = QuestLocation::new();
    let active = l.get_active(&quest(QuestState::NotFound, Vis::Visible), &data, true);
    assert!(active.is_empty());
}

#[test]
fn encounter_map_set_and_remove() {
    let mut m: EncounterMap<u8> = EncounterMap::new();
    assert!(m.is_empty());
    assert_eq!(m.set(EncounterType::Gain, Some(7)), None);
    assert_eq!(m.set(EncounterType::Gain, Some(8)), Some(7));
    assert!(m.contains_key(EncounterType::Gain));
    assert!(!m.contains_key(EncounterType::Lose));
    assert_eq!(m.len(), 1);
    assert_eq!(m.remove(EncounterType::Gain), Some(8));
    assert!(m.is_empty());
}
