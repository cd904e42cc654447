use sleeping_journal::data::encounter_map::EncounterMap;
use sleeping_journal::data::encounter_type::EncounterType;
use sleeping_journal::data::quest::{Quest, QuestState};
use sleeping_journal::data::quest_location::QuestLocation;
use sleeping_journal::data::vis::Vis;
use sleeping_journal::game::catalog::{Catalog, Language, Location};
use sleeping_journal::game::quest_id::QuestId;
use sleeping_journal::global::data::Data;
use sleeping_journal::ser::game_data_1::{upgrade, SerdeEncounter, SerdeGameData1, SerdeLocation, SerdeQuest};
use sleeping_journal::ser::game_data_3::{SerdeEncounter3, SerdeGameData3, SerdeLocation3, SerdeQuest3};

fn stored_catalog() -> Catalog {
    Catalog {
        languages: vec![Language {
            name: "English".to_string(),
            prologue: "Prologue".to_string(),
            quests: vec![
                "Raid".to_string(),
                "Cottage".to_string(),
                "Amulet".to_string(),
                "Bridge".to_string(),
            ],
        }],
        locations: vec![
            Location { name: None, page: None },
            Location { name: Some("2".to_string()), page: Some("3".to_string()) },
            Location { name: Some("5".to_string()), page: Some("3".to_string()) },
        ],
        keywords: vec![false, false, true, false],
        map: vec![None, Some(("3".to_string(), "4".to_string())), Some(("7".to_string(), String::new()))],
        map_default_position: 1,
    }
}

fn stored_sample() -> Data {
    let mut data = Data::new(stored_catalog());
    let mut amulet = Quest::new();
    amulet.state = QuestState::Removed;
    amulet.vis = Vis::HiddenThisCampaign;
    amulet.note = "note".to_string();
    let mut at2 = QuestLocation::new();
    at2.insert(EncounterType::Gain, Some(QuestId(1)), Vis::Visible);
    at2.insert(EncounterType::Lose, None, Vis::HiddenForever);
    amulet.encounter.insert(2, at2);
    data.put_quest(QuestId(2), amulet);
    let mut raid = data.take_quest(QuestId(0)).unwrap();
    raid.state = QuestState::Removed;
    let mut at1 = QuestLocation::new();
    at1.insert(EncounterType::When, None, Vis::Visible);
    raid.encounter.insert(1, at1);
    data.put_quest(QuestId(0), raid);
    data.location.insert(1, "one".to_string());
    data.location.insert(2, String::new());
    data
}

fn entry3(prerequisite: Option<usize>, vis: Vis) -> Option<(Option<usize>, Vis)> {
    Some((prerequisite, vis))
}

fn summary(data: &Data) -> Vec<(u16, QuestState, Vis, String, Vec<(u16, Vec<(u8, Option<u16>, Vis)>)>)> {
    let mut out = Vec::new();
    for k in data.quest.keys() {
        let q = data.quest.get(k).unwrap();
        let mut locations = Vec::new();
        for l in q.encounter.keys() {
            let at = q.encounter.get(l).unwrap();
            let mut entries = Vec::new();
            for raw in 0..5u8 {
                let t = EncounterType::from_raw(raw).unwrap();
                if let Some(e) = at.get(t) {
                    entries.push((raw, e.prerequisite.map(|p| p.0), e.vis));
                }
            }
            locations.push((l, entries));
        }
        out.push((k, q.state, q.vis, q.note.clone(), locations));
    }
    out
}

fn notes(data: &Data) -> Vec<(u16, String)> {
    data.location.keys().into_iter().map(|l| (l, data.location.get(l).unwrap().clone())).collect()
}

#[test]
fn save_game_data_writes_every_quest_but_not_the_prologue() {
    let stored = stored_sample().save_game_data();
    assert_eq!(stored.quests.len(), 3);
    assert_eq!(stored.quests[0].0, 0);
    assert_eq!(stored.quests[1].0, 1);
    assert_eq!(stored.quests[2].0, 2);
    let raid = &stored.quests[0].1;
    assert_eq!(raid.0, QuestState::Removed);
    assert_eq!(raid.1.len(), 1);
    assert_eq!(raid.1[0].0, 1);
    assert_eq!(raid.1[0].1.when, entry3(None, Vis::Visible));
    assert_eq!(raid.1[0].1.len(), 1);
    assert_eq!(stored.quests[1].1 .1.len(), 0);
    let amulet = &stored.quests[2].1;
    assert_eq!(amulet.0, QuestState::Removed);
    assert_eq!(amulet.2, "note");
    assert_eq!(amulet.3, Vis::HiddenThisCampaign);
    assert_eq!(amulet.1[0].0, 2);
    assert_eq!(amulet.1[0].1.gain, entry3(Some(1), Vis::Visible));
    assert_eq!(amulet.1[0].1.lose, entry3(None, Vis::HiddenForever));
    assert_eq!(stored.locations.len(), 2);
    assert_eq!(stored.locations[0].0, 1);
    assert_eq!(stored.locations[0].1 .0, "one");
    assert_eq!(stored.locations[1].0, 2);
    assert_eq!(stored.locations[1].1 .0, "");
}

#[test]
fn save_encounter_and_save_quest() {
    let mut at = QuestLocation::new();
    at.insert(EncounterType::Complete, Some(QuestId(3)), Vis::HiddenThisCampaign);
    let stored = Data::save_encounter(&at);
    assert_eq!(stored.complete, entry3(Some(3), Vis::HiddenThisCampaign));
    assert_eq!(stored.len(), 1);
    let mut quest = Quest::new();
    quest.state = QuestState::InGame;
    quest.encounter.insert(0, at);
    quest.encounter.insert(2, at);
    let stored = Data::save_quest(&quest);
    assert_eq!(stored.0, QuestState::InGame);
    assert_eq!(stored.1.len(), 1);
    assert_eq!(stored.1[0].0, 2);
    assert_eq!(stored.3, Vis::Visible);
}

#[test]
fn stored_journal_is_read_back_as_it_was() {
    let original = stored_sample();
    let stored = original.save_game_data();
    let mut loaded = Data::new(stored_catalog());
    loaded.location.insert(1, "to be forgotten".to_string());
    let mut other = Quest::new();
    other.note = "to be forgotten".to_string();
    loaded.put_quest(QuestId(3), other);
    loaded.load_game_data_3(stored);
    assert_eq!(summary(&loaded), summary(&original));
    assert_eq!(notes(&loaded), notes(&original));
    assert_eq!(
        summary(&loaded),
        vec![
            (0, QuestState::Removed, Vis::Visible, String::new(), vec![(0, vec![(1, None, Vis::Visible)]), (1, vec![(2, None, Vis::Visible)])]),
            (1, QuestState::InGame, Vis::Visible, String::new(), vec![(0, vec![(1, None, Vis::Visible)])]),
            (
                2,
                QuestState::Removed,
                Vis::HiddenThisCampaign,
                "note".to_string(),
                vec![(2, vec![(1, Some(1), Vis::Visible), (4, None, Vis::HiddenForever)])]
            )
        ]
    );
}

#[test]
fn loading_drops_unknown_numbers_and_misplaced_prerequisites() {
    let mut at: SerdeEncounter3 = EncounterMap::new();
    at.gain = entry3(Some(9), Vis::Visible);
    at.when = entry3(Some(1), Vis::HiddenForever);
    let mut known: SerdeEncounter3 = EncounterMap::new();
    known.gain = entry3(Some(3), Vis::HiddenThisCampaign);
    let stored = SerdeGameData3 {
        quests: vec![
            (2, SerdeQuest3(QuestState::InGame, vec![(1, at), (0, known), (7, known), (2, known)], "n".to_string(), Vis::Visible)),
            (4, SerdeQuest3(QuestState::InGame, vec![(1, known)], "lost".to_string(), Vis::Visible)),
            (3, SerdeQuest3(QuestState::Removed, vec![], String::new(), Vis::HiddenForever)),
        ],
        locations: vec![
            (0, SerdeLocation3("prologue".to_string())),
            (2, SerdeLocation3("first".to_string())),
            (3, SerdeLocation3("nowhere".to_string())),
            (2, SerdeLocation3("second".to_string())),
        ],
    };
    let mut data = stored_sample();
    data.load_game_data_3(stored);
    assert_eq!(
        summary(&data),
        vec![
            (0, QuestState::InGame, Vis::Visible, String::new(), vec![(0, vec![(1, None, Vis::Visible)])]),
            (1, QuestState::InGame, Vis::Visible, String::new(), vec![(0, vec![(1, None, Vis::Visible)])]),
            (
                2,
                QuestState::InGame,
                Vis::Visible,
                "n".to_string(),
                vec![
                    (1, vec![(1, None, Vis::Visible), (2, None, Vis::HiddenForever)]),
                    (2, vec![(1, Some(3), Vis::HiddenThisCampaign)])
                ]
            ),
        ]
    );
    assert_eq!(notes(&data), vec![(2, "second".to_string())]);
}

#[test]
fn stored_quest_overrides_a_built_in_quest() {
    let stored = SerdeGameData3 {
        quests: vec![(1, SerdeQuest3(QuestState::NotFound, vec![], "cottage".to_string(), Vis::HiddenForever))],
        locations: vec![],
    };
    let mut data = Data::new(stored_catalog());
    data.load_game_data_3(stored);
    assert_eq!(
        summary(&data),
        vec![
            (0, QuestState::InGame, Vis::Visible, String::new(), vec![(0, vec![(1, None, Vis::Visible)])]),
            (1, QuestState::NotFound, Vis::HiddenForever, "cottage".to_string(), vec![(0, vec![(1, None, Vis::Visible)])]),
        ]
    );
}

#[test]
fn oldest_form_is_read_with_nothing_hidden() {
    let mut at: SerdeEncounter = EncounterMap::new();
    at.gain = Some(Some(1));
    at.lose = Some(None);
    at.when = Some(Some(0));
    let stored = SerdeGameData1 {
        quests: vec![
            (2, SerdeQuest(QuestState::Removed, vec![(2, at)], "old".to_string())),
            (3, SerdeQuest(QuestState::InGame, vec![], String::new())),
        ],
        locations: vec![(1, SerdeLocation("one".to_string()))],
        game_language: "en".to_string(),
    };
    let newest = upgrade(&stored);
    assert_eq!(newest.quests.len(), 2);
    assert_eq!(newest.quests[0].1 .3, Vis::Visible);
    assert_eq!(newest.quests[0].1 .1[0].1.gain, entry3(Some(1), Vis::Visible));
    assert_eq!(newest.quests[0].1 .1[0].1.lose, entry3(None, Vis::Visible));
    assert_eq!(newest.locations[0].1 .0, "one");
    let mut data = stored_sample();
    data.load_game_data_1(stored);
    assert_eq!(
        summary(&data),
        vec![
            (0, QuestState::InGame, Vis::Visible, String::new(), vec![(0, vec![(1, None, Vis::Visible)])]),
            (1, QuestState::InGame, Vis::Visible, String::new(), vec![(0, vec![(1, None, Vis::Visible)])]),
            (
                2,
                QuestState::Removed,
                Vis::Visible,
                "old".to_string(),
                vec![(2, vec![(1, Some(1), Vis::Visible), (2, None, Vis::Visible), (4, None, Vis::Visible)])]
            ),
        ]
    );
    assert_eq!(notes(&data), vec![(1, "one".to_string())]);
}
