use sleeping_journal::data::encounter_type::EncounterType;
use sleeping_journal::data::quest::{Quest, QuestState, QuestViewMode};
use sleeping_journal::data::quest_location::QuestLocation;
use sleeping_journal::data::vis::Vis;
use sleeping_journal::game::catalog::{Catalog, Language, Location};
use sleeping_journal::game::location_id::LocationId;
use sleeping_journal::game::msg::MsgKey;
use sleeping_journal::game::quest_id::QuestId;
use sleeping_journal::global::data::Data;
use sleeping_journal::pane::action::{ActionEntry, PaneAction};
use sleeping_journal::pane::map::render_list;
use sleeping_journal::pane::map_new_quest::{Page, PaneMapNewQuest};

fn view_catalog() -> Catalog {
    Catalog {
        languages: vec![Language {
            name: "English".to_string(),
            prologue: "Prologue".to_string(),
            quests: vec![
                "Raid".to_string(),
                "Cottage".to_string(),
                "Amulet".to_string(),
                "Bridge".to_string(),
            ],
        }],
        locations: vec![
            Location { name: None, page: None },
            Location { name: Some("2".to_string()), page: Some("3".to_string()) },
            Location { name: Some("5".to_string()), page: Some("3".to_string()) },
            Location { name: Some("9".to_string()), page: Some("4".to_string()) },
        ],
        keywords: vec![false, false, true, false],
        map: vec![None, Some(("3".to_string(), "4".to_string())), Some(("7".to_string(), String::new()))],
        map_default_position: 1,
    }
}

fn add(mut quest: Quest, l: u16, t: EncounterType, prerequisite: Option<QuestId>, vis: Vis) -> Quest {
    let mut at = match quest.encounter.get(l) {
        Some(at) => *at,
        None => QuestLocation::new(),
    };
    at.insert(t, prerequisite, vis);
    quest.encounter.insert(l, at);
    quest
}

fn view_data() -> Data {
    let mut data = Data::new(view_catalog());
    let amulet = add(Quest::new(), 1, EncounterType::Gain, Some(QuestId(0)), Vis::Visible);
    let amulet = add(amulet, 1, EncounterType::Unless, Some(QuestId(3)), Vis::HiddenThisCampaign);
    let amulet = add(amulet, 2, EncounterType::Complete, None, Vis::HiddenForever);
    let amulet = add(amulet, 3, EncounterType::When, None, Vis::Visible);
    data.put_quest(QuestId(2), amulet);
    let mut bridge = add(Quest::new(), 1, EncounterType::Lose, None, Vis::HiddenThisCampaign);
    bridge = add(bridge, 1, EncounterType::Complete, None, Vis::HiddenForever);
    bridge.state = QuestState::Removed;
    bridge.vis = Vis::HiddenThisCampaign;
    data.put_quest(QuestId(3), bridge);
    data.location.insert(2, String::new());
    data
}

#[test]
fn restriction_of_a_location() {
    let mut at = QuestLocation::new();
    assert_eq!(at.min_vis(), Vis::Visible);
    assert_eq!(at.max_vis(), Vis::Visible);
    at.insert(EncounterType::Lose, None, Vis::HiddenForever);
    assert_eq!(at.min_vis(), Vis::HiddenForever);
    assert_eq!(at.max_vis(), Vis::HiddenForever);
    assert!(at.contains_vis(Vis::HiddenForever));
    assert!(!at.contains_vis(Vis::Visible));
    at.insert(EncounterType::Gain, None, Vis::HiddenThisCampaign);
    assert_eq!(at.min_vis(), Vis::HiddenThisCampaign);
    assert_eq!(at.max_vis(), Vis::HiddenForever);
    at.insert(EncounterType::When, None, Vis::Visible);
    assert_eq!(at.min_vis(), Vis::Visible);
    assert_eq!(at.max_vis(), Vis::HiddenForever);
    at.remove(EncounterType::Lose);
    assert_eq!(at.max_vis(), Vis::HiddenThisCampaign);
}

#[test]
fn restriction_of_a_quest() {
    let data = view_data();
    assert_eq!(data.quest.get(0).unwrap().max_vis(), Vis::Visible);
    assert_eq!(data.quest.get(2).unwrap().max_vis(), Vis::HiddenForever);
    let mut quest = add(Quest::new(), 1, EncounterType::Gain, None, Vis::Visible);
    assert_eq!(quest.max_vis(), Vis::Visible);
    quest.vis = Vis::HiddenThisCampaign;
    assert_eq!(quest.max_vis(), Vis::HiddenThisCampaign);
    let quest = add(quest, 2, EncounterType::Gain, None, Vis::HiddenForever);
    assert_eq!(quest.max_vis(), Vis::HiddenForever);
}

#[test]
fn messages_of_levels() {
    assert_eq!(Vis::Visible.text(), MsgKey::VisVisible);
    assert_eq!(Vis::HiddenThisCampaign.text(), MsgKey::VisHiddenThisCampaign);
    assert_eq!(Vis::HiddenForever.text(), MsgKey::VisHiddenForever);
}

#[test]
fn hints_of_the_todo_list() {
    let data = view_data();
    let amulet = data.quest.get(2).unwrap();
    let hints = amulet.hints(&data, QuestViewMode::Todo).unwrap();
    // the hidden encounter at location 2 leaves no hint
    assert_eq!(hints.len(), 2);
    assert_eq!(hints[0].location_id, LocationId(1));
    assert_eq!(hints[0].active.get(EncounterType::Gain), Some(false));
    assert_eq!(hints[0].active.get(EncounterType::Unless), None);
    assert!(hints[0].outline);
    assert_eq!(hints[0].vis, Vis::Visible);
    // the hidden encounter comes first in the order of the types and is not open
    assert_eq!(hints[0].prerequisite, Some(QuestId(3)));
    assert!(!hints[0].disabled);
    assert_eq!(hints[1].location_id, LocationId(3));
    assert_eq!(hints[1].active.get(EncounterType::When), Some(false));
    assert_eq!(hints[1].prerequisite, None);
    // a hidden quest is not on the to-do list
    assert!(data.quest.get(3).unwrap().hints(&data, QuestViewMode::Todo).is_none());
    // a quest without hints is on the to-do list, without hints
    let bare = Quest::new();
    assert_eq!(bare.hints(&data, QuestViewMode::Todo).map(|h| h.len()), Some(0));
    // the built-in quests have a hint at the prologue that cannot be followed
    let raid = data.quest.get(0).unwrap().hints(&data, QuestViewMode::Todo).unwrap();
    assert_eq!(raid.len(), 1);
    assert!(raid[0].disabled);
    assert!(raid[0].outline);
}

#[test]
fn hints_of_a_location() {
    let data = view_data();
    let amulet = data.quest.get(2).unwrap();
    let hints = amulet.hints(&data, QuestViewMode::Location(LocationId(1))).unwrap();
    assert_eq!(hints.len(), 1);
    assert_eq!(hints[0].location_id, LocationId(1));
    // on the map the hidden encounter is listed too, and it is open
    assert_eq!(hints[0].active.get(EncounterType::Unless), Some(true));
    assert_eq!(hints[0].active.get(EncounterType::Gain), Some(false));
    assert!(!hints[0].outline);
    assert_eq!(hints[0].prerequisite, Some(QuestId(0)));
    let hidden = amulet.hints(&data, QuestViewMode::Location(LocationId(2))).unwrap();
    assert_eq!(hidden[0].vis, Vis::HiddenForever);
    assert!(amulet.hints(&data, QuestViewMode::Location(LocationId(0))).is_none());
    // a hidden quest is on the map
    let bridge = data.quest.get(3).unwrap().hints(&data, QuestViewMode::Location(LocationId(1))).unwrap();
    assert_eq!(bridge.len(), 1);
    assert_eq!(bridge[0].vis, Vis::HiddenThisCampaign);
    assert!(bridge[0].outline);
}

#[test]
fn hint_names_the_prerequisite_of_a_closed_encounter_only() {
    let mut data = view_data();
    let mut raid = data.take_quest(QuestId(0)).unwrap();
    raid.state = QuestState::Removed;
    data.put_quest(QuestId(0), raid);
    let amulet = add(Quest::new(), 1, EncounterType::Gain, Some(QuestId(0)), Vis::Visible);
    let hints = amulet.hints(&data, QuestViewMode::Todo).unwrap();
    assert_eq!(hints[0].active.get(EncounterType::Gain), Some(true));
    assert_eq!(hints[0].prerequisite, None);
    assert!(!hints[0].outline);
}

#[test]
fn entries_of_the_action_pane() {
    let data = view_data();
    let mut pane = PaneAction { quest_id: QuestId(2), location_id: LocationId(1), is_map: false };
    assert_eq!(
        pane.entries(&data),
        vec![ActionEntry {
            encounter_type: EncounterType::Gain,
            vis: Vis::Visible,
            active: false,
            message: Some(MsgKey::ActiGainQuestNoPre)
        }]
    );
    pane.is_map = true;
    assert_eq!(
        pane.entries(&data),
        vec![
            ActionEntry { encounter_type: EncounterType::Unless, vis: Vis::HiddenThisCampaign, active: true, message: None },
            ActionEntry {
                encounter_type: EncounterType::Gain,
                vis: Vis::Visible,
                active: false,
                message: Some(MsgKey::ActiGainQuestNoPre)
            }
        ]
    );
    pane.location_id = LocationId(0);
    assert_eq!(pane.entries(&data), vec![]);
    // the encounters of a hidden quest are listed on the map only
    let mut pane = PaneAction { quest_id: QuestId(3), location_id: LocationId(1), is_map: false };
    assert_eq!(pane.entries(&data), vec![]);
    pane.is_map = true;
    assert_eq!(
        pane.entries(&data),
        vec![
            ActionEntry {
                encounter_type: EncounterType::Complete,
                vis: Vis::HiddenForever,
                active: false,
                message: Some(MsgKey::ActiCompleteQuestNo)
            },
            ActionEntry {
                encounter_type: EncounterType::Lose,
                vis: Vis::HiddenThisCampaign,
                active: false,
                message: Some(MsgKey::ActiLoseQuestNo)
            }
        ]
    );
}

#[test]
fn quests_and_prerequisites_of_a_new_encounter() {
    let data = view_data();
    let mut pane = PaneMapNewQuest {
        page: Page::SelectQuest,
        location_id: LocationId(1),
        encounter_type: EncounterType::Gain,
        quest_id: QuestId(2),
        prerequisite: None,
    };
    // in the order of the names; the built-in quests are in the game, the bridge is over
    assert_eq!(pane.quests(&data), vec![QuestId(2)]);
    assert_eq!(pane.prerequisites(&data), vec![QuestId(3)]);
    pane.location_id = LocationId(2);
    assert_eq!(pane.prerequisites(&data), vec![]);
    pane.location_id = LocationId(1);
    pane.encounter_type = EncounterType::Complete;
    assert_eq!(pane.quests(&data), vec![QuestId(1), QuestId(0)]);
    assert_eq!(pane.prerequisites(&data), vec![]);
    pane.encounter_type = EncounterType::When;
    assert_eq!(pane.quests(&data), vec![QuestId(2), QuestId(3), QuestId(1), QuestId(0)]);
}

#[test]
fn rows_of_a_page_of_the_map() {
    let data = view_data();
    let rows = render_list(&data, "3");
    assert_eq!(rows.len(), 2);
    assert_eq!(rows[0].location_id, LocationId(1));
    assert!(!rows[0].has_note);
    let shown: Vec<(QuestId, Vis, usize)> = rows[0].quests.iter().map(|q| (q.quest_id, q.vis, q.location.len())).collect();
    // the amulet has a visible encounter there; the bridge is hidden for the campaign itself
    assert_eq!(shown, vec![(QuestId(2), Vis::Visible, 2), (QuestId(3), Vis::HiddenThisCampaign, 2)]);
    assert_eq!(rows[1].location_id, LocationId(2));
    assert!(rows[1].has_note);
    let shown: Vec<(QuestId, Vis)> = rows[1].quests.iter().map(|q| (q.quest_id, q.vis)).collect();
    assert_eq!(shown, vec![(QuestId(2), Vis::HiddenForever)]);
    assert_eq!(render_list(&data, "4").len(), 1);
    assert_eq!(render_list(&data, "5").len(), 0);
}
