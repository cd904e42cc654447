//! The settings pane: starting a new campaign, clearing the journal, choosing the language.

use crate::data::encounter_map::EncounterMap;
use crate::data::encounter_type::EncounterType;
use crate::data::quest::{Quest, QuestState, QuestView};
use crate::data::quest_location::{QuestLocation, QuestLocationEncounter};
use crate::data::vis::Vis;
use crate::global::data::{fits, location_fits, quest_fits, Data, DataView, Effect};
use crate::data::sub_component::UpdateResults;
use crate::id_map::IdMap;
use crate::url::{base64_encode, base64_of};
use vstd::string::StringExecFns;
use crate::ser::csv::{checked, diagnostics, imported_rows, without_bom, MyError};
use crate::ser::csv_io::csv_rows;
use crate::global::data::cleaned;
use vstd::prelude::*;

verus! {

/// An encounter after the campaign ended.
pub open spec fn campaign_entry(e: Option<QuestLocationEncounter>) -> Option<QuestLocationEncounter> {
    match e {
        Some(e) => Some(QuestLocationEncounter { vis: e.vis.after_campaign(), ..e }),
        None => None,
    }
}

/// The encounters at a location after the campaign ended.
pub open spec fn campaign_location(l: QuestLocation) -> QuestLocation {
    EncounterMap {
        unless: campaign_entry(l.unless),
        gain: campaign_entry(l.gain),
        when: campaign_entry(l.when),
        complete: campaign_entry(l.complete),
        lose: campaign_entry(l.lose),
    }
}

/// A quest at the start of a new campaign: the built-in ones are in the game,
/// the others not found, and nothing is hidden for the campaign any more.
pub open spec fn campaign_quest(k: u16, q: QuestView) -> QuestView {
    QuestView {
        state: if k == 0 || k == 1 {
            QuestState::InGame
        } else {
            QuestState::NotFound
        },
        encounter: Map::new(|l: u16| q.encounter.contains_key(l), |l: u16| campaign_location(q.encounter[l])),
        vis: q.vis.after_campaign(),
        note: q.note,
    }
}

/// The journal at the start of a new campaign.
pub open spec fn new_campaign_of(d: DataView) -> DataView {
    DataView {
        quest: Map::new(|k: u16| d.quest.contains_key(k), |k: u16| campaign_quest(k, d.quest[k])),
        location: d.location,
    }
}

fn vis_after_campaign(vis: Vis) -> (r: Vis)
    ensures
        r == vis.after_campaign(),
{
    if vis == Vis::HiddenThisCampaign {
        Vis::Visible
    } else {
        vis
    }
}

fn entry_after_campaign(e: Option<QuestLocationEncounter>) -> (r: Option<QuestLocationEncounter>)
    ensures
        r == campaign_entry(e),
{
    match e {
        Some(e) => Some(QuestLocationEncounter { prerequisite: e.prerequisite, vis: vis_after_campaign(e.vis) }),
        None => None,
    }
}

fn location_after_campaign(l: QuestLocation) -> (r: QuestLocation)
    ensures
        r == campaign_location(l),
{
    EncounterMap {
        unless: entry_after_campaign(l.unless),
        gain: entry_after_campaign(l.gain),
        when: entry_after_campaign(l.when),
        complete: entry_after_campaign(l.complete),
        lose: entry_after_campaign(l.lose),
    }
}

fn encounters_after_campaign(encounter: &mut IdMap<QuestLocation>)
    requires
        old(encounter).wf(),
    ensures
        final(encounter).wf(),
        final(encounter)@ == Map::new(
            |l: u16| old(encounter)@.contains_key(l),
            |l: u16| campaign_location(old(encounter)@[l]),
        ),
{
    let n = encounter.len();
    let ghost start = encounter.seq();
    let mut i: usize = 0;
    while i < n
        invariant
            old(encounter).wf(),
            start == old(encounter).seq(),
            encounter.wf(),
            n == start.len(),
            encounter.seq().len() == n,
            i <= n,
            forall|j: int| 0 <= j < n ==> (#[trigger] encounter.seq()[j]).0 == start[j].0,
            forall|j: int| 0 <= j < i ==> (#[trigger] encounter.seq()[j]).1 == campaign_location(start[j].1),
            forall|j: int| i <= j < n ==> (#[trigger] encounter.seq()[j]).1 == start[j].1,
        decreases n - i,
    {
        let l = *encounter.value_at(i);
        encounter.replace_at(i, location_after_campaign(l));
        i = i + 1;
    }
    proof {
        old(encounter).lemma_entries();
        encounter.lemma_entries();
        let want = Map::new(|l: u16| old(encounter)@.contains_key(l), |l: u16| campaign_location(old(encounter)@[l]));
        assert forall|l: u16| #[trigger] encounter@.contains_key(l) <==> want.contains_key(l) by {
            if encounter@.contains_key(l) {
                let j = choose|j: int| 0 <= j < n && #[trigger] encounter.seq()[j].0 == l;
                assert(start[j].0 == l);
            }
            if old(encounter)@.contains_key(l) {
                let j = choose|j: int| 0 <= j < n && #[trigger] start[j].0 == l;
                assert(encounter.seq()[j].0 == l);
            }
        }
        assert forall|l: u16| #[trigger] encounter@.contains_key(l) implies encounter@[l] == want[l] by {
            let j = choose|j: int| 0 <= j < n && #[trigger] encounter.seq()[j].0 == l;
            assert(start[j].0 == l);
            assert(encounter.seq()[j].1 == campaign_location(start[j].1));
        }
        assert(encounter@ =~= want);
    }
}

/// Starting a new campaign keeps every identifier within the catalog.
pub proof fn lemma_campaign_quest_fits(k: u16, q: QuestView, catalog: &crate::game::catalog::Catalog)
    requires
        quest_fits(q, catalog),
    ensures
        quest_fits(campaign_quest(k, q), catalog),
{
    let c = campaign_quest(k, q);
    assert forall|l: u16| #[trigger] c.encounter.contains_key(l) implies (l as int) < catalog.location_count()
        && location_fits(c.encounter[l], catalog) by {
        assert(q.encounter.contains_key(l));
        let a = q.encounter[l];
        assert(location_fits(a, catalog));
        assert forall|key: EncounterType|
            (#[trigger] c.encounter[l].slot(key)) is Some && c.encounter[l].slot(key)->Some_0.prerequisite is Some
            implies c.encounter[l].slot(key)->Some_0.prerequisite->Some_0.known(catalog) by {
            assert(a.slot(key) is Some);
        }
    }
}

/// Starts a new campaign: every quest but the built-in ones is not found
/// again, the built-in ones are in the game, and what was hidden for the
/// campaign shows again. Asks for the panes to be set back and the journal to
/// be stored.
pub fn new_campaign(data: &mut Data)
    requires
        old(data).wf(),
    ensures
        final(data).wf(),
        final(data)@ == new_campaign_of(old(data)@),
        final(data).quest_locale == old(data).quest_locale,
        final(data).chain_msg@ == old(data).chain_msg@.push(Effect::ResetToNew),
{
    let n = data.quest.len();
    let ghost start = data.quest.seq();
    let mut i: usize = 0;
    while i < n
        invariant
            old(data).wf(),
            start == old(data).quest.seq(),
            data.quest.wf(),
            data.location == old(data).location,
            data.quest_locale == old(data).quest_locale,
            data.chain_msg == old(data).chain_msg,
            n == start.len(),
            data.quest.seq().len() == n,
            i <= n,
            forall|j: int| 0 <= j < n ==> (#[trigger] data.quest.seq()[j]).0 == start[j].0,
            forall|j: int|
                0 <= j < i ==> (#[trigger] data.quest.seq()[j]).1@ == campaign_quest(start[j].0, start[j].1@)
                    && data.quest.seq()[j].1.wf(),
            forall|j: int| i <= j < n ==> (#[trigger] data.quest.seq()[j]).1 == start[j].1,
        decreases n - i,
    {
        let k = data.quest.key_at(i);
        let mut quest = data.quest.replace_at(i, Quest::new());
        proof {
            old(data).quest.lemma_entries();
            assert(old(data).quest@.contains_key(start[i as int].0));
            assert(quest.wf());
        }
        let ghost before = quest@;
        if k == 0 || k == 1 {
            quest.state = QuestState::InGame;
        } else {
            quest.state = QuestState::NotFound;
        }
        quest.vis = vis_after_campaign(quest.vis);
        encounters_after_campaign(&mut quest.encounter);
        assert(quest@.encounter =~= campaign_quest(k, before).encounter);
        data.quest.replace_at(i, quest);
        i = i + 1;
    }
    data.chain_msg.push(Effect::ResetToNew);
    proof {
        let catalog = &data.quest_locale.catalog;
        old(data).quest.lemma_entries();
        data.quest.lemma_entries();
        let want = new_campaign_of(old(data)@);
        assert forall|k: u16| #[trigger] data.quest@.contains_key(k) <==> old(data).quest@.contains_key(k) by {
            if data.quest@.contains_key(k) {
                let j = choose|j: int| 0 <= j < n && #[trigger] data.quest.seq()[j].0 == k;
                assert(start[j].0 == k);
            }
            if old(data).quest@.contains_key(k) {
                let j = choose|j: int| 0 <= j < n && #[trigger] start[j].0 == k;
                assert(data.quest.seq()[j].0 == k);
            }
        }
        assert forall|k: u16| #[trigger] data.quest@.contains_key(k) implies data.quest@[k]@ == campaign_quest(
            k,
            old(data).quest@[k]@,
        ) && data.quest@[k].wf() by {
            let j = choose|j: int| 0 <= j < n && #[trigger] data.quest.seq()[j].0 == k;
            assert(start[j].0 == k);
            assert(data.quest.seq()[j].1@ == campaign_quest(start[j].0, start[j].1@));
        }
        assert(data@.quest =~= want.quest);
        assert(data@.location =~= want.location);
        assert forall|k: u16| #[trigger] data@.quest.contains_key(k) implies (k as int) < catalog.quest_count()
            && quest_fits(data@.quest[k], catalog) by {
            assert(old(data)@.quest.contains_key(k));
            lemma_campaign_quest_fits(k, old(data)@.quest[k], catalog);
        }
        assert(fits(data@, catalog));
    }
}

/// Clears the journal down to the built-in quests. Asks for the panes to be
/// set back and the journal to be stored.
pub fn clear_all(data: &mut Data)
    requires
        old(data).quest_locale.wf(),
    ensures
        final(data).wf(),
        final(data)@ == crate::global::data::fresh(),
        final(data).quest_locale == old(data).quest_locale,
        final(data).chain_msg@ == old(data).chain_msg@.push(Effect::ResetToNew),
{
    data.reset();
    data.chain_msg.push(Effect::ResetToNew);
}

/// After a new campaign no quest but a built-in one is found, the built-in
/// ones are in the game, nothing is hidden for the campaign, and what was
/// hidden for ever still is.
pub proof fn lemma_new_campaign(d: DataView, k: u16)
    requires
        d.quest.contains_key(k),
    ensures
        new_campaign_of(d).quest.contains_key(k),
        new_campaign_of(d).quest[k].state == (if k == 0 || k == 1 {
            QuestState::InGame
        } else {
            QuestState::NotFound
        }),
        new_campaign_of(d).quest[k].vis != Vis::HiddenThisCampaign,
        d.quest[k].vis == Vis::HiddenForever <==> new_campaign_of(d).quest[k].vis == Vis::HiddenForever,
        new_campaign_of(d).quest[k].note == d.quest[k].note,
        forall|l: u16, key: EncounterType|
            d.quest[k].encounter.contains_key(l) && (#[trigger] d.quest[k].encounter[l].slot(key)) is Some ==> {
                let before = d.quest[k].encounter[l].slot(key)->Some_0;
                let after = new_campaign_of(d).quest[k].encounter[l].slot(key);
                &&& after is Some
                &&& after->Some_0.prerequisite == before.prerequisite
                &&& after->Some_0.vis == before.vis.after_campaign()
            },
{
}

/// What the player asks for in the pane, as far as the journal is concerned.
pub enum MsgSettings {
    GameLanguage(String),
    LoadFinished(Vec<u8>),
    CloseAlert,
    DarkMode(bool),
    NewCampaign,
    Clear,
}

/// What the pane tells the player about a file that was read.
pub enum Alert {
    RowsSkipped(String),
    Refused(MyError),
}

impl Alert {
    /// Whether the alert speaks of a failure.
    pub fn is_danger(&self) -> (r: bool)
        ensures
            r == (*self is Refused),
    {
        match self {
            Alert::RowsSkipped(_) => false,
            Alert::Refused(_) => true,
        }
    }

    /// The words of the alert.
    pub fn text(&self) -> (r: &'static str)
        ensures
            r@ == (match *self {
                Alert::RowsSkipped(_) => "The following rows have errors and are skipped:"@,
                Alert::Refused(MyError::CsvError) => "CsvError"@,
                Alert::Refused(MyError::Header) => "Header"@,
                Alert::Refused(MyError::Language) => "Language"@,
            }),
    {
        match self {
            Alert::RowsSkipped(_) => "The following rows have errors and are skipped:",
            Alert::Refused(MyError::CsvError) => "CsvError",
            Alert::Refused(MyError::Header) => "Header",
            Alert::Refused(MyError::Language) => "Language",
        }
    }
}

/// The pane: the alert that it shows, and whether the site is dark.
pub struct PaneSettings {
    pub alert: Option<Alert>,
    pub dark_mode: bool,
}

/// The choice of the pane as it is stored with the settings.
#[derive(Clone, Copy, Debug, PartialEq, Eq, Structural)]
pub struct PaneSettingsSer {
    pub dark_mode: bool,
}

/// What handling a message makes of the pane and the journal, and what it reports.
pub open spec fn settings_updated(
    pane: PaneSettings,
    before: Data,
    msg: MsgSettings,
    pane_after: PaneSettings,
    after: Data,
    r: UpdateResults,
) -> bool {
    &&& after.wf()
    &&& after.quest_locale.catalog == before.quest_locale.catalog
    &&& match msg {
        MsgSettings::GameLanguage(code) => after@ == before@ && after.chain_msg == before.chain_msg && after.quest_locale.language == (match before.quest_locale.catalog.language_of_code(code@) {
            Some(l) => l,
            None => before.quest_locale.language,
        }) && pane_after.dark_mode == pane.dark_mode && pane_after.alert == pane.alert && r
            == (UpdateResults { render: true, save_game_data: true, save_settings: false }),
        MsgSettings::LoadFinished(file) => after.chain_msg@ == before.chain_msg@.push(
            Effect::ResetToNew,
        ) && pane_after.dark_mode == pane.dark_mode && (match checked(
            csv_rows(without_bom(file@)),
            &before.quest_locale.catalog,
        ) {
            Ok((language, rows)) => after@ == cleaned(
                imported_rows(&before.quest_locale.catalog, language, rows, rows.len() as int),
            ) && after.quest_locale.language == language && (if diagnostics(
                &before.quest_locale.catalog,
                language,
                rows,
                rows.len() as int,
            ).len() == 0 {
                pane_after.alert == pane.alert
            } else {
                pane_after.alert matches Some(Alert::RowsSkipped(report)) && report@ == diagnostics(
                    &before.quest_locale.catalog,
                    language,
                    rows,
                    rows.len() as int,
                )
            }),
            Err(e) => after@ == before@ && after.quest_locale == before.quest_locale
                && pane_after.alert == Some(Alert::Refused(e)),
        }) && r == (UpdateResults { render: false, save_game_data: true, save_settings: false }),
        MsgSettings::CloseAlert => after@ == before@ && after.quest_locale == before.quest_locale && after.chain_msg == before.chain_msg && pane_after.alert is None
            && pane_after.dark_mode == pane.dark_mode && r == (UpdateResults {
            render: false,
            save_game_data: false,
            save_settings: false,
        }),
        MsgSettings::DarkMode(dark_mode) => after@ == before@ && after.quest_locale == before.quest_locale && after.chain_msg == before.chain_msg && pane_after.alert == pane.alert && pane_after.dark_mode == dark_mode && r == (UpdateResults {
            render: false,
            save_game_data: false,
            save_settings: true,
        }),
        MsgSettings::NewCampaign => after@ == new_campaign_of(before@) && after.quest_locale
            == before.quest_locale && after.chain_msg@ == before.chain_msg@.push(
            Effect::ResetToNew,
        ) && pane_after.alert == pane.alert && pane_after.dark_mode == pane.dark_mode && r
            == (UpdateResults { render: false, save_game_data: true, save_settings: false }),
        MsgSettings::Clear => after@ == crate::global::data::fresh() && after.quest_locale
            == before.quest_locale && after.chain_msg@ == before.chain_msg@.push(
            Effect::ResetToNew,
        ) && pane_after.alert == pane.alert && pane_after.dark_mode == pane.dark_mode && r
            == (UpdateResults { render: false, save_game_data: true, save_settings: false }),
    }
}

impl PaneSettings {
    /// The pane as it starts.
    pub fn create() -> (r: Self)
        ensures
            r.alert is None,
            !r.dark_mode,
    {
        PaneSettings { alert: None, dark_mode: false }
    }

    /// Handles a message.
    ///
    /// A language is chosen if the catalog knows its code. A file that was
    /// read is taken into the journal; rows in error and a refusal are put
    /// into the alert, and the panes are asked to be set back. A new campaign
    /// and clearing change the journal as their own functions say.
    pub fn update(&mut self, data: &mut Data, msg: MsgSettings) -> (r: UpdateResults)
        requires
            old(data).wf(),
        ensures
            settings_updated(*old(self), *old(data), msg, *final(self), *final(data), r),
    {
        match msg {
            MsgSettings::GameLanguage(code) => {
                match data.quest_locale.catalog.try_language(code.as_str()) {
                    Some(language) => {
                        data.quest_locale.set_language(language);
                    },
                    None => {},
                }
                UpdateResults::render().union(UpdateResults::save_game_data())
            },
            MsgSettings::LoadFinished(file) => {
                match data.load_csv(file.as_slice()) {
                    Ok(report) => {
                        if !report.as_str().is_empty() {
                            self.alert = Some(Alert::RowsSkipped(report));
                        }
                    },
                    Err(e) => {
                        self.alert = Some(Alert::Refused(e));
                    },
                }
                data.chain_msg.push(Effect::ResetToNew);
                UpdateResults::save_game_data()
            },
            MsgSettings::CloseAlert => {
                self.alert = None;
                UpdateResults::empty()
            },
            MsgSettings::DarkMode(dark_mode) => {
                self.dark_mode = dark_mode;
                UpdateResults::save_settings()
            },
            MsgSettings::NewCampaign => {
                new_campaign(data);
                UpdateResults::save_game_data()
            },
            MsgSettings::Clear => {
                clear_all(data);
                UpdateResults::save_game_data()
            },
        }
    }

    pub fn save(&self) -> (r: PaneSettingsSer)
        ensures
            r.dark_mode == self.dark_mode,
    {
        PaneSettingsSer { dark_mode: self.dark_mode }
    }

    pub fn load(&mut self, stored: PaneSettingsSer)
        ensures
            final(self).dark_mode == stored.dark_mode,
            final(self).alert == old(self).alert,
    {
        self.dark_mode = stored.dark_mode;
    }
}

/// The address under which a file is handed to the player: a data address
/// that says what the file is and holds its bytes in base 64.
pub open spec fn data_url_of(csv: Seq<u8>) -> Seq<char> {
    "data:text/csv;charset=UTF-8;base64,"@ + base64_of(csv)
}

/// The address under which a written journal is handed to the player.
pub fn data_url(csv: &Vec<u8>) -> (r: String)
    ensures
        r@ == data_url_of(csv@),
{
    let mut file = "data:text/csv;charset=UTF-8;base64,".to_owned();
    file.append(base64_encode(csv.as_slice()).as_str());
    file
}

} // verus!
