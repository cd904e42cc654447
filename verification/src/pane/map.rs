//! The map pane: the short form of a note.

use crate::data::quest::Quest;
use crate::data::sub_component::UpdateResults;
use crate::data::quest_location::QuestLocation;
use crate::data::vis::Vis;
use crate::game::catalog::Catalog;
use crate::game::location_id::LocationId;
use crate::game::quest_id::QuestId;
use crate::global::data::Data;
use crate::text::{char_is_whitespace, is_whitespace, str_eq, string_of};
use vstd::prelude::*;
use vstd::string::StrSliceExecFns;

verus! {

/// The most characters that the short form of a note has.
pub const MAX: usize = 50;

/// The first `n` characters of a note with a mark and a space in place of each line break.
pub open spec fn with_line_marks(s: Seq<char>, n: int) -> Seq<char>
    decreases n,
{
    if n <= 0 {
        Seq::empty()
    } else if s[n - 1] == '\n' {
        with_line_marks(s, n - 1).push('⏎').push(' ')
    } else {
        with_line_marks(s, n - 1).push(s[n - 1])
    }
}

/// A text cut back to its last white space; nothing is left where it has none.
pub open spec fn cut_at_space(cs: Seq<char>) -> Seq<char>
    decreases cs.len(),
{
    if cs.len() == 0 || char_is_whitespace(cs.last()) {
        cs
    } else {
        cut_at_space(cs.drop_last())
    }
}

/// The short form of a note: the note with line breaks marked where that has
/// at most 50 characters; else its first 48 characters, cut back to the last
/// white space among them, and an ellipsis.
pub open spec fn head_of_note(s: Seq<char>) -> Seq<char> {
    let marked = with_line_marks(s, s.len() as int);
    if marked.len() <= MAX {
        marked
    } else {
        cut_at_space(marked.subrange(0, MAX - 2)).push('…')
    }
}

pub fn note_head(s: &str) -> (r: String)
    ensures
        r@ == head_of_note(s@),
{
    let n = s.unicode_len();
    let mut cs: Vec<char> = Vec::new();
    let mut i: usize = 0;
    while i < n
        invariant
            n == s@.len(),
            i <= n,
            cs@ == with_line_marks(s@, i as int),
        decreases n - i,
    {
        let c = s.get_char(i);
        if c == '\n' {
            cs.push('⏎');
            cs.push(' ');
        } else {
            cs.push(c);
        }
        i = i + 1;
    }
    if cs.len() <= MAX {
        return string_of(&cs);
    }
    let ghost marked = cs@;
    assert(cs@ =~= marked.subrange(0, cs@.len() as int));
    while cs.len() > MAX - 2
        invariant
            MAX - 2 <= cs@.len() <= marked.len(),
            cs@ == marked.subrange(0, cs@.len() as int),
            marked.len() > MAX,
        decreases cs@.len(),
    {
        cs.pop();
        assert(cs@ =~= marked.subrange(0, cs@.len() as int));
    }
    let ghost first = cs@;
    while cs.len() > 0 && !is_whitespace(cs[cs.len() - 1])
        invariant
            cut_at_space(cs@) == cut_at_space(first),
        decreases cs@.len(),
    {
        cs.pop();
    }
    cs.push('…');
    string_of(&cs)
}

/// What the map shows of a quest at a location: the quest, the encounters
/// there, and the restriction under which it is shown.
#[derive(Clone, Copy, Debug)]
pub struct MapQuest {
    pub quest_id: QuestId,
    pub vis: Vis,
    pub location: QuestLocation,
}

/// What the map shows of a location: the quests with encounters there, and
/// whether the location has a note.
pub struct MapRow {
    pub location_id: LocationId,
    pub quests: Vec<MapQuest>,
    pub has_note: bool,
}

/// What a row of the map holds, as plain values.
pub struct MapRowView {
    pub location_id: LocationId,
    pub quests: Seq<MapQuest>,
    pub has_note: bool,
}

impl MapRow {
    pub open spec fn view(&self) -> MapRowView {
        MapRowView { location_id: self.location_id, quests: self.quests@, has_note: self.has_note }
    }
}

/// The more restrictive of two levels.
pub open spec fn more_restrictive(a: Vis, b: Vis) -> Vis {
    if a.rank() >= b.rank() {
        a
    } else {
        b
    }
}

/// What the map shows of the first `n` listed quests at a location: those
/// with encounters there, each under the least restriction among these
/// encounters or under its own restriction where that is greater.
pub open spec fn map_quests_before(d: &Data, l: u16, n: int) -> Seq<MapQuest>
    decreases n,
{
    if n <= 0 {
        Seq::empty()
    } else {
        let before = map_quests_before(d, l, n - 1);
        let q = d.listed()[n - 1];
        if d@.quest[q.0].encounter.contains_key(l) {
            before.push(
                MapQuest {
                    quest_id: q,
                    vis: more_restrictive(d@.quest[q.0].encounter[l].min_vis_spec(), d@.quest[q.0].vis),
                    location: d@.quest[q.0].encounter[l],
                },
            )
        } else {
            before
        }
    }
}

/// Whether a location is on a page.
pub open spec fn on_page(catalog: &Catalog, l: int, page: Seq<char>) -> bool {
    catalog.locations@[l].page is Some && catalog.locations@[l].page->Some_0@ == page
}

/// The row of a location.
pub open spec fn map_row_of(d: &Data, l: u16) -> MapRowView {
    MapRowView {
        location_id: LocationId(l),
        quests: map_quests_before(d, l, d.listed().len() as int),
        has_note: d@.location.contains_key(l),
    }
}

/// The rows of the locations before number `n` that are on a page.
pub open spec fn map_rows_before(d: &Data, page: Seq<char>, n: int) -> Seq<MapRowView>
    decreases n,
{
    if n <= 0 {
        Seq::empty()
    } else if on_page(&d.quest_locale.catalog, n - 1, page) {
        map_rows_before(d, page, n - 1).push(map_row_of(d, (n - 1) as u16))
    } else {
        map_rows_before(d, page, n - 1)
    }
}

fn map_quests(data: &Data, l: u16, quests: &Vec<(QuestId, &Quest, &str)>) -> (r: Vec<MapQuest>)
    requires
        data.wf(),
        quests@.len() == data.listed().len(),
        forall|j: int|
            0 <= j < quests@.len() ==> (#[trigger] quests@[j]).0 == data.listed()[j] && data.quest@.contains_key(
                quests@[j].0.0,
            ) && *quests@[j].1 == data.quest@[quests@[j].0.0],
    ensures
        r@ == map_quests_before(data, l, data.listed().len() as int),
{
    let mut r: Vec<MapQuest> = Vec::new();
    let mut i: usize = 0;
    while i < quests.len()
        invariant
            data.wf(),
            quests@.len() == data.listed().len(),
            forall|j: int|
                0 <= j < quests@.len() ==> (#[trigger] quests@[j]).0 == data.listed()[j] && data.quest@.contains_key(
                    quests@[j].0.0,
                ) && *quests@[j].1 == data.quest@[quests@[j].0.0],
            i <= quests@.len(),
            r@ == map_quests_before(data, l, i as int),
        decreases quests@.len() - i,
    {
        let quest = quests[i].1;
        assert(quest@ == data@.quest[data.listed()[i as int].0]);
        match quest.encounter.get(l) {
            Some(location) => {
                r.push(
                    MapQuest {
                        quest_id: quests[i].0,
                        vis: location.min_vis().most_restrictive(quest.vis),
                        location: *location,
                    },
                );
            },
            None => {},
        }
        i = i + 1;
    }
    r
}

/// The rows of a page of the map: one for each location on the page, in the
/// order of their numbers.
pub fn render_list(data: &Data, page: &str) -> (r: Vec<MapRow>)
    requires
        data.wf(),
    ensures
        r@.len() == map_rows_before(data, page@, data.quest_locale.catalog.location_count()).len(),
        forall|i: int|
            0 <= i < r@.len() ==> (#[trigger] r@[i])@ == map_rows_before(
                data,
                page@,
                data.quest_locale.catalog.location_count(),
            )[i],
{
    let quests = data.quest_iter();
    let mut r: Vec<MapRow> = Vec::new();
    let n = data.quest_locale.catalog.locations.len();
    let mut l: usize = 0;
    while l < n
        invariant
            data.wf(),
            n == data.quest_locale.catalog.location_count(),
            quests@.len() == data.listed().len(),
            forall|j: int|
                0 <= j < quests@.len() ==> (#[trigger] quests@[j]).0 == data.listed()[j] && data.quest@.contains_key(
                    quests@[j].0.0,
                ) && *quests@[j].1 == data.quest@[quests@[j].0.0],
            l <= n,
            r@.len() == map_rows_before(data, page@, l as int).len(),
            forall|i: int| 0 <= i < r@.len() ==> (#[trigger] r@[i])@ == map_rows_before(data, page@, l as int)[i],
        decreases n - l,
    {
        let location_id = LocationId(l as u16);
        let here = match location_id.page(&data.quest_locale.catalog) {
            Some(p) => str_eq(p, page),
            None => false,
        };
        if here {
            r.push(
                MapRow {
                    location_id,
                    quests: map_quests(data, l as u16, &quests),
                    has_note: data.location.contains_key(l as u16),
                },
            );
        }
        l = l + 1;
    }
    r
}

/// What the player asks for in the pane.
#[derive(Clone, Copy, Debug)]
pub enum MsgMap {
    Page(usize),
    ShowNote(LocationId),
}

/// The pane: the position of the map that it shows.
#[derive(Clone, Copy, Debug, PartialEq, Eq, Structural)]
pub struct PaneMap {
    pub position: usize,
}

/// The position of the pane as it is stored with the settings.
#[derive(Clone, Copy, Debug, PartialEq, Eq, Structural)]
pub struct PaneMapSer {
    pub position: usize,
}

/// What handling a message makes of the pane, and what it reports: a
/// position at which the map shows pages is taken over, and asks for the pane
/// to be drawn again and the settings to be stored; all else changes nothing.
pub open spec fn map_updated(
    pane: PaneMap,
    catalog: &Catalog,
    msg: MsgMap,
    pane_after: PaneMap,
    r: UpdateResults,
) -> bool {
    match msg {
        MsgMap::Page(position) => if catalog.shows_pages(position as int) {
            pane_after.position == position && r == (UpdateResults {
                render: true,
                save_game_data: false,
                save_settings: true,
            })
        } else {
            pane_after == pane && r == (UpdateResults { render: false, save_game_data: false, save_settings: false })
        },
        MsgMap::ShowNote(_) => pane_after == pane && r == (UpdateResults {
            render: false,
            save_game_data: false,
            save_settings: false,
        }),
    }
}

impl PaneMap {
    /// The invariant: the map shows pages at the position of the pane.
    pub open spec fn wf(&self, catalog: &Catalog) -> bool {
        catalog.shows_pages(self.position as int)
    }

    /// The pane as it starts.
    pub fn create(catalog: &Catalog) -> (r: Self)
        ensures
            r.position == catalog.map_default_position,
    {
        PaneMap { position: catalog.map_default_position }
    }

    pub fn reset_to_new(&mut self, catalog: &Catalog)
        ensures
            final(self).position == catalog.map_default_position,
    {
        self.position = catalog.map_default_position;
    }

    /// Handles a message.
    pub fn update(&mut self, catalog: &Catalog, msg: MsgMap) -> (r: UpdateResults)
        ensures
            map_updated(*old(self), catalog, msg, *final(self), r),
            old(self).wf(catalog) ==> final(self).wf(catalog),
    {
        match msg {
            MsgMap::Page(position) => {
                if catalog.is_map_position(position) {
                    self.position = position;
                    UpdateResults::render().union(UpdateResults::save_settings())
                } else {
                    UpdateResults::empty()
                }
            },
            MsgMap::ShowNote(_) => UpdateResults::empty(),
        }
    }

    /// The two pages that the pane shows.
    pub fn pages<'a>(&self, catalog: &'a Catalog) -> (r: (&'a str, &'a str))
        requires
            self.wf(catalog),
        ensures
            r.0@ == catalog.map@[self.position as int]->Some_0.0@,
            r.1@ == catalog.map@[self.position as int]->Some_0.1@,
    {
        match &catalog.map[self.position] {
            Some(pages) => (pages.0.as_str(), pages.1.as_str()),
            None => ("", ""),
        }
    }

    pub fn save(&self) -> (r: PaneMapSer)
        ensures
            r.position == self.position,
    {
        PaneMapSer { position: self.position }
    }

    /// Takes a stored position over if the map shows pages there, and else
    /// the position that the map starts at.
    pub fn load(&mut self, stored: PaneMapSer, catalog: &Catalog)
        requires
            catalog.wf(),
        ensures
            final(self).wf(catalog),
            final(self).position == (if catalog.shows_pages(stored.position as int) {
                stored.position
            } else {
                catalog.map_default_position
            }),
    {
        if catalog.is_map_position(stored.position) {
            self.position = stored.position;
        } else {
            self.position = catalog.map_default_position;
        }
    }
}

} // verus!
