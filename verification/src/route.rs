//! Where the site can be: the panes, some of them turned to a quest or a location.

use crate::game::catalog::Catalog;
use crate::game::location_id::location_of_name;
use crate::game::quest_locale::quest_of_name;
use crate::global::data::Data;
use crate::text::{str_eq, string_of};
use crate::url::{url_decode, url_decoded, url_encode, url_encoded};
use vstd::string::{StrSliceExecFns, StringExecFns};
use crate::game::location_id::LocationId;
use crate::game::quest_id::QuestId;
use vstd::prelude::*;

verus! {

/// A place of the site.
#[derive(Clone, Copy, Debug, PartialEq, Eq, Structural)]
pub enum Route {
    Info,
    Todo,
    TodoAction(QuestId, LocationId),
    MapOverview,
    MapLocation(LocationId),
    MapAction(LocationId, QuestId),
    MapNewQuest(LocationId),
    Edit,
    EditQuest(QuestId),
    Settings,
}

impl Route {
    /// Whether every identifier in the route is one of the catalog.
    pub open spec fn fits(self, catalog: &Catalog) -> bool {
        match self {
            Route::TodoAction(q, l) => q.known(catalog) && l.known(catalog),
            Route::MapLocation(l) => l.known(catalog),
            Route::MapAction(l, q) => q.known(catalog) && l.known(catalog),
            Route::MapNewQuest(l) => l.known(catalog),
            Route::EditQuest(q) => q.known(catalog),
            _ => true,
        }
    }

    /// Whether the route belongs to the map rather than to the to-do list;
    /// `None` where it belongs to neither.
    pub open spec fn on_map(self) -> Option<bool> {
        match self {
            Route::Todo | Route::TodoAction(_, _) => Some(false),
            Route::MapOverview | Route::MapLocation(_) | Route::MapAction(_, _) | Route::MapNewQuest(_) => Some(true),
            Route::Info | Route::Edit | Route::EditQuest(_) | Route::Settings => None,
        }
    }

    /// Whether the route belongs to the map rather than to the to-do list.
    pub fn is_map(&self) -> (r: Option<bool>)
        ensures
            r == self.on_map(),
    {
        match self {
            Route::Todo | Route::TodoAction(_, _) => Some(false),
            Route::MapOverview | Route::MapLocation(_) | Route::MapAction(_, _) | Route::MapNewQuest(_) => Some(true),
            Route::Info | Route::Edit | Route::EditQuest(_) | Route::Settings => None,
        }
    }
}

/// The name of a quest in the language of the journal, percent-encoded.
pub open spec fn quest_segment(d: &Data, q: QuestId) -> Seq<char> {
    url_encoded(d.quest_locale.name_of(q))
}

/// The name of a location in the language of the journal, percent-encoded.
pub open spec fn location_segment(d: &Data, l: LocationId) -> Seq<char> {
    url_encoded(d.quest_locale.catalog.location_name(d.quest_locale.language, l.0 as int))
}

/// The path of a route below a base address.
pub open spec fn path_of(route: Route, d: &Data, base: Seq<char>) -> Seq<char> {
    match route {
        Route::Info => base + "/#info"@,
        Route::Todo => base + "/#todo"@,
        Route::TodoAction(q, l) => base + "/#todo/"@ + quest_segment(d, q) + "/"@ + location_segment(d, l),
        Route::MapOverview => base + "/#map"@,
        Route::MapLocation(l) => base + "/#map/"@ + location_segment(d, l),
        Route::MapAction(l, q) => base + "/#map/"@ + location_segment(d, l) + "/"@ + quest_segment(d, q),
        Route::MapNewQuest(l) => base + "/#map/"@ + location_segment(d, l) + "/new"@,
        Route::Edit => base + "/#edit"@,
        Route::EditQuest(q) => base + "/#edit/"@ + quest_segment(d, q),
        Route::Settings => base + "/#settings"@,
    }
}

/// The first `n` characters of a text cut at every `/`: the segments that
/// are closed, and the one that is still open.
pub open spec fn cut(s: Seq<char>, n: int) -> (Seq<Seq<char>>, Seq<char>)
    decreases n,
{
    if n <= 0 {
        (Seq::empty(), Seq::empty())
    } else {
        let before = cut(s, n - 1);
        if s[n - 1] == '/' {
            (before.0.push(before.1), Seq::empty())
        } else {
            (before.0, before.1.push(s[n - 1]))
        }
    }
}

/// The segments of a text between its `/`.
pub open spec fn segments(s: Seq<char>) -> Seq<Seq<char>> {
    cut(s, s.len() as int).0.push(cut(s, s.len() as int).1)
}

/// Whether each of the first `n` segments can be decoded.
pub open spec fn all_decoded(parts: Seq<Seq<char>>, n: int) -> bool {
    forall|i: int| 0 <= i < n ==> (#[trigger] url_decoded(parts[i])) is Some
}

/// The segments of a hash, decoded: the hash without its `#`, cut at every
/// `/`; none at all where one of them cannot be decoded.
pub open spec fn decoded_segments(hash: Seq<char>) -> Seq<Seq<char>> {
    let bare = if hash.len() > 0 && hash[0] == '#' {
        hash.skip(1)
    } else {
        hash
    };
    let parts = segments(bare);
    if all_decoded(parts, parts.len() as int) {
        Seq::new(parts.len(), |i: int| url_decoded(parts[i])->Some_0)
    } else {
        Seq::empty()
    }
}

/// The quest that a segment names, if there is such a segment and such a quest.
pub open spec fn quest_at(d: &Data, parts: Seq<Seq<char>>, i: int) -> Option<QuestId> {
    if 0 <= i < parts.len() {
        quest_of_name(&d.quest_locale.catalog, d.quest_locale.language, parts[i])
    } else {
        None
    }
}

/// The location that a segment names, if there is such a segment and such a location.
pub open spec fn location_at(d: &Data, parts: Seq<Seq<char>>, i: int) -> Option<LocationId> {
    if 0 <= i < parts.len() {
        location_of_name(&d.quest_locale.catalog, parts[i])
    } else {
        None
    }
}

/// The route that decoded segments stand for; what names nothing known leads
/// to the nearest list, and an unknown pane to the first one.
pub open spec fn route_of(d: &Data, parts: Seq<Seq<char>>) -> Route {
    if parts.len() == 0 {
        Route::Info
    } else if parts[0] == "todo"@ {
        if quest_at(d, parts, 1) is Some && location_at(d, parts, 2) is Some {
            Route::TodoAction(quest_at(d, parts, 1)->Some_0, location_at(d, parts, 2)->Some_0)
        } else {
            Route::Todo
        }
    } else if parts[0] == "map"@ {
        if location_at(d, parts, 1) is Some {
            let l = location_at(d, parts, 1)->Some_0;
            if quest_at(d, parts, 2) is Some {
                Route::MapAction(l, quest_at(d, parts, 2)->Some_0)
            } else if parts.len() > 2 && parts[2] == "new"@ {
                Route::MapNewQuest(l)
            } else {
                Route::MapLocation(l)
            }
        } else {
            Route::MapOverview
        }
    } else if parts[0] == "edit"@ {
        if quest_at(d, parts, 1) is Some {
            Route::EditQuest(quest_at(d, parts, 1)->Some_0)
        } else {
            Route::Edit
        }
    } else if parts[0] == "settings"@ {
        Route::Settings
    } else {
        Route::Info
    }
}

/// The texts of a list, as plain values.
pub open spec fn texts(parts: Seq<String>) -> Seq<Seq<char>> {
    Seq::new(parts.len(), |i: int| parts[i]@)
}

/// Cuts a hash into its decoded segments.
fn decode_segments(hash: &str) -> (r: Vec<String>)
    ensures
        texts(r@) == decoded_segments(hash@),
{
    let n = hash.unicode_len();
    let start: usize = if n > 0 && hash.get_char(0) == '#' {
        1
    } else {
        0
    };
    let ghost bare = if start == 1 {
        hash@.skip(1)
    } else {
        hash@
    };
    let mut parts: Vec<String> = Vec::new();
    let mut failed = false;
    let mut current: Vec<char> = Vec::new();
    let mut i: usize = start;
    assert(texts(parts@) =~= Seq::<Seq<char>>::empty());
    while i < n
        invariant
            n == hash@.len(),
            start <= i <= n,
            bare == hash@.skip(start as int),
            start <= 1,
            current@ == cut(bare, i - start).1,
            failed == !all_decoded(cut(bare, i - start).0, cut(bare, i - start).0.len() as int),
            !failed ==> texts(parts@) == Seq::new(
                cut(bare, i - start).0.len(),
                |j: int| url_decoded(cut(bare, i - start).0[j])->Some_0,
            ),
        decreases n - i,
    {
        let c = hash.get_char(i);
        assert(bare[i - start] == c);
        let ghost before = cut(bare, i - start);
        if c == '/' {
            let segment = string_of(&current);
            current = Vec::new();
            let ghost closed = before.0.push(before.1);
            assert(cut(bare, i - start + 1).0 == closed);
            match url_decode(segment.as_str()) {
                Some(text) => {
                    if !failed {
                        let ghost earlier = texts(parts@);
                        parts.push(text);
                        proof {
                            assert forall|j: int| 0 <= j < closed.len() implies (#[trigger] url_decoded(
                                closed[j],
                            )) is Some by {
                                if j < before.0.len() {
                                    assert(closed[j] == before.0[j]);
                                }
                            }
                            let want = Seq::new(closed.len(), |j: int| url_decoded(closed[j])->Some_0);
                            assert(texts(parts@).len() == want.len());
                            assert forall|j: int| 0 <= j < want.len() implies texts(parts@)[j] == want[j] by {
                                if j < before.0.len() {
                                    assert(texts(parts@)[j] == earlier[j]);
                                    assert(closed[j] == before.0[j]);
                                } else {
                                    assert(closed[j] == before.1);
                                }
                            }
                            assert(texts(parts@) =~= want);
                        }
                    } else {
                        proof {
                            let j = choose|j: int| 0 <= j < before.0.len() && !((#[trigger] url_decoded(
                                before.0[j],
                            )) is Some);
                            assert(closed[j] == before.0[j]);
                        }
                    }
                },
                None => {
                    failed = true;
                    proof {
                        assert(closed[closed.len() - 1] == before.1);
                    }
                },
            }
        } else {
            current.push(c);
        }
        i = i + 1;
    }
    let ghost done = cut(bare, bare.len() as int);
    assert(n - start == bare.len());
    let segment = string_of(&current);
    let ghost all = done.0.push(done.1);
    assert(segments(bare) == all);
    match url_decode(segment.as_str()) {
        Some(text) => {
            if failed {
                proof {
                    let j = choose|j: int| 0 <= j < done.0.len() && !((#[trigger] url_decoded(done.0[j])) is Some);
                    assert(all[j] == done.0[j]);
                }
                let empty: Vec<String> = Vec::new();
                assert(texts(empty@) =~= Seq::<Seq<char>>::empty());
                return empty;
            }
            let ghost earlier = texts(parts@);
            parts.push(text);
            proof {
                assert forall|j: int| 0 <= j < all.len() implies (#[trigger] url_decoded(all[j])) is Some by {
                    if j < done.0.len() {
                        assert(all[j] == done.0[j]);
                    }
                }
                let want = Seq::new(all.len(), |j: int| url_decoded(all[j])->Some_0);
                assert(texts(parts@).len() == want.len());
                assert forall|j: int| 0 <= j < want.len() implies texts(parts@)[j] == want[j] by {
                    if j < done.0.len() {
                        assert(texts(parts@)[j] == earlier[j]);
                        assert(all[j] == done.0[j]);
                    } else {
                        assert(all[j] == done.1);
                    }
                }
                assert(texts(parts@) =~= want);
            }
            parts
        },
        None => {
            proof {
                assert(all[all.len() - 1] == done.1);
            }
            let empty: Vec<String> = Vec::new();
            assert(texts(empty@) =~= Seq::<Seq<char>>::empty());
            empty
        },
    }
}

impl Route {
    /// The path of the route below a base address.
    pub fn path(&self, data: &Data, base: &str) -> (r: String)
        requires
            data.wf(),
            self.fits(&data.quest_locale.catalog),
        ensures
            r@ == path_of(*self, data, base@),
    {
        let catalog = &data.quest_locale.catalog;
        let language = data.quest_locale.language;
        let mut r = base.to_owned();
        match self {
            Route::Info => {
                r.append("/#info");
            },
            Route::Todo => {
                r.append("/#todo");
            },
            Route::TodoAction(q, l) => {
                r.append("/#todo/");
                r.append(url_encode(data.quest_locale.get(*q)).as_str());
                r.append("/");
                r.append(url_encode(l.name(catalog, language)).as_str());
            },
            Route::MapOverview => {
                r.append("/#map");
            },
            Route::MapLocation(l) => {
                r.append("/#map/");
                r.append(url_encode(l.name(catalog, language)).as_str());
            },
            Route::MapAction(l, q) => {
                r.append("/#map/");
                r.append(url_encode(l.name(catalog, language)).as_str());
                r.append("/");
                r.append(url_encode(data.quest_locale.get(*q)).as_str());
            },
            Route::MapNewQuest(l) => {
                r.append("/#map/");
                r.append(url_encode(l.name(catalog, language)).as_str());
                r.append("/new");
            },
            Route::Edit => {
                r.append("/#edit");
            },
            Route::EditQuest(q) => {
                r.append("/#edit/");
                r.append(url_encode(data.quest_locale.get(*q)).as_str());
            },
            Route::Settings => {
                r.append("/#settings");
            },
        }
        r
    }

    /// The route that a hash stands for.
    pub fn parse(data: &Data, hash: &str) -> (r: Route)
        requires
            data.wf(),
        ensures
            r == route_of(data, decoded_segments(hash@)),
            r.fits(&data.quest_locale.catalog),
    {
        let parts = decode_segments(hash);
        route_from(data, &parts)
    }
}

fn quest_in(data: &Data, parts: &Vec<String>, i: usize) -> (r: Option<QuestId>)
    requires
        data.wf(),
    ensures
        r == quest_at(data, texts(parts@), i as int),
        r is Some ==> r->Some_0.known(&data.quest_locale.catalog),
{
    if i < parts.len() {
        data.quest_locale.try_get(parts[i].as_str())
    } else {
        None
    }
}

fn location_in(data: &Data, parts: &Vec<String>, i: usize) -> (r: Option<LocationId>)
    requires
        data.wf(),
    ensures
        r == location_at(data, texts(parts@), i as int),
        r is Some ==> r->Some_0.known(&data.quest_locale.catalog),
{
    if i < parts.len() {
        LocationId::try_from_name(parts[i].as_str(), &data.quest_locale.catalog)
    } else {
        None
    }
}

/// The route that decoded segments stand for.
pub fn route_from(data: &Data, parts: &Vec<String>) -> (r: Route)
    requires
        data.wf(),
    ensures
        r == route_of(data, texts(parts@)),
        r.fits(&data.quest_locale.catalog),
{
    if parts.len() == 0 {
        return Route::Info;
    }
    let first = parts[0].as_str();
    assert(texts(parts@)[0] == first@);
    if str_eq(first, "todo") {
        let q = quest_in(data, parts, 1);
        let l = location_in(data, parts, 2);
        match (q, l) {
            (Some(q), Some(l)) => Route::TodoAction(q, l),
            _ => Route::Todo,
        }
    } else if str_eq(first, "map") {
        match location_in(data, parts, 1) {
            Some(l) => {
                match quest_in(data, parts, 2) {
                    Some(q) => Route::MapAction(l, q),
                    None => {
                        if parts.len() > 2 && str_eq(parts[2].as_str(), "new") {
                            assert(texts(parts@)[2] == "new"@);
                            Route::MapNewQuest(l)
                        } else {
                            assert(parts@.len() > 2 ==> texts(parts@)[2] == parts@[2]@);
                            Route::MapLocation(l)
                        }
                    },
                }
            },
            None => Route::MapOverview,
        }
    } else if str_eq(first, "edit") {
        match quest_in(data, parts, 1) {
            Some(q) => Route::EditQuest(q),
            None => Route::Edit,
        }
    } else if str_eq(first, "settings") {
        Route::Settings
    } else {
        Route::Info
    }
}

/// What follows the address bar: the base address, and how often in a row
/// an address was replaced by the path of its own route.
pub struct Router {
    pub base: String,
    pub redirect_counter: usize,
}

impl Router {
    pub fn new(base: String) -> (r: Self)
        ensures
            r.base == base,
            r.redirect_counter == 0,
    {
        Router { base, redirect_counter: 0 }
    }

    /// Notes that the application itself moved on.
    pub fn moved(&mut self)
        ensures
            final(self).base == old(self).base,
            final(self).redirect_counter == 0,
    {
        self.redirect_counter = 0;
    }

    /// The route of an address, once the address has settled: an address
    /// that is the path of its own route gives the route; another is to be
    /// replaced by that path, which is handed out instead, unless that was
    /// done more than three times in a row.
    pub fn current_route(&mut self, data: &Data, path: &str, hash: &str) -> (r: (Option<Route>, Option<String>))
        requires
            data.wf(),
        ensures
            final(self).base == old(self).base,
            ({
                let route = route_of(data, decoded_segments(hash@));
                let own = path_of(route, data, old(self).base@);
                if path@ + hash@ == own || old(self).redirect_counter > 3 {
                    r.0 == Some(route) && r.1 is None && final(self).redirect_counter == old(self).redirect_counter
                } else {
                    r.0 is None && r.1 is Some && r.1->Some_0@ == own && final(self).redirect_counter == old(
                        self,
                    ).redirect_counter + 1
                }
            }),
    {
        let route = Route::parse(data, hash);
        let new_path = route.path(data, self.base.as_str());
        let mut address = path.to_owned();
        address.append(hash);
        if str_eq(address.as_str(), new_path.as_str()) || self.redirect_counter > 3 {
            (Some(route), None)
        } else {
            self.redirect_counter = self.redirect_counter + 1;
            (None, Some(new_path))
        }
    }
}

} // verus!
