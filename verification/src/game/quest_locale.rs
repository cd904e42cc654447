//! The names of the quests in the chosen language, and the order in which they are listed.

use crate::game::catalog::Catalog;
use crate::game::game_language::GameLanguage;
use crate::game::quest_id::QuestId;
use crate::text::{lemma_bytes_less_total, lemma_bytes_less_transitive, lemma_text_of_bytes, str_eq, str_less, text_less};
use vstd::prelude::*;
use vstd::utf8::encode_utf8;

verus! {

/// Whether quest `a` is listed before quest `b`: by name, and by number under one name.
pub open spec fn listed_before(catalog: &Catalog, language: GameLanguage, a: int, b: int) -> bool {
    let x = catalog.quest_name(language, a);
    let y = catalog.quest_name(language, b);
    text_less(x, y) || (x == y && a < b)
}

/// Whether a list holds the quest with number `q`.
pub open spec fn lists(order: Seq<QuestId>, q: int) -> bool {
    exists|i: int| 0 <= i < order.len() && (#[trigger] order[i]).0 == q
}

/// Whether a list holds the first `n` quests, each once, in the order of the language.
pub open spec fn is_listing(catalog: &Catalog, language: GameLanguage, order: Seq<QuestId>, n: int) -> bool {
    &&& order.len() == n
    &&& forall|i: int| 0 <= i < order.len() ==> (#[trigger] order[i]).0 < n
    &&& forall|q: int| 0 <= q < n ==> lists(order, q)
    &&& forall|i: int, j: int|
        0 <= i < j < order.len() ==> listed_before(catalog, language, (#[trigger] order[i]).0 as int, (#[trigger] order[j]).0 as int)
}

/// Whether a quest before number `n` carries the name `name`.
pub open spec fn quest_named_before(catalog: &Catalog, language: GameLanguage, name: Seq<char>, n: int) -> bool {
    exists|q: int| 0 <= q < n && #[trigger] catalog.quest_name(language, q) == name
}

/// The quest with the given name, if there is one; of two with one name, the one listed first.
pub open spec fn quest_of_name(catalog: &Catalog, language: GameLanguage, name: Seq<char>) -> Option<QuestId> {
    if quest_named_before(catalog, language, name, catalog.quest_count()) {
        Some(
            QuestId(
                (choose|q: int|
                    0 <= q < catalog.quest_count() && #[trigger] catalog.quest_name(language, q) == name
                        && !quest_named_before(catalog, language, name, q)) as u16,
            ),
        )
    } else {
        None
    }
}

/// The quests of a catalog in the order of a language.
fn listing(catalog: &Catalog, language: GameLanguage) -> (v: Vec<QuestId>)
    requires
        catalog.wf(),
        catalog.has_language(language),
    ensures
        is_listing(catalog, language, v@, catalog.quest_count()),
{
    let names = &catalog.languages[language.0].quests;
    let n = catalog.keywords.len();
    let mut v: Vec<QuestId> = Vec::new();
    let mut q: usize = 0;
    while q < n
        invariant
            catalog.wf(),
            catalog.has_language(language),
            n == catalog.quest_count(),
            names == &catalog.languages@[language.0 as int].quests,
            q <= n,
            is_listing(catalog, language, v@, q as int),
        decreases n - q,
    {
        let name = names[q].as_str();
        let mut p: usize = 0;
        while p < v.len() && !str_less(name, names[v[p].0 as usize].as_str())
            invariant
                catalog.wf(),
                catalog.has_language(language),
                n == catalog.quest_count(),
                names == &catalog.languages@[language.0 as int].quests,
                q < n,
                name@ == catalog.quest_name(language, q as int),
                is_listing(catalog, language, v@, q as int),
                p <= v@.len(),
                forall|j: int| 0 <= j < p ==> !text_less(name@, catalog.quest_name(language, (#[trigger] v@[j]).0 as int)),
            decreases v@.len() - p,
        {
            p = p + 1;
        }
        let ghost old_v = v@;
        v.insert(p, QuestId(q as u16));
        proof {
            let new_v = v@;
            assert forall|x: int| 0 <= x < q + 1 implies lists(new_v, x) by {
                if x == q {
                    assert(new_v[p as int].0 == x);
                } else {
                    assert(lists(old_v, x));
                    let i = choose|i: int| 0 <= i < old_v.len() && (#[trigger] old_v[i]).0 == x;
                    let k = if i < p { i } else { i + 1 };
                    assert(new_v[k].0 == x);
                }
            }
            assert forall|i: int, j: int| 0 <= i < j < new_v.len() implies listed_before(
                catalog,
                language,
                (#[trigger] new_v[i]).0 as int,
                (#[trigger] new_v[j]).0 as int,
            ) by {
                if j == p {
                    let a = catalog.quest_name(language, old_v[i].0 as int);
                    lemma_bytes_less_total(encode_utf8(a), encode_utf8(name@));
                    if encode_utf8(a) == encode_utf8(name@) {
                        lemma_text_of_bytes(a, name@);
                    }
                } else if i == p {
                    let first = catalog.quest_name(language, old_v[p as int].0 as int);
                    let b = catalog.quest_name(language, old_v[j - 1].0 as int);
                    if j - 1 > p {
                        assert(listed_before(catalog, language, old_v[p as int].0 as int, old_v[j - 1].0 as int));
                        if first != b {
                            lemma_bytes_less_transitive(encode_utf8(name@), encode_utf8(first), encode_utf8(b));
                        }
                    }
                } else {
                    let i0 = if i < p { i } else { i - 1 };
                    let j0 = if j < p { j } else { j - 1 };
                    assert(listed_before(catalog, language, old_v[i0].0 as int, old_v[j0].0 as int));
                }
            }
        }
        q = q + 1;
    }
    v
}

/// The chosen language of the game, with the quests in the order of their names.
pub struct QuestLocale {
    pub catalog: Catalog,
    pub language: GameLanguage,
    pub translation: Vec<QuestId>,
}

impl QuestLocale {
    /// The invariant: the language belongs to the catalog, and `translation`
    /// lists every quest once, in the order of the language.
    pub open spec fn wf(&self) -> bool {
        &&& self.catalog.wf()
        &&& self.catalog.has_language(self.language)
        &&& is_listing(&self.catalog, self.language, self.translation@, self.catalog.quest_count())
    }

    /// The name of a quest in the chosen language.
    pub open spec fn name_of(&self, q: QuestId) -> Seq<char> {
        self.catalog.quest_name(self.language, q.0 as int)
    }

    pub fn new(catalog: Catalog) -> (r: Self)
        requires
            catalog.wf(),
        ensures
            r.wf(),
            r.catalog == catalog,
            r.language == GameLanguage(0),
    {
        let language = GameLanguage(0);
        let translation = listing(&catalog, language);
        QuestLocale { catalog, language, translation }
    }

    /// Every quest with its name, in the order of the names.
    pub fn all_str(&self) -> (r: Vec<(QuestId, &str)>)
        requires
            self.wf(),
        ensures
            r@.len() == self.translation@.len(),
            forall|i: int| 0 <= i < r@.len() ==> (#[trigger] r@[i]).0 == self.translation@[i]
                && r@[i].1@ == self.name_of(self.translation@[i]),
    {
        let mut r: Vec<(QuestId, &str)> = Vec::new();
        let mut i: usize = 0;
        while i < self.translation.len()
            invariant
                self.wf(),
                i <= self.translation@.len(),
                r@.len() == i,
                forall|j: int| 0 <= j < r@.len() ==> (#[trigger] r@[j]).0 == self.translation@[j]
                    && r@[j].1@ == self.name_of(self.translation@[j]),
            decreases self.translation@.len() - i,
        {
            let q = self.translation[i];
            r.push((q, self.get(q)));
            i = i + 1;
        }
        r
    }

    pub fn language(&self) -> (r: GameLanguage)
        ensures
            r == self.language,
    {
        self.language
    }

    /// Chooses a language and lists the quests anew in its order.
    pub fn set_language(&mut self, language: GameLanguage)
        requires
            old(self).catalog.wf(),
            old(self).catalog.has_language(language),
        ensures
            final(self).wf(),
            final(self).catalog == old(self).catalog,
            final(self).language == language,
    {
        self.language = language;
        self.translation = listing(&self.catalog, language);
    }

    pub fn get(&self, q: QuestId) -> (r: &str)
        requires
            self.wf(),
            q.known(&self.catalog),
        ensures
            r@ == self.name_of(q),
    {
        self.catalog.languages[self.language.0].quests[q.0 as usize].as_str()
    }

    pub fn try_get(&self, name: &str) -> (r: Option<QuestId>)
        requires
            self.wf(),
        ensures
            r == quest_of_name(&self.catalog, self.language, name@),
            r is Some ==> r->Some_0.known(&self.catalog) && self.name_of(r->Some_0) == name@,
    {
        let names = &self.catalog.languages[self.language.0].quests;
        let mut q: usize = 0;
        while q < names.len()
            invariant
                self.wf(),
                names == &self.catalog.languages@[self.language.0 as int].quests,
                q <= names@.len(),
                !quest_named_before(&self.catalog, self.language, name@, q as int),
            decreases names@.len() - q,
        {
            if str_eq(names[q].as_str(), name) {
                proof {
                    let n = self.catalog.quest_count();
                    assert(self.catalog.quest_name(self.language, q as int) == name@);
                    assert(quest_named_before(&self.catalog, self.language, name@, n));
                    let c = choose|c: int|
                        0 <= c < n && #[trigger] self.catalog.quest_name(self.language, c) == name@
                            && !quest_named_before(&self.catalog, self.language, name@, c);
                    if c < q {
                        assert(quest_named_before(&self.catalog, self.language, name@, q as int));
                    } else if q < c {
                        assert(quest_named_before(&self.catalog, self.language, name@, c));
                    }
                }
                return Some(QuestId(q as u16));
            }
            assert(self.catalog.quest_name(self.language, q as int) != name@);
            q = q + 1;
        }
        None
    }
}

} // verus!
