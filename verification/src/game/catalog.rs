//! The static tables of the game.

use crate::game::game_language::GameLanguage;
use crate::text::str_eq;
use vstd::prelude::*;
use vstd::utf8::encode_utf8;

verus! {

/// One language: its code, its name for the prologue, and its name for each quest.
pub struct Language {
    pub name: String,
    pub prologue: String,
    pub quests: Vec<String>,
}

/// One location: its name, which the prologue lacks, and the page it is on.
pub struct Location {
    pub name: Option<String>,
    pub page: Option<String>,
}

/// The tables that a journal is read against: the languages, the locations,
/// which quests are keywords, and the map, which shows at each of its
/// positions two pages of the book or nothing.
pub struct Catalog {
    pub languages: Vec<Language>,
    pub locations: Vec<Location>,
    pub keywords: Vec<bool>,
    pub map: Vec<Option<(String, String)>>,
    pub map_default_position: usize,
}

/// Whether a text, given by its bytes, ends in `*`.
pub open spec fn ends_in_star(bytes: Seq<u8>) -> bool {
    bytes.len() > 0 && bytes.last() == 42
}

/// The most entries that a table may have, so that every place fits an identifier.
pub const MAX_ENTRIES: usize = 65536;

impl Catalog {
    /// The number of quests.
    pub open spec fn quest_count(&self) -> int {
        self.keywords@.len() as int
    }

    /// The number of locations, the prologue included.
    pub open spec fn location_count(&self) -> int {
        self.locations@.len() as int
    }

    /// Whether the map shows pages at a position.
    pub open spec fn shows_pages(&self, position: int) -> bool {
        0 <= position < self.map@.len() && self.map@[position] is Some
    }

    /// The invariant: there is a language, the two built-in quests and the
    /// prologue exist, every language names every quest, every place fits
    /// an identifier, and the map shows pages at the position it starts at.
    pub open spec fn wf(&self) -> bool {
        &&& self.shows_pages(self.map_default_position as int)
        &&& self.languages@.len() >= 1
        &&& 2 <= self.keywords@.len() <= MAX_ENTRIES
        &&& 1 <= self.locations@.len() <= MAX_ENTRIES
        &&& forall|l: int| 0 <= l < self.languages@.len() ==> (#[trigger] self.languages@[l]).quests@.len()
            == self.keywords@.len()
    }

    /// Whether a language belongs to this catalog.
    pub open spec fn has_language(&self, language: GameLanguage) -> bool {
        language.0 < self.languages@.len()
    }

    /// The code of a language.
    pub open spec fn language_code(&self, language: GameLanguage) -> Seq<char> {
        self.languages@[language.0 as int].name@
    }

    /// The name of a quest in a language.
    pub open spec fn quest_name(&self, language: GameLanguage, quest: int) -> Seq<char> {
        self.languages@[language.0 as int].quests@[quest]@
    }

    /// The name of a location: its own, or that of the prologue in the language.
    pub open spec fn location_name(&self, language: GameLanguage, location: int) -> Seq<char> {
        match self.locations@[location].name {
            Some(n) => n@,
            None => self.languages@[language.0 as int].prologue@,
        }
    }

    /// Whether a language before place `n` has the code `code`.
    pub open spec fn code_known_before(&self, code: Seq<char>, n: int) -> bool {
        exists|l: int| 0 <= l < n && #[trigger] self.languages@[l].name@ == code
    }

    /// The first language with the given code, if there is one.
    pub open spec fn language_of_code(&self, code: Seq<char>) -> Option<GameLanguage> {
        if self.code_known_before(code, self.languages@.len() as int) {
            Some(
                GameLanguage(
                    (choose|l: int|
                        0 <= l < self.languages@.len() && #[trigger] self.languages@[l].name@ == code
                            && !self.code_known_before(code, l)) as usize,
                ),
            )
        } else {
            None
        }
    }

    /// Whether the map shows pages at a position.
    pub fn is_map_position(&self, position: usize) -> (r: bool)
        ensures
            r == self.shows_pages(position as int),
    {
        position < self.map.len() && self.map[position].is_some()
    }

    /// Whether some language is marked as not complete: its code ends in `*`.
    pub fn is_incomplete(&self) -> (r: bool)
        ensures
            r == exists|l: int|
                0 <= l < self.languages@.len() && ends_in_star(encode_utf8((#[trigger] self.languages@[l]).name@)),
    {
        let mut i: usize = 0;
        while i < self.languages.len()
            invariant
                i <= self.languages@.len(),
                forall|l: int| 0 <= l < i ==> !ends_in_star(encode_utf8((#[trigger] self.languages@[l]).name@)),
            decreases self.languages@.len() - i,
        {
            let bytes = self.languages[i].name.as_str().as_bytes();
            if bytes.len() > 0 && bytes[bytes.len() - 1] == 42 {
                return true;
            }
            i = i + 1;
        }
        false
    }

    pub fn language_count(&self) -> (r: usize)
        ensures
            r == self.languages@.len(),
    {
        self.languages.len()
    }

    /// The code under which a language stands in an exchanged file.
    pub fn language_name(&self, language: GameLanguage) -> (r: &str)
        requires
            self.has_language(language),
        ensures
            r@ == self.language_code(language),
    {
        self.languages[language.0].name.as_str()
    }

    /// Looks a language up by its code; of two with one code the first is taken.
    pub fn try_language(&self, code: &str) -> (r: Option<GameLanguage>)
        ensures
            r == self.language_of_code(code@),
            r is Some ==> self.has_language(r->Some_0) && self.language_code(r->Some_0) == code@,
    {
        let mut i: usize = 0;
        while i < self.languages.len()
            invariant
                i <= self.languages@.len(),
                !self.code_known_before(code@, i as int),
            decreases self.languages@.len() - i,
        {
            if str_eq(self.languages[i].name.as_str(), code) {
                proof {
                    let n = self.languages@.len() as int;
                    assert(self.code_known_before(code@, n));
                    let c = choose|l: int|
                        0 <= l < n && #[trigger] self.languages@[l].name@ == code@ && !self.code_known_before(
                            code@,
                            l,
                        );
                    if c < i {
                        assert(self.code_known_before(code@, i as int));
                    } else if i < c {
                        assert(self.code_known_before(code@, c));
                    }
                }
                return Some(GameLanguage(i));
            }
            i = i + 1;
        }
        None
    }
}

} // verus!
