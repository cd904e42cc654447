//! The role that an encounter plays in the life of a quest.

use crate::text::str_eq;
use vstd::prelude::*;

verus! {

/// The five roles, in the order in which they are listed and shown.
#[derive(Clone, Copy, Debug, PartialEq, Eq, Hash, Structural)]
pub enum EncounterType {
    Unless,
    Gain,
    When,
    Complete,
    Lose,
}

impl EncounterType {
    /// The place of a role in the declared order.
    pub open spec fn rank(self) -> int {
        match self {
            EncounterType::Unless => 0,
            EncounterType::Gain => 1,
            EncounterType::When => 2,
            EncounterType::Complete => 3,
            EncounterType::Lose => 4,
        }
    }

    /// The role at a place of the declared order.
    pub open spec fn at(rank: int) -> EncounterType {
        if rank == 0 {
            EncounterType::Unless
        } else if rank == 1 {
            EncounterType::Gain
        } else if rank == 2 {
            EncounterType::When
        } else if rank == 3 {
            EncounterType::Complete
        } else {
            EncounterType::Lose
        }
    }

    /// The tag that stands for a role in an exchanged file.
    pub open spec fn csv_tag(self) -> Seq<char> {
        match self {
            EncounterType::Unless => "unless"@,
            EncounterType::Gain => "gain"@,
            EncounterType::When => "when"@,
            EncounterType::Complete => "complete"@,
            EncounterType::Lose => "lose"@,
        }
    }

    /// The role that a tag stands for, if any.
    pub open spec fn from_csv_tag(tag: Seq<char>) -> Option<EncounterType> {
        if tag == EncounterType::Unless.csv_tag() {
            Some(EncounterType::Unless)
        } else if tag == EncounterType::Gain.csv_tag() {
            Some(EncounterType::Gain)
        } else if tag == EncounterType::When.csv_tag() {
            Some(EncounterType::When)
        } else if tag == EncounterType::Complete.csv_tag() {
            Some(EncounterType::Complete)
        } else if tag == EncounterType::Lose.csv_tag() {
            Some(EncounterType::Lose)
        } else {
            None
        }
    }

    pub fn raw(self) -> (r: u8)
        ensures
            r == self.rank(),
    {
        match self {
            EncounterType::Unless => 0,
            EncounterType::Gain => 1,
            EncounterType::When => 2,
            EncounterType::Complete => 3,
            EncounterType::Lose => 4,
        }
    }

    /// The role with the given number, if there is one.
    pub fn from_raw(raw: u8) -> (r: Option<EncounterType>)
        ensures
            raw < 5 ==> r == Some(EncounterType::at(raw as int)),
            raw >= 5 ==> r is None,
    {
        if raw == 0 {
            Some(EncounterType::Unless)
        } else if raw == 1 {
            Some(EncounterType::Gain)
        } else if raw == 2 {
            Some(EncounterType::When)
        } else if raw == 3 {
            Some(EncounterType::Complete)
        } else if raw == 4 {
            Some(EncounterType::Lose)
        } else {
            None
        }
    }

    pub fn to_csv(self) -> (r: &'static str)
        ensures
            r@ == self.csv_tag(),
    {
        match self {
            EncounterType::Unless => "unless",
            EncounterType::Gain => "gain",
            EncounterType::When => "when",
            EncounterType::Complete => "complete",
            EncounterType::Lose => "lose",
        }
    }

    pub fn try_from_csv(input: &str) -> (r: Option<EncounterType>)
        ensures
            r == EncounterType::from_csv_tag(input@),
    {
        if str_eq(input, "unless") {
            Some(EncounterType::Unless)
        } else if str_eq(input, "gain") {
            Some(EncounterType::Gain)
        } else if str_eq(input, "when") {
            Some(EncounterType::When)
        } else if str_eq(input, "complete") {
            Some(EncounterType::Complete)
        } else if str_eq(input, "lose") {
            Some(EncounterType::Lose)
        } else {
            None
        }
    }

    /// Each role is read back from its own tag, and a tag stands for one role only.
    pub proof fn lemma_csv_tag_round_trip(et: EncounterType)
        ensures
            EncounterType::from_csv_tag(et.csv_tag()) == Some(et),
    {
        reveal_strlit("unless");
        reveal_strlit("gain");
        reveal_strlit("when");
        reveal_strlit("complete");
        reveal_strlit("lose");
        assert("unless"@.len() == 6);
        assert("complete"@.len() == 8);
        assert("gain"@[0] == 'g');
        assert("when"@[0] == 'w');
        assert("lose"@[0] == 'l');
    }

    /// The declared order numbers the roles from 0 to 4, each once.
    pub proof fn lemma_rank_at(et: EncounterType)
        ensures
            0 <= et.rank() < 5,
            EncounterType::at(et.rank()) == et,
    {
    }
}

} // verus!
