//! How far an element is hidden from the ordinary views.

use crate::game::msg::MsgKey;
use crate::text::str_eq;
use vstd::prelude::*;

verus! {

/// A level of restriction; a later variant hides more.
#[derive(Clone, Copy, Debug, PartialEq, Eq, Hash, Structural)]
pub enum Vis {
    Visible,
    HiddenThisCampaign,
    HiddenForever,
}

impl Default for Vis {
    fn default() -> (r: Self)
        ensures
            r == Vis::Visible,
    {
        Vis::Visible
    }
}

impl Vis {
    /// The place of a level in the order of restriction.
    pub open spec fn rank(self) -> int {
        match self {
            Vis::Visible => 0,
            Vis::HiddenThisCampaign => 1,
            Vis::HiddenForever => 2,
        }
    }

    /// The tag that stands for a level in an exchanged file.
    pub open spec fn csv_tag(self) -> Seq<char> {
        match self {
            Vis::Visible => ""@,
            Vis::HiddenThisCampaign => "hidden-this-campaign"@,
            Vis::HiddenForever => "hidden-forever"@,
        }
    }

    /// The level that a tag stands for, if any.
    pub open spec fn from_csv_tag(tag: Seq<char>) -> Option<Vis> {
        if tag == Vis::Visible.csv_tag() {
            Some(Vis::Visible)
        } else if tag == Vis::HiddenThisCampaign.csv_tag() {
            Some(Vis::HiddenThisCampaign)
        } else if tag == Vis::HiddenForever.csv_tag() {
            Some(Vis::HiddenForever)
        } else {
            None
        }
    }

    /// The level after a campaign ends: what was hidden for the campaign shows again.
    pub open spec fn after_campaign(self) -> Vis {
        if self == Vis::HiddenThisCampaign {
            Vis::Visible
        } else {
            self
        }
    }

    pub fn raw(self) -> (r: u8)
        ensures
            r == self.rank(),
    {
        match self {
            Vis::Visible => 0,
            Vis::HiddenThisCampaign => 1,
            Vis::HiddenForever => 2,
        }
    }

    /// The more restrictive of two levels.
    pub fn most_restrictive(self, other: Vis) -> (r: Vis)
        ensures
            r == (if self.rank() >= other.rank() { self } else { other }),
    {
        if self.raw() >= other.raw() {
            self
        } else {
            other
        }
    }

    pub fn to_csv(self) -> (r: &'static str)
        ensures
            r@ == self.csv_tag(),
    {
        match self {
            Vis::Visible => "",
            Vis::HiddenThisCampaign => "hidden-this-campaign",
            Vis::HiddenForever => "hidden-forever",
        }
    }

    pub fn try_from_csv(input: &str) -> (r: Option<Vis>)
        ensures
            r == Vis::from_csv_tag(input@),
    {
        if str_eq(input, "") {
            Some(Vis::Visible)
        } else if str_eq(input, "hidden-this-campaign") {
            Some(Vis::HiddenThisCampaign)
        } else if str_eq(input, "hidden-forever") {
            Some(Vis::HiddenForever)
        } else {
            None
        }
    }

    /// The message that names the level.
    pub fn text(self) -> (r: MsgKey)
        ensures
            r == (match self {
                Vis::Visible => MsgKey::VisVisible,
                Vis::HiddenThisCampaign => MsgKey::VisHiddenThisCampaign,
                Vis::HiddenForever => MsgKey::VisHiddenForever,
            }),
    {
        match self {
            Vis::Visible => MsgKey::VisVisible,
            Vis::HiddenThisCampaign => MsgKey::VisHiddenThisCampaign,
            Vis::HiddenForever => MsgKey::VisHiddenForever,
        }
    }

    /// Each level is read back from its own tag, and a tag stands for one level only.
    pub proof fn lemma_csv_tag_round_trip(v: Vis)
        ensures
            Vis::from_csv_tag(v.csv_tag()) == Some(v),
    {
        reveal_strlit("");
        reveal_strlit("hidden-this-campaign");
        reveal_strlit("hidden-forever");
        assert(""@.len() == 0);
        assert("hidden-this-campaign"@.len() == 20);
        assert("hidden-forever"@.len() == 14);
    }
}

} // verus!
