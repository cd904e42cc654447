//! The messages that the rules choose; their wording belongs to the language of the site.

use vstd::prelude::*;

verus! {

/// A message of the site, by its key in the table of messages.
#[derive(Clone, Copy, Debug, PartialEq, Eq, Hash, Structural)]
pub enum MsgKey {
    StateNotFound,
    StateInGame,
    StateRemoved,
    VisVisible,
    VisHiddenThisCampaign,
    VisHiddenForever,
    ActiGainQuest,
    ActiGainQuestFound,
    ActiGainQuestNoPre,
    ActiCompleteQuest,
    ActiCompleteQuestNo,
    ActiLoseQuest,
    ActiLoseQuestNo,
}

} // verus!
