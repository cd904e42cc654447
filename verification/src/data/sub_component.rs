//! What a pane reports back after it has handled a message.

use vstd::prelude::*;

verus! {

/// What is left to do after a message: draw again, store the journal, store the settings.
#[derive(Clone, Copy, Debug, PartialEq, Eq, Structural)]
pub struct UpdateResults {
    pub render: bool,
    pub save_game_data: bool,
    pub save_settings: bool,
}

impl UpdateResults {
    pub fn empty() -> (r: UpdateResults)
        ensures
            r == (UpdateResults { render: false, save_game_data: false, save_settings: false }),
    {
        UpdateResults { render: false, save_game_data: false, save_settings: false }
    }

    pub fn render() -> (r: UpdateResults)
        ensures
            r == (UpdateResults { render: true, save_game_data: false, save_settings: false }),
    {
        UpdateResults { render: true, save_game_data: false, save_settings: false }
    }

    pub fn save_game_data() -> (r: UpdateResults)
        ensures
            r == (UpdateResults { render: false, save_game_data: true, save_settings: false }),
    {
        UpdateResults { render: false, save_game_data: true, save_settings: false }
    }

    pub fn save_settings() -> (r: UpdateResults)
        ensures
            r == (UpdateResults { render: false, save_game_data: false, save_settings: true }),
    {
        UpdateResults { render: false, save_game_data: false, save_settings: true }
    }

    /// What is left to do after both.
    pub fn union(self, other: UpdateResults) -> (r: UpdateResults)
        ensures
            r == (UpdateResults {
                render: self.render || other.render,
                save_game_data: self.save_game_data || other.save_game_data,
                save_settings: self.save_settings || other.save_settings,
            }),
    {
        UpdateResults {
            render: self.render || other.render,
            save_game_data: self.save_game_data || other.save_game_data,
            save_settings: self.save_settings || other.save_settings,
        }
    }
}

} // verus!
