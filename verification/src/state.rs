//! What the bot remembers from one event to the next.

use vstd::prelude::*;
use crate::action::BlockPos;
use crate::trapdoors::{Remembered, Trapdoors};
#[allow(unused_imports)]
use crate::trapdoors::{as_map, players_distinct};

verus! {

/// The bot's state.
#[derive(Debug)]
pub struct BotState {
    /// The trapdoor that holds the pearl of each player.
    pub remembered_trapdoor_positions: Trapdoors,
    /// The player for whom the bot is on its way.
    pub pathfinding_requested_by: Option<String>,
    /// The block to go back to after a trapdoor was used.
    pub return_to_after_pulled: Option<BlockPos>,
    /// When the last direct message was handled, in nanoseconds of a clock that
    /// does not run backwards.
    pub last_dm_handled_at: Option<u128>,
    /// While eating: the food level that has to be exceeded.
    pub eating_until_nutrition_over: Option<u32>,
}

/// The bot's state with its texts as sequences of characters.
pub struct StateView {
    pub trapdoors: Map<Seq<char>, BlockPos>,
    pub requested_by: Option<Seq<char>>,
    pub return_to: Option<BlockPos>,
    pub last_dm_handled_at: Option<u128>,
    pub eating_until_nutrition_over: Option<u32>,
}

impl View for BotState {
    type V = StateView;

    open spec fn view(&self) -> StateView {
        StateView {
            trapdoors: self.remembered_trapdoor_positions@,
            requested_by: match self.pathfinding_requested_by {
                Some(player) => Some(player@),
                None => None,
            },
            return_to: self.return_to_after_pulled,
            last_dm_handled_at: self.last_dm_handled_at,
            eating_until_nutrition_over: self.eating_until_nutrition_over,
        }
    }
}

/// The state at the start.
pub open spec fn fresh() -> StateView {
    StateView {
        trapdoors: Map::empty(),
        requested_by: None,
        return_to: None,
        last_dm_handled_at: None,
        eating_until_nutrition_over: None,
    }
}

/// The state after the file was read: `stored` is what it holds, or `None` where
/// there is no file. All positions remembered before are gone.
pub open spec fn loaded(state: StateView, stored: Option<Seq<Remembered>>) -> StateView {
    StateView {
        trapdoors: match stored {
            Some(list) => as_map(list),
            None => Map::empty(),
        },
        ..state
    }
}

/// `list` holds the remembered positions, each player once.
pub open spec fn is_saved(state: StateView, list: Seq<Remembered>) -> bool {
    players_distinct(list) && as_map(list) == state.trapdoors
}

/// Whether there is a file to read the remembered trapdoor positions from.
pub open spec fn is_file(exists: bool, is_dir: bool) -> bool {
    exists && !is_dir
}

impl Default for BotState {
    fn default() -> (s: Self)
        ensures
            s@ == fresh(),
    {
        BotState {
            remembered_trapdoor_positions: Trapdoors::new(),
            pathfinding_requested_by: None,
            return_to_after_pulled: None,
            last_dm_handled_at: None,
            eating_until_nutrition_over: None,
        }
    }
}

impl Clone for BotState {
    fn clone(&self) -> (s: Self)
        ensures
            s@ == self@,
    {
        BotState {
            remembered_trapdoor_positions: self.remembered_trapdoor_positions.clone(),
            pathfinding_requested_by: match &self.pathfinding_requested_by {
                Some(player) => Some(player.clone()),
                None => None,
            },
            return_to_after_pulled: self.return_to_after_pulled,
            last_dm_handled_at: self.last_dm_handled_at,
            eating_until_nutrition_over: self.eating_until_nutrition_over,
        }
    }
}

impl BotState {
    /// The name of the file that holds the remembered trapdoor positions.
    pub fn remembered_trapdoor_positions_path() -> (path: String)
        ensures
            path@ == "remembered-trapdoor-positions.json"@,
    {
        "remembered-trapdoor-positions.json".to_owned()
    }

    /// Whether there is a file to read the remembered trapdoor positions from.
    pub fn stasis_file_usable(exists: bool, is_dir: bool) -> (r: bool)
        ensures
            r == is_file(exists, is_dir),
            r == (exists && !is_dir),
    {
        exists && !is_dir
    }

    /// Replaces the remembered trapdoor positions by those that the file holds,
    /// or by none where there is no file.
    pub fn load_stasis(&mut self, stored: Option<Vec<Remembered>>)
        ensures
            final(self)@ == loaded(
                old(self)@,
                match stored {
                    Some(list) => Some(list@),
                    None => None,
                },
            ),
    {
        self.remembered_trapdoor_positions = match stored {
            Some(list) => Trapdoors::from_entries(&list),
            None => Trapdoors::new(),
        };
    }

    /// The remembered trapdoor positions that the file is to hold.
    pub fn save_stasis(&self) -> (list: Vec<Remembered>)
        ensures
            is_saved(self@, list@),
    {
        self.remembered_trapdoor_positions.entries()
    }
}

} // verus!
