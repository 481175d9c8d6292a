//! What the bot can be told to do.

use vstd::prelude::*;

verus! {

/// The position of a block.
#[derive(Debug, Clone, Copy, PartialEq, Eq, Structural)]
pub struct BlockPos {
    pub x: i32,
    pub y: i32,
    pub z: i32,
}

/// Where to walk.
#[derive(Debug, Clone, Copy, PartialEq, Eq, Structural)]
pub enum Goal {
    /// Somewhere from where the block can be reached.
    Reach(BlockPos),
    /// Onto the block.
    Stand(BlockPos),
}

/// The exit code after logging out because of low health or a popped totem.
pub const EXITCODE_AUTOLOG: i32 = 69;

/// The exit code for options that exclude each other.
pub const EXITCODE_CONFLICTING_OPTIONS: i32 = 1;

/// One thing to do. A list of actions is carried out in order.
#[derive(Debug, PartialEq, Eq)]
pub enum Action {
    /// Send a command to the server; the text has no slash in front.
    SendCommand(String),
    /// Say something in the public chat.
    SendChat(String),
    /// Walk, and where `mining` holds, mine blocks that are in the way.
    Goto { goal: Goal, mining: bool },
    /// Use the main hand on the block, from inside it, facing down.
    UseItemOn(BlockPos),
    /// Stop using the item in hand.
    ReleaseUseItem,
    /// Select a slot of the hotbar.
    SelectHotbarSlot(u8),
    /// Tell the server which slot of the hotbar is in hand.
    SetCarriedItem(u16),
    /// Use the item in the main hand.
    UseItem,
    /// Look at the eyes of the player with this index among those in sight.
    LookAt(usize),
    /// Read the remembered trapdoor positions from their file.
    LoadStasis,
    /// Write the remembered trapdoor positions to their file.
    SaveStasis,
    /// Take down the time as that of the last direct message handled.
    MarkDmHandled,
    /// Leave the server.
    Disconnect,
    /// End the program with this exit code.
    Exit(i32),
    /// End the program because an admin asked for it.
    Stop,
}

/// An action with its text as a sequence of characters.
pub enum ActionView {
    SendCommand(Seq<char>),
    SendChat(Seq<char>),
    Goto { goal: Goal, mining: bool },
    UseItemOn(BlockPos),
    ReleaseUseItem,
    SelectHotbarSlot(u8),
    SetCarriedItem(u16),
    UseItem,
    LookAt(usize),
    LoadStasis,
    SaveStasis,
    MarkDmHandled,
    Disconnect,
    Exit(i32),
    Stop,
}

impl View for Action {
    type V = ActionView;

    open spec fn view(&self) -> ActionView {
        match *self {
            Action::SendCommand(text) => ActionView::SendCommand(text@),
            Action::SendChat(text) => ActionView::SendChat(text@),
            Action::Goto { goal, mining } => ActionView::Goto { goal, mining },
            Action::UseItemOn(pos) => ActionView::UseItemOn(pos),
            Action::ReleaseUseItem => ActionView::ReleaseUseItem,
            Action::SelectHotbarSlot(slot) => ActionView::SelectHotbarSlot(slot),
            Action::SetCarriedItem(slot) => ActionView::SetCarriedItem(slot),
            Action::UseItem => ActionView::UseItem,
            Action::LookAt(index) => ActionView::LookAt(index),
            Action::LoadStasis => ActionView::LoadStasis,
            Action::SaveStasis => ActionView::SaveStasis,
            Action::MarkDmHandled => ActionView::MarkDmHandled,
            Action::Disconnect => ActionView::Disconnect,
            Action::Exit(code) => ActionView::Exit(code),
            Action::Stop => ActionView::Stop,
        }
    }
}

/// A list of actions with their texts as sequences of characters.
pub open spec fn views(actions: Seq<Action>) -> Seq<ActionView> {
    Seq::new(actions.len(), |i: int| actions[i]@)
}

} // verus!
