//! Chat lines, and the commands among them.

use vstd::prelude::*;
use crate::action::Action;
#[allow(unused_imports)]
use crate::action::{views, ActionView};
use crate::commands::{add_action, execute, Surroundings};
#[allow(unused_imports)]
use crate::commands::{command_name, commanded};
use crate::dm::{parse_direct_message, parse_request};
#[allow(unused_imports)]
use crate::dm::{direct_message, first_word, further_words};
use crate::opts::Opts;
use crate::state::BotState;
#[allow(unused_imports)]
use crate::state::StateView;

verus! {

/// How much time has to pass between two direct messages that are handled, in
/// nanoseconds.
pub const DM_PAUSE_NANOS: u128 = 1_000_000_000;

/// A line of the chat.
#[derive(Debug)]
pub struct ChatLine {
    pub text: String,
    /// The time, on the clock of the bot's state.
    pub now: u128,
    pub surroundings: Surroundings,
}

/// Whether enough time has passed since the last direct message was handled.
pub open spec fn dm_allowed(state: StateView, now: u128) -> bool {
    state.last_dm_handled_at matches Some(at) ==> now - at > DM_PAUSE_NANOS
}

/// What a chat line leads to: a direct message is a command, unless it comes too
/// soon after another one.
pub open spec fn chatted(opts: Opts, state: StateView, line: ChatLine) -> (
    StateView,
    Seq<ActionView>,
) {
    match direct_message(line.text@) {
        Some((sender, content)) if dm_allowed(state, line.now) => {
            let outcome = commanded(
                opts,
                state,
                line.surroundings,
                sender,
                command_name(first_word(content)),
                further_words(content),
            );
            (
                outcome.state,
                if outcome.handled {
                    outcome.actions.push(ActionView::MarkDmHandled)
                } else {
                    outcome.actions
                },
            )
        },
        _ => (state, Seq::empty()),
    }
}

/// Whether enough time has passed since the last direct message was handled.
pub fn may_handle_dm(bot_state: &BotState, now: u128) -> (r: bool)
    ensures
        r == dm_allowed(bot_state@, now),
{
    match bot_state.last_dm_handled_at {
        Some(at) => now > at && now - at > DM_PAUSE_NANOS,
        None => true,
    }
}

/// The state after a direct message was handled.
pub open spec fn dm_marked(state: StateView, now: u128) -> StateView {
    StateView { last_dm_handled_at: Some(now), ..state }
}

/// Takes down when a direct message was handled.
pub fn mark_dm_handled(bot_state: &mut BotState, now: u128)
    ensures
        final(bot_state)@ == (StateView { last_dm_handled_at: Some(now), ..old(bot_state)@ }),
        final(bot_state)@ == dm_marked(old(bot_state)@, now),
{
    bot_state.last_dm_handled_at = Some(now);
}

/// Takes note of a chat line.
pub fn notice_chat(
    opts: &Opts,
    bot_state: &mut BotState,
    line: &ChatLine,
    actions: &mut Vec<Action>,
)
    ensures
        final(bot_state)@ == chatted(*opts, old(bot_state)@, *line).0,
        views(final(actions)@) == views(old(actions)@) + chatted(*opts, old(bot_state)@, *line).1,
{
    match parse_direct_message(line.text.as_str()) {
        Some(dm) => {
            let request = parse_request(dm.content.as_str());
            if may_handle_dm(bot_state, line.now) {
                let handled = execute(
                    opts,
                    bot_state,
                    &line.surroundings,
                    dm.sender.as_str(),
                    request.command,
                    request.args.as_slice(),
                    actions,
                );
                if handled {
                    add_action(actions, Action::MarkDmHandled);
                }
            }
        },
        None => {},
    }
    assert(views(actions@) =~= views(old(actions)@) + chatted(*opts, old(bot_state)@, *line).1);
}

} // verus!
