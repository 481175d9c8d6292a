//! Everything that happens to the bot, and what it does about it.

use vstd::prelude::*;
use crate::action::Action;
#[allow(unused_imports)]
use crate::action::{views, ActionView};
use crate::chat::{notice_chat, ChatLine};
#[allow(unused_imports)]
use crate::chat::chatted;
use crate::commands::add_action;
use crate::health::{notice_entity_event, notice_health, Vitals};
#[allow(unused_imports)]
use crate::health::{entity_event, health_changed};
use crate::opts::Opts;
use crate::pearl::{notice_pearl, Pearl};
#[allow(unused_imports)]
use crate::pearl::pearl_thrown;
use crate::state::BotState;
#[allow(unused_imports)]
use crate::state::StateView;
use crate::tick::{notice_tick, Tick};
#[allow(unused_imports)]
use crate::tick::ticked;

verus! {

/// Something that happened.
#[derive(Debug)]
pub enum Event {
    /// The bot logged in.
    Login,
    /// A line appeared in the chat.
    Chat(ChatLine),
    /// A pearl appeared in the world.
    PearlAppeared(Pearl),
    /// Something happened to an entity.
    EntityEvent { own_id: u32, entity_id: u32, event_id: u8 },
    /// The server told the bot its health.
    SetHealth(Vitals),
    /// A tick of the game passed.
    Tick(Tick),
    /// Anything else.
    Other,
}

/// What the bot does after it logged in: it reads the trapdoor positions, if it
/// has stasis duties.
pub open spec fn logged_in(opts: Opts) -> Seq<ActionView> {
    if opts.no_stasis {
        Seq::empty()
    } else {
        seq![ActionView::LoadStasis]
    }
}

/// What an event leads to.
pub open spec fn handled(opts: Opts, state: StateView, event: Event) -> (
    StateView,
    Seq<ActionView>,
) {
    match event {
        Event::Login => (state, logged_in(opts)),
        Event::Chat(line) => chatted(opts, state, line),
        Event::PearlAppeared(pearl) => pearl_thrown(opts, state, pearl),
        Event::EntityEvent { own_id, entity_id, event_id } => (
            state,
            entity_event(opts, own_id, entity_id, event_id),
        ),
        Event::SetHealth(vitals) => health_changed(opts, state, vitals),
        Event::Tick(tick) => ticked(opts, state, tick),
        Event::Other => (state, Seq::empty()),
    }
}

/// Decides what to do about an event.
pub fn handle(opts: &Opts, bot_state: &mut BotState, event: &Event) -> (actions: Vec<Action>)
    ensures
        final(bot_state)@ == handled(*opts, old(bot_state)@, *event).0,
        views(actions@) == handled(*opts, old(bot_state)@, *event).1,
{
    let mut actions: Vec<Action> = Vec::new();
    match event {
        Event::Login => {
            if !opts.no_stasis {
                add_action(&mut actions, Action::LoadStasis);
            }
        },
        Event::Chat(line) => notice_chat(opts, bot_state, line, &mut actions),
        Event::PearlAppeared(pearl) => notice_pearl(opts, bot_state, pearl, &mut actions),
        Event::EntityEvent { own_id, entity_id, event_id } => notice_entity_event(
            opts,
            *own_id,
            *entity_id,
            *event_id,
            &mut actions,
        ),
        Event::SetHealth(vitals) => notice_health(opts, bot_state, vitals, &mut actions),
        Event::Tick(tick) => notice_tick(opts, bot_state, tick, &mut actions),
        Event::Other => {},
    }
    assert(views(actions@) =~= handled(*opts, old(bot_state)@, *event).1);
    actions
}

} // verus!
