//! What the bot does on every tick.

use vstd::prelude::*;
use vstd::string::*;
use crate::action::{Action, Goal};
#[allow(unused_imports)]
use crate::action::{views, ActionView};
use crate::commands::{add_action, send_command, speak, tell};
#[allow(unused_imports)]
use crate::commands::{sent, spoken, told};
use crate::opts::Opts;
use crate::state::BotState;
#[allow(unused_imports)]
use crate::state::StateView;

verus! {

/// A player in sight and how far away they are.
#[derive(Debug)]
pub struct Sighting {
    pub entity_id: u32,
    /// The square of the distance, as a number in the same order: the bits of a
    /// floating point number that is not negative.
    pub distance: u64,
}

/// What the bot has before it on a tick.
#[derive(Debug)]
pub struct Tick {
    /// The lines that were typed in since the last tick.
    pub lines: Vec<String>,
    /// The bot is on its way somewhere.
    pub has_goal: bool,
    /// The bot is looking for a way.
    pub is_calculating: bool,
    /// The number of the bot's own entity.
    pub own_id: u32,
    /// The greatest distance at which players are looked at, written as in
    /// `Sighting`.
    pub reach: u64,
    /// The players in sight, perhaps the bot among them.
    pub sightings: Vec<Sighting>,
}

/// What the lines that were typed in lead to, line by line.
pub open spec fn typed(lines: Seq<String>) -> Seq<ActionView> {
    Seq::new(lines.len(), |i: int| spoken(lines[i]@))
}

/// The `i`-th player in sight is another one than the bot, and within reach.
pub open spec fn in_reach(sightings: Seq<Sighting>, own_id: u32, reach: u64, i: int) -> bool {
    0 <= i < sightings.len() && sightings[i].entity_id != own_id && sightings[i].distance <= reach
}

/// The `i`-th player in sight is the closest one, and the first one of those at
/// that distance.
pub open spec fn is_closest(sightings: Seq<Sighting>, own_id: u32, reach: u64, i: int) -> bool {
    &&& in_reach(sightings, own_id, reach, i)
    &&& forall|j: int| #[trigger]
        in_reach(sightings, own_id, reach, j) ==> sightings[i].distance <= sightings[j].distance
    &&& forall|j: int|
        j < i && #[trigger] in_reach(sightings, own_id, reach, j) ==> sightings[i].distance
            < sightings[j].distance
}

/// What looking around leads to: the bot looks at the closest player, unless it
/// is on its way.
pub open spec fn looked(opts: Opts, tick: Tick) -> Seq<ActionView> {
    if opts.look_at_players is Some && !tick.has_goal && exists|i: int|
        is_closest(tick.sightings@, tick.own_id, tick.reach, i) {
        let i = choose|i: int| is_closest(tick.sightings@, tick.own_id, tick.reach, i);
        seq![ActionView::LookAt(i as usize)]
    } else {
        Seq::empty()
    }
}

/// What is done to go back to where the bot came from.
pub open spec fn returning(opts: Opts, state: StateView) -> Seq<ActionView> {
    match state.return_to {
        Some(block) => seq![
            ActionView::Goto { goal: Goal::Stand(block), mining: !opts.no_mining },
        ],
        None => Seq::empty(),
    }
}

/// What arriving at a trapdoor leads to: the bot uses it, forgets it, and goes
/// back.
pub open spec fn arrived(opts: Opts, state: StateView, idle: bool) -> (StateView, Seq<ActionView>) {
    match state.requested_by {
        Some(player) if idle && state.trapdoors.contains_key(player) => (
            StateView {
                trapdoors: state.trapdoors.remove(player),
                requested_by: None,
                return_to: None,
                ..state
            },
            sent(opts, told(player, "Welcome back, "@ + player + "!"@)) + seq![
                ActionView::UseItemOn(state.trapdoors[player]),
            ] + returning(opts, state) + seq![ActionView::SaveStasis],
        ),
        _ => (state, Seq::empty()),
    }
}

/// What a tick leads to.
pub open spec fn ticked(opts: Opts, state: StateView, tick: Tick) -> (StateView, Seq<ActionView>) {
    let pulled = arrived(opts, state, !tick.is_calculating && !tick.has_goal);
    (pulled.0, typed(tick.lines@) + looked(opts, tick) + pulled.1)
}

/// Says the lines that were typed in, in order.
pub fn say_lines(lines: &Vec<String>, actions: &mut Vec<Action>)
    ensures
        views(final(actions)@) == views(old(actions)@) + typed(lines@),
{
    let n: usize = lines.len();
    let mut i: usize = 0;
    assert(views(actions@) =~= views(old(actions)@) + typed(lines@.take(0)));
    while i < n
        invariant
            n == lines@.len(),
            i <= n,
            views(actions@) == views(old(actions)@) + typed(lines@.take(i as int)),
        decreases n - i,
    {
        add_action(actions, speak(lines[i].clone()));
        assert(views(actions@) =~= views(old(actions)@) + typed(lines@.take(i + 1)));
        i = i + 1;
    }
    assert(lines@.take(n as int) =~= lines@);
}

/// The closest player within reach.
pub fn closest_player(sightings: &Vec<Sighting>, own_id: u32, reach: u64) -> (r: Option<usize>)
    ensures
        match r {
            Some(i) => is_closest(sightings@, own_id, reach, i as int),
            None => forall|j: int| !in_reach(sightings@, own_id, reach, j),
        },
{
    let n: usize = sightings.len();
    let mut closest: Option<usize> = None;
    let mut i: usize = 0;
    while i < n
        invariant
            n == sightings@.len(),
            i <= n,
            match closest {
                Some(c) => is_closest(sightings@.take(i as int), own_id, reach, c as int),
                None => forall|j: int| j < i ==> !#[trigger] in_reach(sightings@, own_id, reach, j),
            },
        decreases n - i,
    {
        let ghost upto = sightings@.take(i as int);
        let ghost more = sightings@.take(i + 1);
        let s = &sightings[i];
        proof {
            assert forall|j: int| j < i implies #[trigger] in_reach(more, own_id, reach, j)
                == in_reach(upto, own_id, reach, j) by {}
            assert forall|j: int| j <= i implies #[trigger] in_reach(more, own_id, reach, j)
                == in_reach(sightings@, own_id, reach, j) by {}
        }
        if s.entity_id != own_id && s.distance <= reach {
            let closer = match closest {
                Some(c) => s.distance < sightings[c].distance,
                None => true,
            };
            if closer {
                closest = Some(i);
            }
        }
        proof {
            if let Some(c) = closest {
                assert(in_reach(more, own_id, reach, c as int));
                assert forall|j: int| #[trigger]
                    in_reach(more, own_id, reach, j) implies more[c as int].distance
                    <= more[j].distance by {
                    if j < i {
                        assert(in_reach(upto, own_id, reach, j));
                    }
                }
                assert forall|j: int|
                    j < c && #[trigger] in_reach(more, own_id, reach, j) implies more[c as int].distance
                    < more[j].distance by {
                    assert(in_reach(upto, own_id, reach, j));
                }
            }
        }
        i = i + 1;
    }
    assert(sightings@.take(n as int) =~= sightings@);
    closest
}

/// Looks at the closest player.
pub fn look_around(opts: &Opts, tick: &Tick, actions: &mut Vec<Action>)
    ensures
        views(final(actions)@) == views(old(actions)@) + looked(*opts, *tick),
{
    if opts.look_at_players.is_some() && !tick.has_goal {
        match closest_player(&tick.sightings, tick.own_id, tick.reach) {
            Some(i) => {
                add_action(actions, Action::LookAt(i));
                proof {
                    let k = choose|k: int|
                        is_closest(tick.sightings@, tick.own_id, tick.reach, k);
                    lemma_closest_is(tick.sightings@, tick.own_id, tick.reach, i as int, k);
                }
            },
            None => {},
        }
    }
    assert(views(actions@) =~= views(old(actions)@) + looked(*opts, *tick));
}

/// There is only one first closest player.
proof fn lemma_closest_is(sightings: Seq<Sighting>, own_id: u32, reach: u64, i: int, k: int)
    requires
        is_closest(sightings, own_id, reach, i),
        is_closest(sightings, own_id, reach, k),
    ensures
        i == k,
{
    assert(in_reach(sightings, own_id, reach, i));
    assert(in_reach(sightings, own_id, reach, k));
}

/// Uses the trapdoor of the player who asked for it, once the bot is there.
pub fn pull_trapdoor(opts: &Opts, bot_state: &mut BotState, idle: bool, actions: &mut Vec<Action>)
    ensures
        final(bot_state)@ == arrived(*opts, old(bot_state)@, idle).0,
        views(final(actions)@) == views(old(actions)@) + arrived(*opts, old(bot_state)@, idle).1,
{
    proof {
        assert(views(actions@) + Seq::<ActionView>::empty() =~= views(actions@));
    }
    if !idle {
        return;
    }
    let player = match &bot_state.pathfinding_requested_by {
        Some(player) => player.clone(),
        None => {
            return;
        },
    };
    match bot_state.remembered_trapdoor_positions.remove(player.as_str()) {
        Some(pos) => {
            let mut what = "Welcome back, ".to_owned();
            what.append(player.as_str());
            what.append("!");
            send_command(opts, tell(player.as_str(), what.as_str()), actions);
            add_action(actions, Action::UseItemOn(pos));
            bot_state.pathfinding_requested_by = None;
            match bot_state.return_to_after_pulled.take() {
                Some(block) => {
                    add_action(
                        actions,
                        Action::Goto { goal: Goal::Stand(block), mining: !opts.no_mining },
                    );
                },
                None => {},
            }
            add_action(actions, Action::SaveStasis);
            assert(views(actions@) =~= views(old(actions)@) + arrived(
                *opts,
                old(bot_state)@,
                idle,
            ).1);
        },
        None => {
            assert(bot_state@.trapdoors =~= old(bot_state)@.trapdoors);
        },
    }
}

/// Carries out a tick.
pub fn notice_tick(opts: &Opts, bot_state: &mut BotState, tick: &Tick, actions: &mut Vec<Action>)
    ensures
        final(bot_state)@ == ticked(*opts, old(bot_state)@, *tick).0,
        views(final(actions)@) == views(old(actions)@) + ticked(*opts, old(bot_state)@, *tick).1,
{
    let idle = !tick.is_calculating && !tick.has_goal;
    say_lines(&tick.lines, actions);
    look_around(opts, tick, actions);
    pull_trapdoor(opts, bot_state, idle, actions);
    assert(views(actions@) =~= views(old(actions)@) + ticked(*opts, old(bot_state)@, *tick).1);
}

} // verus!
