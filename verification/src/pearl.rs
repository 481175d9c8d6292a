//! Pearls that players throw into their stasis chambers.

use vstd::prelude::*;
use crate::action::{Action, BlockPos};
#[allow(unused_imports)]
use crate::action::{views, ActionView};
use crate::commands::{add_action, send_command, tell};
#[allow(unused_imports)]
use crate::commands::{sent, told};
use crate::opts::Opts;
use crate::state::BotState;
#[allow(unused_imports)]
use crate::state::StateView;
use crate::text::ends_with;
#[allow(unused_imports)]
use crate::trapdoors::elsewhere;

verus! {

/// A player and the number of their entity.
#[derive(Debug)]
pub struct PlayerEntity {
    pub entity_id: u32,
    pub name: String,
}

/// A pearl that appeared in the world.
#[derive(Debug)]
pub struct Pearl {
    /// The number of the entity that threw it.
    pub owner_id: i32,
    /// The block that the pearl is in.
    pub block: BlockPos,
    /// The players whom the bot can see.
    pub players: Vec<PlayerEntity>,
    /// The names of the blocks at the places where the trapdoor may be, where
    /// they are loaded.
    pub nearby: [Option<String>; 11],
}

/// Whether the entity number `id` is `wanted`, written as a signed number of the
/// same 32 bits.
pub open spec fn is_entity(id: u32, wanted: i32) -> bool {
    id == if wanted >= 0 {
        wanted as int
    } else {
        wanted + 0x1_0000_0000
    }
}

/// The name of the first player with this entity number.
pub open spec fn player_name(players: Seq<PlayerEntity>, wanted: i32) -> Option<Seq<char>>
    decreases players.len(),
{
    if players.len() == 0 {
        None
    } else if is_entity(players[0].entity_id, wanted) {
        Some(players[0].name@)
    } else {
        player_name(players.skip(1), wanted)
    }
}

/// How far above the pearl the `i`-th place is where the trapdoor may be: at its
/// height, then one below, one above, two below, two above, and so on.
pub open spec fn height_offset(i: int) -> int {
    if i % 2 == 1 {
        -((i + 1) / 2)
    } else {
        i / 2
    }
}

/// The `i`-th place where the trapdoor of a pearl in `block` may be. There is
/// none where the height is beyond what a position can hold.
pub open spec fn place(block: BlockPos, i: int) -> Option<BlockPos> {
    let y = block.y + height_offset(i);
    if i32::MIN <= y <= i32::MAX {
        Some(BlockPos { x: block.x, y: y as i32, z: block.z })
    } else {
        None
    }
}

/// Whether a block is a trapdoor by its name.
pub open spec fn is_trapdoor(name: Option<String>) -> bool {
    name matches Some(n) && "_trapdoor"@.is_suffix_of(n@)
}

/// Whether the `i`-th place has a trapdoor.
pub open spec fn trapdoor_at(block: BlockPos, nearby: Seq<Option<String>>, i: int) -> bool {
    place(block, i) is Some && is_trapdoor(nearby[i])
}

/// The first place from the `i`-th on that has a trapdoor.
pub open spec fn trapdoor_from(block: BlockPos, nearby: Seq<Option<String>>, i: int) -> Option<
    BlockPos,
>
    decreases nearby.len() - i,
{
    if i >= nearby.len() {
        None
    } else if trapdoor_at(block, nearby, i) {
        place(block, i)
    } else {
        trapdoor_from(block, nearby, i + 1)
    }
}

/// What a pearl leads to: the trapdoor near it belongs to the player who threw
/// it from now on, and to nobody else.
pub open spec fn pearl_thrown(opts: Opts, state: StateView, pearl: Pearl) -> (
    StateView,
    Seq<ActionView>,
) {
    match (player_name(pearl.players@, pearl.owner_id), trapdoor_from(
        pearl.block,
        pearl.nearby@,
        0,
    )) {
        (Some(name), Some(pos)) if !opts.no_stasis && !(state.trapdoors.contains_key(name)
            && state.trapdoors[name] == pos) => {
            (
                StateView {
                    trapdoors: elsewhere(state.trapdoors, pos).insert(name, pos),
                    ..state
                },
                sent(
                    opts,
                    told(
                        name,
                        "You have thrown a pearl. Message me \"tp\" to get back here."@,
                    ),
                ).push(ActionView::SaveStasis),
            )
        },
        _ => (state, Seq::empty()),
    }
}

/// The block `dy` above another one, where there is one.
fn above(block: BlockPos, dy: i32) -> (r: Option<BlockPos>)
    ensures
        match r {
            Some(p) => p.x == block.x && p.y == block.y + dy && p.z == block.z,
            None => !(i32::MIN <= block.y + dy <= i32::MAX),
        },
{
    match block.y.checked_add(dy) {
        Some(y) => Some(BlockPos { x: block.x, y, z: block.z }),
        None => None,
    }
}

/// The places where the trapdoor of a pearl in `block` may be, the most likely
/// one first.
pub fn trapdoor_places(block: BlockPos) -> (places: [Option<BlockPos>; 11])
    ensures
        forall|i: int| 0 <= i < 11 ==> #[trigger] places@[i] == place(block, i),
{
    let places = [
        above(block, 0),
        above(block, -1),
        above(block, 1),
        above(block, -2),
        above(block, 2),
        above(block, -3),
        above(block, 3),
        above(block, -4),
        above(block, 4),
        above(block, -5),
        above(block, 5),
    ];
    places
}

/// The name of the first player with this entity number.
pub fn find_owner(players: &Vec<PlayerEntity>, owner_id: i32) -> (name: Option<String>)
    ensures
        match name {
            Some(n) => player_name(players@, owner_id) == Some(n@),
            None => player_name(players@, owner_id) is None,
        },
{
    let n: usize = players.len();
    let mut i: usize = 0;
    assert(players@.skip(0) =~= players@);
    while i < n
        invariant
            n == players@.len(),
            i <= n,
            player_name(players@, owner_id) == player_name(players@.skip(i as int), owner_id),
        decreases n - i,
    {
        let id: u32 = players[i].entity_id;
        assert((id as i32 == owner_id) <==> (if owner_id >= 0 {
            id as i64 == owner_id as i64
        } else {
            id as i64 == owner_id as i64 + 0x1_0000_0000i64
        })) by (bit_vector);
        if id as i32 == owner_id {
            return Some(players[i].name.clone());
        }
        assert(players@.skip(i as int).skip(1) =~= players@.skip(i + 1));
        i = i + 1;
    }
    None
}

/// The first place with a trapdoor.
pub fn find_trapdoor(block: BlockPos, nearby: &[Option<String>; 11]) -> (pos: Option<BlockPos>)
    ensures
        pos == trapdoor_from(block, nearby@, 0),
{
    let places = trapdoor_places(block);
    let mut i: usize = 0;
    while i < 11
        invariant
            i <= 11,
            forall|j: int| 0 <= j < 11 ==> #[trigger] places@[j] == place(block, j),
            trapdoor_from(block, nearby@, 0) == trapdoor_from(block, nearby@, i as int),
        decreases 11 - i,
    {
        match (&nearby[i], places[i]) {
            (Some(name), Some(place)) => {
                if ends_with(name.as_str(), "_trapdoor") {
                    return Some(place);
                }
            },
            _ => {},
        }
        i = i + 1;
    }
    None
}

/// Takes note of a pearl.
pub fn notice_pearl(
    opts: &Opts,
    bot_state: &mut BotState,
    pearl: &Pearl,
    actions: &mut Vec<Action>,
)
    ensures
        final(bot_state)@ == pearl_thrown(*opts, old(bot_state)@, *pearl).0,
        views(final(actions)@) == views(old(actions)@) + pearl_thrown(
            *opts,
            old(bot_state)@,
            *pearl,
        ).1,
{
    proof {
        assert(views(actions@) + Seq::<ActionView>::empty() =~= views(actions@));
    }
    if opts.no_stasis {
        return;
    }
    let name = match find_owner(&pearl.players, pearl.owner_id) {
        Some(name) => name,
        None => {
            return;
        },
    };
    let pos = match find_trapdoor(pearl.block, &pearl.nearby) {
        Some(pos) => pos,
        None => {
            return;
        },
    };
    match bot_state.remembered_trapdoor_positions.get(name.as_str()) {
        Some(known) => {
            if known == pos {
                return;
            }
        },
        None => {},
    }
    let message = tell(
        name.as_str(),
        "You have thrown a pearl. Message me \"tp\" to get back here.",
    );
    bot_state.remembered_trapdoor_positions.claim(name, pos);
    send_command(opts, message, actions);
    add_action(actions, Action::SaveStasis);
    assert(views(actions@) =~= views(old(actions)@) + pearl_thrown(
        *opts,
        old(bot_state)@,
        *pearl,
    ).1);
}

} // verus!
