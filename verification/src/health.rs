//! Health and food.

use vstd::prelude::*;
use crate::action::{Action, EXITCODE_AUTOLOG};
#[allow(unused_imports)]
use crate::action::{views, ActionView};
use crate::commands::add_action;
use crate::opts::Opts;
use crate::state::BotState;
#[allow(unused_imports)]
use crate::state::StateView;
use crate::text::same_text;

verus! {

/// A stack of items in the hotbar.
#[derive(Debug)]
pub struct HotbarItem {
    /// The registry name of the item, such as `minecraft:apple`.
    pub kind: String,
    /// Whether the stack itself says that it is food.
    pub marked_as_food: bool,
}

/// What the server said of the bot's health.
#[derive(Debug)]
pub struct Vitals {
    /// The health is at or below the limit for logging out.
    pub health_at_limit: bool,
    /// The health is below 20, the maximum.
    pub hurt: bool,
    /// The food level, at most 20.
    pub food: u32,
    /// The slots of the hotbar.
    pub hotbar: [Option<HotbarItem>; 9],
}

/// The number of an entity event that says that a totem popped.
pub const TOTEM_POPPED: u8 = 35;

/// The items that are food.
pub open spec fn food_items() -> Seq<Seq<char>> {
    seq![
        "minecraft:apple"@,
        "minecraft:golden_apple"@,
        "minecraft:enchanted_golden_apple"@,
        "minecraft:carrot"@,
        "minecraft:golden_carrot"@,
        "minecraft:melon_slice"@,
        "minecraft:sweet_berries"@,
        "minecraft:glow_berries"@,
        "minecraft:potato"@,
        "minecraft:baked_potato"@,
        "minecraft:beetroot"@,
        "minecraft:dried_kelp"@,
        "minecraft:beef"@,
        "minecraft:cooked_beef"@,
        "minecraft:porkchop"@,
        "minecraft:cooked_porkchop"@,
        "minecraft:mutton"@,
        "minecraft:cooked_mutton"@,
        "minecraft:chicken"@,
        "minecraft:cooked_chicken"@,
        "minecraft:rabbit"@,
        "minecraft:cooked_rabbit"@,
        "minecraft:cod"@,
        "minecraft:cooked_cod"@,
        "minecraft:salmon"@,
        "minecraft:cooked_salmon"@,
        "minecraft:tropical_fish"@,
        "minecraft:bread"@,
        "minecraft:cookie"@,
        "minecraft:pumpkin_pie"@,
        "minecraft:mushroom_stew"@,
        "minecraft:beetroot_soup"@,
        "minecraft:rabbit_stew"@,
    ]
}

/// Whether the bot eats what is in a slot.
pub open spec fn is_edible(slot: Option<HotbarItem>) -> bool {
    slot matches Some(item) && (item.marked_as_food || food_items().contains(item.kind@))
}

/// The number of the first slot from `i` on with something to eat.
pub open spec fn meal_from(hotbar: Seq<Option<HotbarItem>>, i: int) -> Option<int>
    decreases hotbar.len() - i,
{
    if i >= hotbar.len() {
        None
    } else if is_edible(hotbar[i]) {
        Some(i)
    } else {
        meal_from(hotbar, i + 1)
    }
}

/// Whether the bot should eat: at least three drumsticks are missing, or the bot
/// is hurt and anything is missing.
pub open spec fn is_hungry(vitals: Vitals) -> bool {
    vitals.food <= 14 || (vitals.hurt && vitals.food < 20)
}

/// What is done to log out and end the program.
pub open spec fn logged_out() -> Seq<ActionView> {
    seq![ActionView::Disconnect, ActionView::Exit(EXITCODE_AUTOLOG)]
}

/// What a change of health or food leads to: the bot logs out at the limit, else
/// it stops eating once the food has increased, or starts to eat.
pub open spec fn health_changed(opts: Opts, state: StateView, vitals: Vitals) -> (
    StateView,
    Seq<ActionView>,
) {
    if opts.autolog && vitals.health_at_limit {
        (state, logged_out())
    } else {
        match (state.eating_until_nutrition_over, meal_from(vitals.hotbar@, 0)) {
            (Some(level), _) if vitals.food > level => (
                StateView { eating_until_nutrition_over: None, ..state },
                seq![ActionView::ReleaseUseItem],
            ),
            (None, Some(slot)) if opts.auto_eat && is_hungry(vitals) => (
                StateView { eating_until_nutrition_over: Some(vitals.food), ..state },
                seq![
                    ActionView::SelectHotbarSlot(slot as u8),
                    ActionView::SetCarriedItem(slot as u16),
                    ActionView::UseItem,
                ],
            ),
            _ => (state, Seq::empty()),
        }
    }
}

/// What an entity event leads to: the bot logs out where its own totem popped.
pub open spec fn entity_event(opts: Opts, own_id: u32, entity_id: u32, event_id: u8) -> Seq<
    ActionView,
> {
    if opts.autolog && entity_id == own_id && event_id == TOTEM_POPPED {
        logged_out()
    } else {
        Seq::empty()
    }
}

/// Whether an item of this kind is food.
pub fn is_food_item(kind: &str) -> (r: bool)
    ensures
        r == food_items().contains(kind@),
{
    let foods: [&str; 33] = [
        "minecraft:apple",
        "minecraft:golden_apple",
        "minecraft:enchanted_golden_apple",
        "minecraft:carrot",
        "minecraft:golden_carrot",
        "minecraft:melon_slice",
        "minecraft:sweet_berries",
        "minecraft:glow_berries",
        "minecraft:potato",
        "minecraft:baked_potato",
        "minecraft:beetroot",
        "minecraft:dried_kelp",
        "minecraft:beef",
        "minecraft:cooked_beef",
        "minecraft:porkchop",
        "minecraft:cooked_porkchop",
        "minecraft:mutton",
        "minecraft:cooked_mutton",
        "minecraft:chicken",
        "minecraft:cooked_chicken",
        "minecraft:rabbit",
        "minecraft:cooked_rabbit",
        "minecraft:cod",
        "minecraft:cooked_cod",
        "minecraft:salmon",
        "minecraft:cooked_salmon",
        "minecraft:tropical_fish",
        "minecraft:bread",
        "minecraft:cookie",
        "minecraft:pumpkin_pie",
        "minecraft:mushroom_stew",
        "minecraft:beetroot_soup",
        "minecraft:rabbit_stew",
    ];
    assert(food_items() =~= Seq::new(33, |i: int| foods@[i]@));
    let mut i: usize = 0;
    while i < 33
        invariant
            i <= 33,
            food_items().len() == 33,
            forall|j: int| 0 <= j < 33 ==> #[trigger] food_items()[j] == foods@[j]@,
            forall|j: int| 0 <= j < i ==> #[trigger] food_items()[j] != kind@,
        decreases 33 - i,
    {
        if same_text(foods[i], kind) {
            assert(food_items()[i as int] == kind@);
            return true;
        }
        i = i + 1;
    }
    false
}

/// The number of the first slot with something to eat.
pub fn find_meal(hotbar: &[Option<HotbarItem>; 9]) -> (slot: Option<u8>)
    ensures
        match slot {
            Some(i) => meal_from(hotbar@, 0) == Some(i as int),
            None => meal_from(hotbar@, 0) is None,
        },
{
    let mut i: u8 = 0;
    while i < 9
        invariant
            i <= 9,
            meal_from(hotbar@, 0) == meal_from(hotbar@, i as int),
        decreases 9 - i,
    {
        match &hotbar[i as usize] {
            Some(item) => {
                if item.marked_as_food || is_food_item(item.kind.as_str()) {
                    return Some(i);
                }
            },
            None => {},
        }
        i = i + 1;
    }
    None
}

/// Logs out and ends the program.
fn log_out(actions: &mut Vec<Action>)
    ensures
        views(final(actions)@) == views(old(actions)@) + logged_out(),
{
    add_action(actions, Action::Disconnect);
    add_action(actions, Action::Exit(EXITCODE_AUTOLOG));
    assert(views(actions@) =~= views(old(actions)@) + logged_out());
}

/// Takes note of the bot's health and food.
pub fn notice_health(
    opts: &Opts,
    bot_state: &mut BotState,
    vitals: &Vitals,
    actions: &mut Vec<Action>,
)
    ensures
        final(bot_state)@ == health_changed(*opts, old(bot_state)@, *vitals).0,
        views(final(actions)@) == views(old(actions)@) + health_changed(
            *opts,
            old(bot_state)@,
            *vitals,
        ).1,
{
    if opts.autolog && vitals.health_at_limit {
        log_out(actions);
        return;
    }
    match bot_state.eating_until_nutrition_over {
        Some(level) => {
            if vitals.food > level {
                add_action(actions, Action::ReleaseUseItem);
                bot_state.eating_until_nutrition_over = None;
            }
        },
        None => {
            if opts.auto_eat && (vitals.food <= 20 - (3 * 2) || (vitals.hurt && vitals.food < 20)) {
                match find_meal(&vitals.hotbar) {
                    Some(slot) => {
                        add_action(actions, Action::SelectHotbarSlot(slot));
                        add_action(actions, Action::SetCarriedItem(slot as u16));
                        add_action(actions, Action::UseItem);
                        bot_state.eating_until_nutrition_over = Some(vitals.food);
                    },
                    None => {},
                }
            }
        },
    }
    assert(views(actions@) =~= views(old(actions)@) + health_changed(
        *opts,
        old(bot_state)@,
        *vitals,
    ).1);
}

/// Takes note of an entity event.
pub fn notice_entity_event(
    opts: &Opts,
    own_id: u32,
    entity_id: u32,
    event_id: u8,
    actions: &mut Vec<Action>,
)
    ensures
        views(final(actions)@) == views(old(actions)@) + entity_event(
            *opts,
            own_id,
            entity_id,
            event_id,
        ),
{
    if entity_id == own_id && event_id == TOTEM_POPPED && opts.autolog {
        log_out(actions);
    } else {
        assert(views(actions@) =~= views(old(actions)@) + Seq::<ActionView>::empty());
    }
}

} // verus!
