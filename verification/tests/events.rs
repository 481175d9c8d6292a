use stasis_bot::action::{Action, BlockPos, Goal};
use stasis_bot::chat::{mark_dm_handled, may_handle_dm, ChatLine};
use stasis_bot::commands::Surroundings;
use stasis_bot::dm::{parse_direct_message, parse_request};
use stasis_bot::events::{handle, Event};
use stasis_bot::health::{find_meal, is_food_item, HotbarItem, Vitals};
use stasis_bot::opts::Opts;
use stasis_bot::pearl::{find_owner, find_trapdoor, trapdoor_places, Pearl, PlayerEntity};
use stasis_bot::state::BotState;
use stasis_bot::swarm::{Rejoin, RejoinAction, RejoinEvent};
use stasis_bot::tick::{closest_player, Sighting, Tick};
use stasis_bot::trapdoors::{Remembered, Trapdoors};

fn opts() -> Opts {
    Opts {
        admin: vec!["Alice".to_string()],
        via: None,
        autolog: false,
        quiet: false,
        no_stasis: false,
        openauthmod: false,
        no_mining: false,
        look_at_players: None,
        enable_pos_command: false,
        auto_eat: false,
        version: "0".to_string(),
    }
}

fn pos(x: i32, y: i32, z: i32) -> BlockPos {
    BlockPos { x, y, z }
}

fn chat(text: &str, now: u128) -> Event {
    Event::Chat(ChatLine {
        text: text.to_string(),
        now,
        surroundings: Surroundings {
            own_block: pos(-1, 70, -1),
            players: vec![],
            own_x: String::new(),
            own_y: String::new(),
            own_z: String::new(),
            world_name: String::new(),
        },
    })
}

fn tick(has_goal: bool, is_calculating: bool) -> Tick {
    Tick {
        lines: vec![],
        has_goal,
        is_calculating,
        own_id: 1,
        reach: 0,
        sightings: vec![],
    }
}

fn pearl(owner_id: i32, block: BlockPos, trapdoor_at: &[usize]) -> Pearl {
    let mut nearby: [Option<String>; 11] = Default::default();
    nearby[1] = Some("minecraft:stone".to_string());
    for i in trapdoor_at {
        nearby[*i] = Some("minecraft:oak_trapdoor".to_string());
    }
    Pearl {
        owner_id,
        block,
        players: vec![
            PlayerEntity { entity_id: 5, name: "Bob".to_string() },
            PlayerEntity { entity_id: 6, name: "Dave".to_string() },
            PlayerEntity { entity_id: u32::MAX, name: "Eve".to_string() },
        ],
        nearby,
    }
}

fn msg(text: &str) -> Action {
    Action::SendCommand(text.to_string())
}

#[test]
fn direct_messages_are_recognised() {
    let dm = |line: &str| parse_direct_message(line).map(|m| (m.sender, m.content));
    let some = |s: &str, c: &str| Some((s.to_string(), c.to_string()));
    assert_eq!(dm("[Bob -> me] tp"), some("Bob", "tp"));
    assert_eq!(dm("[Bob -> me] a -> me] b"), some("Bob", "a "));
    assert_eq!(dm("Bob whispers to you: say hi all"), some("Bob", "say hi all"));
    assert_eq!(dm("<Bob> [x -> me] tp"), None);
    assert_eq!(dm("[Bob] Bob2 whispers to you: tp"), some("[Bob]", "tp"));
    assert_eq!(dm("xwhispers to you: q whispers to you: tp"), some("xwhispers", "q "));
    assert_eq!(dm("whispers to you: tp"), None);
    assert_eq!(dm(""), None);
    assert_eq!(dm("[a-> me] tp"), some("a->", "tp"));
    assert_eq!(dm("[Bob whispers to you: tp"), some("[Bob", "tp"));
    assert_eq!(dm("[Bob whispers to you: a-> me] b"), some("Bob", "b"));
    assert_eq!(dm("Bob whispers to you: a-> me] b"), some("Bob", "a-> me] b"));
}

#[test]
fn requests_are_parted_at_spaces() {
    let r = parse_request("say a  b");
    assert_eq!(r.command, "say");
    assert_eq!(r.args, vec!["a".to_string(), "".to_string(), "b".to_string()]);
    let r = parse_request("tp");
    assert_eq!(r.command, "tp");
    assert!(r.args.is_empty());
    let r = parse_request(" tp");
    assert_eq!(r.command, "");
    assert_eq!(r.args, vec!["tp".to_string()]);
}

#[test]
fn login_loads_unless_there_are_no_duties() {
    let mut o = opts();
    let mut s = BotState::default();
    assert_eq!(handle(&o, &mut s, &Event::Login), vec![Action::LoadStasis]);
    o.no_stasis = true;
    assert_eq!(handle(&o, &mut s, &Event::Login), vec![]);
    assert_eq!(handle(&o, &mut s, &Event::Other), vec![]);
}

#[test]
fn pearls_at_the_ends_of_the_heights() {
    let top = trapdoor_places(pos(0, i32::MAX, 0));
    assert_eq!(top[0], Some(pos(0, i32::MAX, 0)));
    assert_eq!(top[1], Some(pos(0, i32::MAX - 1, 0)));
    assert_eq!(top[2], None);
    assert_eq!(top[9], Some(pos(0, i32::MAX - 5, 0)));
    assert_eq!(top[10], None);
    let bottom = trapdoor_places(pos(0, i32::MIN + 1, 0));
    assert_eq!(bottom[1], Some(pos(0, i32::MIN, 0)));
    assert_eq!(bottom[3], None);
    assert_eq!(bottom[4], Some(pos(0, i32::MIN + 3, 0)));

    // A place that does not exist is passed over.
    let p = pearl(5, pos(0, i32::MAX, 0), &[2, 3]);
    assert_eq!(find_trapdoor(p.block, &p.nearby), Some(pos(0, i32::MAX - 2, 0)));
    let mut s = BotState::default();
    assert_eq!(handle(&opts(), &mut s, &Event::PearlAppeared(p)).len(), 2);
    assert_eq!(s.remembered_trapdoor_positions.get("Bob"), Some(pos(0, i32::MAX - 2, 0)));
}

#[test]
fn pearls_without_consequences() {
    let mut off_duty = opts();
    off_duty.no_stasis = true;
    for y in [i32::MIN, -64, 64, i32::MAX] {
        for (o, p) in [
            (&off_duty, pearl(5, pos(0, y, 0), &[0])),
            (&opts(), pearl(7, pos(0, y, 0), &[0])),
            (&opts(), pearl(5, pos(0, y, 0), &[])),
        ] {
            let mut s = BotState::default();
            assert_eq!(handle(o, &mut s, &Event::PearlAppeared(p)), vec![]);
            assert!(s.save_stasis().is_empty());
        }
    }
}

#[test]
fn pearl_brings_player_back() {
    let o = opts();
    let mut s = BotState::default();
    let thrown = handle(&o, &mut s, &Event::PearlAppeared(pearl(5, pos(10, 64, 20), &[3, 2])));
    assert_eq!(
        thrown,
        vec![
            msg("msg Bob You have thrown a pearl. Message me \"tp\" to get back here."),
            Action::SaveStasis,
        ]
    );
    assert_eq!(s.remembered_trapdoor_positions.get("Bob"), Some(pos(10, 65, 20)));

    let asked = handle(&o, &mut s, &chat("Bob whispers to you: !TP", 5));
    assert_eq!(
        asked,
        vec![
            msg("msg Bob Walking to your stasis chamber..."),
            Action::Goto { goal: Goal::Reach(pos(10, 65, 20)), mining: true },
            Action::MarkDmHandled,
        ]
    );
    assert_eq!(handle(&o, &mut s, &Event::Tick(tick(true, false))), vec![]);
    assert_eq!(handle(&o, &mut s, &Event::Tick(tick(false, true))), vec![]);
    let pulled = handle(&o, &mut s, &Event::Tick(tick(false, false)));
    assert_eq!(
        pulled,
        vec![
            msg("msg Bob Welcome back, Bob!"),
            Action::UseItemOn(pos(10, 65, 20)),
            Action::Goto { goal: Goal::Stand(pos(-1, 70, -1)), mining: true },
            Action::SaveStasis,
        ]
    );
    assert_eq!(s.remembered_trapdoor_positions.get("Bob"), None);
    assert_eq!(s.pathfinding_requested_by, None);
    assert_eq!(s.return_to_after_pulled, None);
    assert_eq!(handle(&o, &mut s, &Event::Tick(tick(false, false))), vec![]);
}

#[test]
fn pearls_that_change_nothing() {
    let mut o = opts();
    let mut s = BotState::default();
    assert_eq!(handle(&o, &mut s, &Event::PearlAppeared(pearl(9, pos(0, 0, 0), &[0]))), vec![]);
    assert_eq!(handle(&o, &mut s, &Event::PearlAppeared(pearl(5, pos(0, 0, 0), &[]))), vec![]);
    assert_eq!(handle(&o, &mut s, &Event::PearlAppeared(pearl(5, pos(0, 0, 0), &[0]))).len(), 2);
    assert_eq!(handle(&o, &mut s, &Event::PearlAppeared(pearl(5, pos(0, 0, 0), &[0]))), vec![]);
    o.no_stasis = true;
    assert_eq!(handle(&o, &mut s, &Event::PearlAppeared(pearl(6, pos(0, 0, 0), &[0]))), vec![]);
    assert_eq!(s.remembered_trapdoor_positions.get("Dave"), None);
}

#[test]
fn trapdoor_has_one_owner() {
    let mut o = opts();
    o.quiet = true;
    let mut s = BotState::default();
    assert_eq!(
        handle(&o, &mut s, &Event::PearlAppeared(pearl(5, pos(0, 0, 0), &[0]))),
        vec![Action::SaveStasis]
    );
    assert_eq!(
        handle(&o, &mut s, &Event::PearlAppeared(pearl(6, pos(0, 0, 0), &[0]))),
        vec![Action::SaveStasis]
    );
    assert_eq!(s.remembered_trapdoor_positions.get("Bob"), None);
    assert_eq!(s.remembered_trapdoor_positions.get("Dave"), Some(pos(0, 0, 0)));
}

#[test]
fn lost_trapdoor_leaves_request_pending() {
    let o = opts();
    let mut s = BotState::default();
    handle(&o, &mut s, &Event::PearlAppeared(pearl(5, pos(0, 0, 0), &[0])));
    handle(&o, &mut s, &chat("[Bob -> me] tp", 0));
    handle(&o, &mut s, &Event::PearlAppeared(pearl(6, pos(0, 0, 0), &[0])));
    assert_eq!(handle(&o, &mut s, &Event::Tick(tick(false, false))), vec![]);
    assert_eq!(s.pathfinding_requested_by, Some("Bob".to_string()));
}

#[test]
fn places_of_a_trapdoor() {
    let places = trapdoor_places(pos(3, 60, -4));
    let heights: Vec<i32> = places.iter().flatten().map(|p| p.y - 60).collect();
    assert_eq!(heights, vec![0, -1, 1, -2, 2, -3, 3, -4, 4, -5, 5]);
    assert!(places.iter().flatten().all(|p| p.x == 3 && p.z == -4));
    let p = pearl(5, pos(3, 60, -4), &[10]);
    assert_eq!(find_trapdoor(p.block, &p.nearby), Some(pos(3, 65, -4)));
    assert_eq!(find_trapdoor(p.block, &Default::default()), None);
}

#[test]
fn owners_are_found_by_signed_number() {
    let p = pearl(5, pos(0, 0, 0), &[]);
    assert_eq!(find_owner(&p.players, 6), Some("Dave".to_string()));
    assert_eq!(find_owner(&p.players, -1), Some("Eve".to_string()));
    assert_eq!(find_owner(&p.players, 0), None);
}

#[test]
fn messages_are_rate_limited() {
    let o = opts();
    let mut s = BotState::default();
    assert!(may_handle_dm(&s, 0));
    assert_eq!(handle(&o, &mut s, &chat("[Bob -> me] nonsense", 7)), vec![]);
    assert_eq!(
        handle(&o, &mut s, &chat("[Bob -> me] admins", 7)),
        vec![msg("msg Bob Admins: Alice"), Action::MarkDmHandled]
    );
    mark_dm_handled(&mut s, 10);
    assert_eq!(s.last_dm_handled_at, Some(10));
    assert_eq!(handle(&o, &mut s, &chat("[Bob -> me] admins", 1_000_000_010)), vec![]);
    assert_eq!(handle(&o, &mut s, &chat("[Bob -> me] admins", 3)), vec![]);
    assert_eq!(handle(&o, &mut s, &chat("[Bob -> me] admins", 1_000_000_011)).len(), 2);
}

#[test]
fn chat_that_is_no_direct_message_is_ignored() {
    let o = opts();
    let mut s = BotState::default();
    assert_eq!(handle(&o, &mut s, &chat("<Alice> stop", 0)), vec![]);
    assert_eq!(
        handle(&o, &mut s, &chat("[Alice -> me] stop", 0)),
        vec![Action::Stop, Action::MarkDmHandled]
    );
    assert_eq!(
        handle(&o, &mut s, &chat("[Alice -> me] say  two  spaces", 0)),
        vec![Action::SendChat(" two  spaces".to_string()), Action::MarkDmHandled]
    );
}

#[test]
fn totem_and_health_log_out() {
    let mut o = opts();
    let mut s = BotState::default();
    let totem = |own_id, entity_id, event_id| Event::EntityEvent { own_id, entity_id, event_id };
    assert_eq!(handle(&o, &mut s, &totem(3, 3, 35)), vec![]);
    assert_eq!(handle(&o, &mut s, &health(true, true, 20, &[])), vec![]);
    o.autolog = true;
    let out = || vec![Action::Disconnect, Action::Exit(69)];
    assert_eq!(handle(&o, &mut s, &totem(3, 3, 35)), out());
    assert_eq!(handle(&o, &mut s, &totem(3, 4, 35)), vec![]);
    assert_eq!(handle(&o, &mut s, &totem(3, 3, 34)), vec![]);
    assert_eq!(handle(&o, &mut s, &health(true, true, 20, &[])), out());
    assert_eq!(handle(&o, &mut s, &health(false, true, 20, &[])), vec![]);
    assert_eq!(handle(&o, &mut s, &Event::Tick(tick(false, false))), vec![]);
    assert_eq!(handle(&o, &mut s, &chat("[Alice -> me] stop", 0))[0], Action::Stop);
    // Logging out goes before eating.
    o.auto_eat = true;
    assert_eq!(handle(&o, &mut s, &health(true, true, 1, &[(0, "minecraft:apple", true)])), out());
    assert_eq!(s.eating_until_nutrition_over, None);
}

fn health(health_at_limit: bool, hurt: bool, food: u32, items: &[(usize, &str, bool)]) -> Event {
    let mut hotbar: [Option<HotbarItem>; 9] = Default::default();
    for (slot, kind, marked_as_food) in items {
        hotbar[*slot] =
            Some(HotbarItem { kind: kind.to_string(), marked_as_food: *marked_as_food });
    }
    Event::SetHealth(Vitals { health_at_limit, hurt, food, hotbar })
}

#[test]
fn eats_first_food_when_hungry() {
    let mut o = opts();
    let mut s = BotState::default();
    let items = [(0, "minecraft:stone", false), (4, "minecraft:bread", false), (7, "minecraft:apple", false)];
    assert_eq!(handle(&o, &mut s, &health(false, false, 3, &items)), vec![]);
    o.auto_eat = true;
    assert_eq!(handle(&o, &mut s, &health(false, false, 15, &items)), vec![]);
    assert_eq!(handle(&o, &mut s, &health(false, true, 20, &items)), vec![]);
    assert_eq!(handle(&o, &mut s, &health(false, true, 19, &items[..1])), vec![]);
    let eat = || {
        vec![Action::SelectHotbarSlot(4), Action::SetCarriedItem(4), Action::UseItem]
    };
    assert_eq!(handle(&o, &mut s, &health(false, false, 14, &items)), eat());
    assert_eq!(s.eating_until_nutrition_over, Some(14));
    assert_eq!(handle(&o, &mut s, &health(false, false, 14, &items)), vec![]);
    assert_eq!(handle(&o, &mut s, &health(false, false, 13, &items)), vec![]);
    assert_eq!(handle(&o, &mut s, &health(false, true, 19, &items)), vec![Action::ReleaseUseItem]);
    assert_eq!(s.eating_until_nutrition_over, None);
    assert_eq!(handle(&o, &mut s, &health(false, true, 19, &items)), eat());
}

#[test]
fn food_is_known_by_name_or_mark() {
    assert!(is_food_item("minecraft:rabbit_stew"));
    assert!(is_food_item("minecraft:apple"));
    assert!(!is_food_item("apple"));
    assert!(!is_food_item("minecraft:rotten_flesh"));
    let mut hotbar: [Option<HotbarItem>; 9] = Default::default();
    assert_eq!(find_meal(&hotbar), None);
    hotbar[8] = Some(HotbarItem { kind: "x".to_string(), marked_as_food: true });
    assert_eq!(find_meal(&hotbar), Some(8));
    hotbar[2] = Some(HotbarItem { kind: "minecraft:cod".to_string(), marked_as_food: false });
    assert_eq!(find_meal(&hotbar), Some(2));
}

#[test]
fn typed_lines_are_said_in_order() {
    let o = opts();
    let mut s = BotState::default();
    let mut t = tick(true, true);
    t.lines = vec!["hello".to_string(), "/list".to_string(), "".to_string(), "//x".to_string()];
    assert_eq!(
        handle(&o, &mut s, &Event::Tick(t)),
        vec![
            Action::SendChat("hello".to_string()),
            msg("list"),
            Action::SendChat("".to_string()),
            msg("/x"),
        ]
    );
}

fn sightings(list: &[(u32, f64)]) -> Vec<Sighting> {
    list.iter().map(|(id, d)| Sighting { entity_id: *id, distance: d.to_bits() }).collect()
}

#[test]
fn looks_at_closest_player_in_reach() {
    let reach = 25f64.to_bits();
    assert_eq!(closest_player(&sightings(&[(1, 0.0), (2, 24.0), (3, 4.5), (4, 4.5)]), 1, reach), Some(2));
    assert_eq!(closest_player(&sightings(&[(1, 0.0), (2, 25.5)]), 1, reach), None);
    assert_eq!(closest_player(&sightings(&[(2, 25.0)]), 1, reach), Some(0));
    assert_eq!(closest_player(&sightings(&[(2, f64::NAN), (3, f64::INFINITY)]), 1, reach), None);
    assert_eq!(closest_player(&[].into(), 1, reach), None);

    let mut o = opts();
    let mut s = BotState::default();
    let t = |has_goal| Tick {
        reach,
        sightings: sightings(&[(1, 0.0), (7, 9.0)]),
        ..tick(has_goal, false)
    };
    assert_eq!(handle(&o, &mut s, &Event::Tick(t(false))), vec![]);
    o.look_at_players = Some(5);
    assert_eq!(handle(&o, &mut s, &Event::Tick(t(false))), vec![Action::LookAt(1)]);
    assert_eq!(handle(&o, &mut s, &Event::Tick(t(true))), vec![]);
}

#[test]
fn loading_undoes_saving() {
    let mut s = BotState::default();
    s.remembered_trapdoor_positions.insert("Bob".to_string(), pos(1, 2, 3));
    s.remembered_trapdoor_positions.insert("Dave".to_string(), pos(4, 5, 6));
    s.remembered_trapdoor_positions.insert("Bob".to_string(), pos(7, 8, 9));
    let list = s.save_stasis();
    assert_eq!(list.len(), 2);
    let mut t = BotState::default();
    t.remembered_trapdoor_positions.insert("Eve".to_string(), pos(0, 0, 0));
    t.load_stasis(Some(list));
    assert_eq!(t.remembered_trapdoor_positions.get("Bob"), Some(pos(7, 8, 9)));
    assert_eq!(t.remembered_trapdoor_positions.get("Dave"), Some(pos(4, 5, 6)));
    assert_eq!(t.remembered_trapdoor_positions.get("Eve"), None);
    let copy = t.clone();
    t.load_stasis(None);
    assert!(t.save_stasis().is_empty());
    assert_eq!(copy.save_stasis().len(), 2);
    assert!(BotState::stasis_file_usable(true, false));
    assert!(!BotState::stasis_file_usable(true, true));
    assert!(!BotState::stasis_file_usable(false, false));
    assert_eq!(BotState::remembered_trapdoor_positions_path(), "remembered-trapdoor-positions.json");
}

#[test]
fn later_entries_replace_earlier_ones() {
    let entry = |player: &str, x: i32| Remembered { player: player.to_string(), position: pos(x, 0, 0) };
    let mut t = Trapdoors::from_entries(&vec![entry("Bob", 1), entry("Dave", 2), entry("Bob", 3)]);
    assert_eq!(t.get("Bob"), Some(pos(3, 0, 0)));
    assert_eq!(t.entries().len(), 2);
    assert_eq!(t.remove("Bob"), Some(pos(3, 0, 0)));
    assert_eq!(t.remove("Bob"), None);
    t.claim("Eve".to_string(), pos(2, 0, 0));
    assert_eq!(t.get("Dave"), None);
    assert_eq!(t.get("Eve"), Some(pos(2, 0, 0)));
}

#[test]
fn waits_double_up_to_half_an_hour() {
    let mut r = Rejoin::new();
    let mut waits = Vec::new();
    let mut event = RejoinEvent::Disconnected;
    for _ in 0..12 {
        match r.step(event) {
            RejoinAction::Wait(secs) => waits.push(secs),
            other => panic!("{:?}", other),
        }
        assert_eq!(r.step(RejoinEvent::Waited), RejoinAction::Join);
        event = RejoinEvent::JoinFailed;
    }
    assert_eq!(waits, vec![5, 10, 20, 40, 80, 160, 320, 640, 1280, 1800, 1800, 1800]);
    assert_eq!(r.step(RejoinEvent::Joined), RejoinAction::Done);
}

#[test]
fn order_of_entries_is_irrelevant() {
    let entry = |player: &str, x: i32| Remembered { player: player.to_string(), position: pos(x, 0, 0) };
    let a = Trapdoors::from_entries(&vec![entry("Bob", 1), entry("Dave", 2)]);
    let b = Trapdoors::from_entries(&vec![entry("Dave", 2), entry("Bob", 1)]);
    for player in ["Bob", "Dave", "Eve"] {
        assert_eq!(a.get(player), b.get(player));
    }
    assert_eq!(a.clone().get("Dave"), Some(pos(2, 0, 0)));
}

#[test]
fn quiet_bot_speaks_only_when_told_to() {
    let mut o = opts();
    o.quiet = true;
    let mut s = BotState::default();
    s.remembered_trapdoor_positions.insert("Bob".to_string(), pos(0, 0, 0));
    assert_eq!(handle(&o, &mut s, &chat("[Bob -> me] say hi", 0)), vec![Action::MarkDmHandled]);
    assert_eq!(
        handle(&o, &mut s, &chat("[alice -> me] say hi", 0)),
        vec![Action::SendChat("hi".to_string()), Action::MarkDmHandled]
    );
    mark_dm_handled(&mut s, 5);
    assert_eq!(handle(&o, &mut s, &chat("[alice -> me] say hi", 6)), vec![]);

    s.pathfinding_requested_by = Some("Bob".to_string());
    let mut typed = tick(false, false);
    typed.lines = vec!["/list".to_string(), "hello".to_string()];
    assert_eq!(
        handle(&o, &mut s, &Event::Tick(typed)),
        vec![
            msg("list"),
            Action::SendChat("hello".to_string()),
            Action::UseItemOn(pos(0, 0, 0)),
            Action::SaveStasis,
        ]
    );
}

#[test]
fn player_with_a_bracket_gets_back() {
    let o = opts();
    let mut s = BotState::default();
    s.remembered_trapdoor_positions.insert("[Bob".to_string(), pos(0, 0, 0));
    assert_eq!(
        handle(&o, &mut s, &chat("[Bob whispers to you: tp", 0)),
        vec![
            msg("msg [Bob Walking to your stasis chamber..."),
            Action::Goto { goal: Goal::Reach(pos(0, 0, 0)), mining: true },
            Action::MarkDmHandled,
        ]
    );
}

#[test]
fn request_and_trapdoor_are_kept_on_the_way() {
    let mut o = opts();
    let mut s = BotState::default();
    handle(&o, &mut s, &Event::PearlAppeared(pearl(5, pos(0, 0, 0), &[0])));
    handle(&o, &mut s, &Event::PearlAppeared(pearl(6, pos(9, 0, 0), &[0])));
    handle(&o, &mut s, &chat("[Bob -> me] tp", 0));
    o.no_stasis = true;
    for event in [
        Event::Login,
        Event::Other,
        Event::Tick(tick(true, false)),
        Event::Tick(tick(false, true)),
        Event::PearlAppeared(pearl(6, pos(0, 0, 0), &[0])),
        chat("[Dave -> me] tp", 10_000_000_000),
        chat("[Alice -> me] comehere", 10_000_000_000),
        health(true, true, 1, &[]),
    ] {
        handle(&o, &mut s, &event);
        assert_eq!(s.pathfinding_requested_by, Some("Bob".to_string()));
        assert_eq!(s.return_to_after_pulled, Some(pos(-1, 70, -1)));
        assert_eq!(s.remembered_trapdoor_positions.get("Bob"), Some(pos(0, 0, 0)));
        assert_eq!(s.remembered_trapdoor_positions.get("Dave"), Some(pos(9, 0, 0)));
    }
    assert_eq!(handle(&o, &mut s, &Event::Tick(tick(false, false))).len(), 4);
    assert_eq!(s.remembered_trapdoor_positions.get("Bob"), None);
}

#[test]
fn walks_back_without_mining_and_in_silence() {
    let mut o = opts();
    o.no_mining = true;
    o.quiet = true;
    let mut s = BotState::default();
    s.remembered_trapdoor_positions.insert("Bob".to_string(), pos(0, 0, 0));
    assert_eq!(
        handle(&o, &mut s, &chat("[Bob -> me] tp", 0)),
        vec![
            Action::Goto { goal: Goal::Reach(pos(0, 0, 0)), mining: false },
            Action::MarkDmHandled,
        ]
    );
    assert_eq!(
        handle(&o, &mut s, &Event::Tick(tick(false, false))),
        vec![
            Action::UseItemOn(pos(0, 0, 0)),
            Action::Goto { goal: Goal::Stand(pos(-1, 70, -1)), mining: false },
            Action::SaveStasis,
        ]
    );
}

#[test]
fn bot_without_duties_stays_idle() {
    let mut o = opts();
    o.no_stasis = true;
    let mut s = BotState::default();
    s.remembered_trapdoor_positions.insert("Bob".to_string(), pos(0, 0, 0));
    assert_eq!(
        handle(&o, &mut s, &chat("[Bob -> me] tp", 0)),
        vec![msg("msg Bob I'm not allowed to do pearl duties :(..."), Action::MarkDmHandled]
    );
    assert_eq!(handle(&o, &mut s, &Event::Tick(tick(false, false))), vec![]);
    assert_eq!(s.pathfinding_requested_by, None);
}
