use stasis_bot::action::{Action, BlockPos, Goal};
use stasis_bot::commands::{
    execute, list_commands, run_command, send_command, speak, tell, PlayerInSight, Surroundings,
};
use stasis_bot::opts::Opts;
use stasis_bot::state::BotState;

fn opts() -> Opts {
    Opts {
        admin: vec!["Alice".to_string(), "Carol".to_string()],
        via: None,
        autolog: false,
        quiet: false,
        no_stasis: false,
        openauthmod: false,
        no_mining: false,
        look_at_players: None,
        enable_pos_command: false,
        auto_eat: false,
        version: "1.2.3".to_string(),
    }
}

fn pos(x: i32, y: i32, z: i32) -> BlockPos {
    BlockPos { x, y, z }
}

fn surroundings() -> Surroundings {
    Surroundings {
        own_block: pos(1, 2, 3),
        players: vec![
            PlayerInSight { name: "Bob".to_string(), block: pos(7, 8, 9) },
            PlayerInSight { name: "Alice".to_string(), block: pos(4, 5, 6) },
            PlayerInSight { name: "Alice".to_string(), block: pos(0, 0, 0) },
        ],
        own_x: "1.500".to_string(),
        own_y: "2.000".to_string(),
        own_z: "-3.250".to_string(),
        world_name: "overworld".to_string(),
    }
}

fn run(opts: &Opts, state: &mut BotState, sender: &str, command: &str, args: &[&str]) -> (bool, Vec<Action>) {
    let args: Vec<String> = args.iter().map(|a| a.to_string()).collect();
    let mut actions = Vec::new();
    let handled =
        execute(opts, state, &surroundings(), sender, command.to_string(), &args, &mut actions);
    (handled, actions)
}

fn msg(text: &str) -> Action {
    Action::SendCommand(text.to_string())
}

const DENIED: &str = "msg Bob Sorry, but you need to be specified as an admin to use this command!";

#[test]
fn help_lists_commands_in_order() {
    let mut o = opts();
    let mut s = BotState::default();
    assert_eq!(
        run(&o, &mut s, "Bob", "help", &[]),
        (true, vec![msg("msg Bob Commands: !about, !admins, !help, !tp")])
    );
    assert_eq!(
        run(&o, &mut s, "aLICE", "!HELP", &[]),
        (true, vec![msg("msg aLICE Commands: !about, !admins, !comehere, !help, !say, !stop, !tp")])
    );
    o.enable_pos_command = true;
    o.no_stasis = true;
    assert_eq!(
        run(&o, &mut s, "Alice", "help", &[]),
        (true, vec![msg("msg Alice Commands: !about, !admins, !comehere, !help, !pos, !say, !stop")])
    );
    o.admin = vec![];
    assert_eq!(
        run(&o, &mut s, "Alice", "help", &[]),
        (true, vec![msg("msg Alice Commands: !about, !help")])
    );
}

#[test]
fn command_list_is_sorted_as_std_sorts() {
    let mut o = opts();
    o.enable_pos_command = true;
    let list = list_commands(&o, true);
    let mut sorted = list.clone();
    sorted.sort_unstable();
    assert_eq!(list, sorted);
    assert_eq!(list.len(), 8);
}

#[test]
fn about_tells_version() {
    assert_eq!(
        run(&opts(), &mut BotState::default(), "Bob", "About", &[]),
        (true, vec![msg("msg Bob Hi, I'm running EnderKill98's azalea-based stasis-bot 1.2.3: github.com/EnderKill98/stasis-bot")])
    );
}

#[test]
fn admins_are_told_to_everybody() {
    let mut o = opts();
    assert_eq!(
        run(&o, &mut BotState::default(), "Bob", "admins", &[]),
        (true, vec![msg("msg Bob Admins: Alice, Carol")])
    );
    o.admin = vec![];
    assert_eq!(
        run(&o, &mut BotState::default(), "Bob", "admins", &[]),
        (true, vec![msg("msg Bob Admins: ")])
    );
}

#[test]
fn tp_walks_to_own_trapdoor() {
    let mut o = opts();
    let mut s = BotState::default();
    s.remembered_trapdoor_positions.insert("Bob".to_string(), pos(10, 64, 20));
    assert_eq!(
        run(&o, &mut s, "Bob", "!tp", &[]),
        (
            true,
            vec![
                msg("msg Bob Walking to your stasis chamber..."),
                Action::Goto { goal: Goal::Reach(pos(10, 64, 20)), mining: true },
            ]
        )
    );
    assert_eq!(s.pathfinding_requested_by, Some("Bob".to_string()));
    assert_eq!(s.return_to_after_pulled, Some(pos(1, 2, 3)));
    assert_eq!(s.remembered_trapdoor_positions.get("Bob"), Some(pos(10, 64, 20)));

    assert_eq!(
        run(&o, &mut s, "Bob", "tp", &[]),
        (true, vec![msg("msg Bob Please ask again in a bit. I'm currently already going somewhere...")])
    );
    assert_eq!(
        run(&o, &mut s, "bob", "tp", &[]),
        (true, vec![msg("msg bob I'm not aware whether you have a pearl here. Sorry!")])
    );
    o.no_stasis = true;
    assert_eq!(
        run(&o, &mut s, "Bob", "tp", &[]),
        (true, vec![msg("msg Bob I'm not allowed to do pearl duties :(...")])
    );
}

#[test]
fn tp_without_mining() {
    let mut o = opts();
    o.no_mining = true;
    o.quiet = true;
    let mut s = BotState::default();
    s.remembered_trapdoor_positions.insert("Bob".to_string(), pos(1, 1, 1));
    assert_eq!(
        run(&o, &mut s, "Bob", "tp", &[]),
        (true, vec![Action::Goto { goal: Goal::Reach(pos(1, 1, 1)), mining: false }])
    );
}

#[test]
fn comehere_walks_to_admin() {
    let o = opts();
    let mut s = BotState::default();
    assert_eq!(run(&o, &mut s, "Bob", "comehere", &[]), (true, vec![msg(DENIED)]));
    assert_eq!(
        run(&o, &mut s, "Alice", "comehere", &[]),
        (
            true,
            vec![
                Action::Goto { goal: Goal::Stand(pos(4, 5, 6)), mining: true },
                msg("msg Alice Walking to your block position..."),
            ]
        )
    );
    assert_eq!(
        run(&o, &mut s, "alice", "comehere", &[]),
        (true, vec![msg("msg alice I could not find you in my render distance!")])
    );
    assert_eq!(s.pathfinding_requested_by, None);
    assert_eq!(s.return_to_after_pulled, None);
}

#[test]
fn say_speaks_for_admins_even_when_quiet() {
    let mut o = opts();
    o.quiet = true;
    let mut s = BotState::default();
    assert_eq!(
        run(&o, &mut s, "Alice", "say", &["hello", "", "there"]),
        (true, vec![Action::SendChat("hello  there".to_string())])
    );
    assert_eq!(
        run(&o, &mut s, "Alice", "say", &["/tell", "Bob", "hi"]),
        (true, vec![msg("tell Bob hi")])
    );
    assert_eq!(
        run(&o, &mut s, "Alice", "say", &[]),
        (true, vec![Action::SendChat("".to_string())])
    );
    assert_eq!(run(&o, &mut s, "Bob", "say", &["x"]), (true, vec![]));
    o.quiet = false;
    assert_eq!(run(&o, &mut s, "Bob", "say", &["x"]), (true, vec![msg(DENIED)]));
}

#[test]
fn stop_is_for_admins() {
    let o = opts();
    let mut s = BotState::default();
    assert_eq!(run(&o, &mut s, "CAROL", "stop", &[]), (true, vec![Action::Stop]));
    assert_eq!(run(&o, &mut s, "Bob", "stop", &[]), (true, vec![msg(DENIED)]));
}

#[test]
fn pos_is_for_admins_where_enabled() {
    let mut o = opts();
    let mut s = BotState::default();
    assert_eq!(run(&o, &mut s, "Bob", "pos", &[]), (true, vec![msg(DENIED)]));
    assert_eq!(
        run(&o, &mut s, "Alice", "pos", &[]),
        (true, vec![msg("msg Alice Sorry, but this command was not enabled. The owner needs to add the flag --enable-pos-command in order to do so!")])
    );
    o.enable_pos_command = true;
    assert_eq!(run(&o, &mut s, "Bob", "pos", &[]), (true, vec![msg(DENIED)]));
    assert_eq!(
        run(&o, &mut s, "Alice", "pos", &[]),
        (true, vec![msg("msg Alice I'm at 1.500 2.000 -3.250 in overworld")])
    );
}

#[test]
fn unknown_commands_do_nothing() {
    let o = opts();
    let mut s = BotState::default();
    for command in ["", "!", "!!tp", "hello", "tp2"] {
        assert_eq!(run(&o, &mut s, "Alice", command, &[]), (false, vec![]));
    }
}

#[test]
fn command_names_are_lowered_once() {
    let o = opts();
    let mut s = BotState::default();
    assert_eq!(run(&o, &mut s, "Bob", "!Tp", &[]).0, true);
    assert_eq!(run(&o, &mut s, "Bob", "\u{130}", &[]).0, false);
    let mut actions = Vec::new();
    assert!(!run_command(&o, &mut s, &surroundings(), "Bob", "TP", &[], &mut actions));
    assert!(run_command(&o, &mut s, &surroundings(), "Bob", "tp", &[], &mut actions));
}

#[test]
fn quiet_bot_answers_nothing() {
    let mut o = opts();
    o.quiet = true;
    let mut s = BotState::default();
    for command in ["help", "about", "tp", "admins", "pos"] {
        assert_eq!(run(&o, &mut s, "Alice", command, &[]), (true, vec![]));
    }
}

#[test]
fn send_command_and_speak() {
    let mut o = opts();
    let mut actions = vec![Action::UseItem];
    send_command(&o, tell("Bob", "hi there"), &mut actions);
    assert_eq!(actions, vec![Action::UseItem, msg("msg Bob hi there")]);
    o.quiet = true;
    send_command(&o, tell("Bob", "hi there"), &mut actions);
    assert_eq!(actions.len(), 2);
    assert_eq!(speak("/gamemode".to_string()), msg("gamemode"));
    assert_eq!(speak(" /x".to_string()), Action::SendChat(" /x".to_string()));
}

#[test]
fn conflicting_options_and_radius() {
    let mut o = opts();
    assert!(!o.conflicting());
    o.openauthmod = true;
    assert!(!o.conflicting());
    o.via = Some("1.20".to_string());
    assert!(o.conflicting());
    o.openauthmod = false;
    assert!(!o.conflicting());
    assert_eq!(o.look_radius_squared(), None);
    o.look_at_players = Some(12);
    assert_eq!(o.look_radius_squared(), Some(144));
    o.look_at_players = Some(0);
    assert_eq!(o.look_radius_squared(), Some(0));
    o.look_at_players = Some(65536);
    assert_eq!(o.look_radius_squared(), Some(4294967296));
    o.look_at_players = Some(u32::MAX);
    assert_eq!(o.look_radius_squared(), Some(18446744065119617025));
    assert!(o.is_admin("ALICE"));
    assert!(!o.is_admin("Bob"));
}
