//! The commands that players send by direct message.

use vstd::prelude::*;
use vstd::string::*;
use crate::action::{Action, BlockPos, Goal};
#[allow(unused_imports)]
use crate::action::{views, ActionView};
use crate::opts::Opts;
use crate::state::BotState;
#[allow(unused_imports)]
use crate::state::StateView;
use crate::text::{join, same_text, starts_with_char, to_lowercase, without_first};
#[allow(unused_imports)]
use crate::text::{begins_with, joined, lowercase, texts};

verus! {

/// A player whom the bot can see, and the block that they stand in.
#[derive(Debug)]
pub struct PlayerInSight {
    pub name: String,
    pub block: BlockPos,
}

/// What a command can ask about the world.
#[derive(Debug)]
pub struct Surroundings {
    /// The block that the bot stands in.
    pub own_block: BlockPos,
    /// The players whom the bot can see.
    pub players: Vec<PlayerInSight>,
    /// The bot's coordinates, each written with three decimals.
    pub own_x: String,
    pub own_y: String,
    pub own_z: String,
    /// The name of the world that the bot is in.
    pub world_name: String,
}

/// What a command leads to.
pub struct Outcome {
    /// Whether the command is one that the bot knows.
    pub handled: bool,
    pub state: StateView,
    pub actions: Seq<ActionView>,
}

/// The server command by which the bot tells `player` something.
pub open spec fn told(player: Seq<char>, what: Seq<char>) -> Seq<char> {
    "msg "@ + player + " "@ + what
}

/// What becomes of a server command that the bot sends on its own account: it
/// is suppressed in quiet mode.
pub open spec fn sent(opts: Opts, command: Seq<char>) -> Seq<ActionView> {
    if opts.quiet {
        Seq::empty()
    } else {
        seq![ActionView::SendCommand(command)]
    }
}

/// Text that somebody lets the bot say: a server command where it begins with a
/// slash, else a chat message.
pub open spec fn spoken(text: Seq<char>) -> ActionView {
    if begins_with(text, '/') {
        ActionView::SendCommand(text.skip(1))
    } else {
        ActionView::SendChat(text)
    }
}

/// The block of the first player in sight with this name.
pub open spec fn block_of(players: Seq<PlayerInSight>, name: Seq<char>) -> Option<BlockPos>
    decreases players.len(),
{
    if players.len() == 0 {
        None
    } else if players[0].name@ == name {
        Some(players[0].block)
    } else {
        block_of(players.skip(1), name)
    }
}

/// `list` where `wanted` holds, else nothing.
pub open spec fn only_if(wanted: bool, list: Seq<Seq<char>>) -> Seq<Seq<char>> {
    if wanted {
        list
    } else {
        Seq::empty()
    }
}

/// The commands that a player is told of, in alphabetical order.
pub open spec fn known_commands(opts: Opts, admin: bool) -> Seq<Seq<char>> {
    seq!["!about"@] + only_if(opts.admin@.len() > 0, seq!["!admins"@]) + only_if(
        admin,
        seq!["!comehere"@],
    ) + seq!["!help"@] + only_if(admin && opts.enable_pos_command, seq!["!pos"@]) + only_if(
        admin,
        seq!["!say"@, "!stop"@],
    ) + only_if(!opts.no_stasis, seq!["!tp"@])
}

/// What the bot says to a player who may not use a command.
pub open spec fn denial() -> Seq<char> {
    "Sorry, but you need to be specified as an admin to use this command!"@
}

/// An answer that changes nothing.
pub open spec fn answered(opts: Opts, state: StateView, sender: Seq<char>, what: Seq<char>) -> Outcome {
    Outcome { handled: true, state, actions: sent(opts, told(sender, what)) }
}

/// What the command `tp` does: the bot sets out for the sender's trapdoor.
pub open spec fn teleport_requested(
    opts: Opts,
    state: StateView,
    own_block: BlockPos,
    sender: Seq<char>,
) -> Outcome {
    if opts.no_stasis {
        answered(opts, state, sender, "I'm not allowed to do pearl duties :(..."@)
    } else if !state.trapdoors.contains_key(sender) {
        answered(opts, state, sender, "I'm not aware whether you have a pearl here. Sorry!"@)
    } else if state.requested_by is Some {
        answered(
            opts,
            state,
            sender,
            "Please ask again in a bit. I'm currently already going somewhere..."@,
        )
    } else {
        Outcome {
            handled: true,
            state: StateView {
                requested_by: Some(sender),
                return_to: Some(own_block),
                ..state
            },
            actions: sent(opts, told(sender, "Walking to your stasis chamber..."@)).push(
                ActionView::Goto {
                    goal: Goal::Reach(state.trapdoors[sender]),
                    mining: !opts.no_mining,
                },
            ),
        }
    }
}

/// What the command `comehere` does for an admin: the bot walks to them.
pub open spec fn called_over(
    opts: Opts,
    state: StateView,
    players: Seq<PlayerInSight>,
    sender: Seq<char>,
) -> Outcome {
    match block_of(players, sender) {
        Some(block) => Outcome {
            handled: true,
            state,
            actions: seq![
                ActionView::Goto { goal: Goal::Stand(block), mining: !opts.no_mining },
            ] + sent(opts, told(sender, "Walking to your block position..."@)),
        },
        None => answered(opts, state, sender, "I could not find you in my render distance!"@),
    }
}

/// The coordinates and the world as the bot reports them.
pub open spec fn location(s: Surroundings) -> Seq<char> {
    "I'm at "@ + s.own_x@ + " "@ + s.own_y@ + " "@ + s.own_z@ + " in "@ + s.world_name@
}

/// What the command with the lower case name `name` leads to.
pub open spec fn commanded(
    opts: Opts,
    state: StateView,
    surroundings: Surroundings,
    sender: Seq<char>,
    name: Seq<char>,
    args: Seq<Seq<char>>,
) -> Outcome {
    let admin = opts.has_admin(sender);
    if name == "help"@ {
        answered(
            opts,
            state,
            sender,
            "Commands: "@ + joined(known_commands(opts, admin), ", "@),
        )
    } else if name == "about"@ {
        answered(
            opts,
            state,
            sender,
            "Hi, I'm running EnderKill98's azalea-based stasis-bot "@ + opts.version@
                + ": github.com/EnderKill98/stasis-bot"@,
        )
    } else if name == "tp"@ {
        teleport_requested(opts, state, surroundings.own_block, sender)
    } else if name == "admins"@ {
        answered(opts, state, sender, "Admins: "@ + joined(texts(opts.admin@), ", "@))
    } else if name == "comehere"@ || name == "say"@ || name == "stop"@ || name == "pos"@ {
        if !admin {
            answered(opts, state, sender, denial())
        } else if name == "comehere"@ {
            called_over(opts, state, surroundings.players@, sender)
        } else if name == "say"@ {
            Outcome { handled: true, state, actions: seq![spoken(joined(args, " "@))] }
        } else if name == "stop"@ {
            Outcome { handled: true, state, actions: seq![ActionView::Stop] }
        } else if opts.enable_pos_command {
            answered(opts, state, sender, location(surroundings))
        } else {
            answered(
                opts,
                state,
                sender,
                "Sorry, but this command was not enabled. The owner needs to add the flag --enable-pos-command in order to do so!"@,
            )
        }
    } else {
        Outcome { handled: false, state, actions: Seq::empty() }
    }
}

/// The name of a command as it was sent: one exclamation mark in front does not
/// count, nor does upper or lower case.
pub open spec fn command_name(command: Seq<char>) -> Seq<char> {
    lowercase(
        if begins_with(command, '!') {
            command.skip(1)
        } else {
            command
        },
    )
}

/// Adds an action to the list.
pub(crate) fn add_action(actions: &mut Vec<Action>, action: Action)
    ensures
        views(final(actions)@) == views(old(actions)@).push(action@),
{
    actions.push(action);
    assert(views(actions@) =~= views(old(actions)@).push(action@));
}

/// The server command by which the bot tells `player` something.
pub fn tell(player: &str, what: &str) -> (command: String)
    ensures
        command@ == told(player@, what@),
{
    let mut command = "msg ".to_owned();
    command.append(player);
    command.append(" ");
    command.append(what);
    command
}

/// Sends a server command on the bot's own account, except in quiet mode.
pub fn send_command(opts: &Opts, command: String, actions: &mut Vec<Action>)
    ensures
        views(final(actions)@) == views(old(actions)@) + sent(*opts, command@),
{
    if !opts.quiet {
        add_action(actions, Action::SendCommand(command));
    }
    assert(views(actions@) =~= views(old(actions)@) + sent(*opts, command@));
}

/// Tells `player` something, except in quiet mode.
fn answer(opts: &Opts, player: &str, what: &str, actions: &mut Vec<Action>)
    ensures
        views(final(actions)@) == views(old(actions)@) + sent(*opts, told(player@, what@)),
{
    send_command(opts, tell(player, what), actions);
}

/// Says a text as a server command or as a chat message.
pub fn speak(text: String) -> (action: Action)
    ensures
        action@ == spoken(text@),
{
    if starts_with_char(text.as_str(), '/') {
        Action::SendCommand(without_first(text.as_str()))
    } else {
        Action::SendChat(text)
    }
}

/// The block of the first player in sight with this name.
pub fn find_player(players: &Vec<PlayerInSight>, name: &str) -> (block: Option<BlockPos>)
    ensures
        block == block_of(players@, name@),
{
    let n: usize = players.len();
    let mut i: usize = 0;
    assert(players@.skip(0) =~= players@);
    while i < n
        invariant
            n == players@.len(),
            i <= n,
            block_of(players@, name@) == block_of(players@.skip(i as int), name@),
        decreases n - i,
    {
        if same_text(players[i].name.as_str(), name) {
            return Some(players[i].block);
        }
        assert(players@.skip(i as int).skip(1) =~= players@.skip(i + 1));
        i = i + 1;
    }
    None
}

/// Adds a text to a list.
fn add_text(list: &mut Vec<String>, text: &str)
    ensures
        texts(final(list)@) == texts(old(list)@).push(text@),
{
    list.push(text.to_owned());
    assert(texts(list@) =~= texts(old(list)@).push(text@));
}

/// The commands that a player is told of, in alphabetical order.
pub fn list_commands(opts: &Opts, admin: bool) -> (list: Vec<String>)
    ensures
        texts(list@) == known_commands(*opts, admin),
{
    let mut list: Vec<String> = Vec::new();
    add_text(&mut list, "!about");
    if opts.admin.len() > 0 {
        add_text(&mut list, "!admins");
    }
    if admin {
        add_text(&mut list, "!comehere");
    }
    add_text(&mut list, "!help");
    if admin {
        if opts.enable_pos_command {
            add_text(&mut list, "!pos");
        }
        add_text(&mut list, "!say");
        add_text(&mut list, "!stop");
    }
    if !opts.no_stasis {
        add_text(&mut list, "!tp");
    }
    assert(texts(list@) =~= known_commands(*opts, admin));
    list
}

/// Carries out the command `tp`.
fn request_teleport(
    opts: &Opts,
    bot_state: &mut BotState,
    own_block: BlockPos,
    sender: &str,
    actions: &mut Vec<Action>,
)
    ensures
        ({
            let outcome = teleport_requested(*opts, old(bot_state)@, own_block, sender@);
            &&& final(bot_state)@ == outcome.state
            &&& views(final(actions)@) == views(old(actions)@) + outcome.actions
        }),
{
    if opts.no_stasis {
        answer(opts, sender, "I'm not allowed to do pearl duties :(...", actions);
        return;
    }
    match bot_state.remembered_trapdoor_positions.get(sender) {
        Some(trapdoor) => {
            if bot_state.pathfinding_requested_by.is_some() {
                answer(
                    opts,
                    sender,
                    "Please ask again in a bit. I'm currently already going somewhere...",
                    actions,
                );
                return;
            }
            answer(opts, sender, "Walking to your stasis chamber...", actions);
            bot_state.return_to_after_pulled = Some(own_block);
            add_action(
                actions,
                Action::Goto { goal: Goal::Reach(trapdoor), mining: !opts.no_mining },
            );
            bot_state.pathfinding_requested_by = Some(sender.to_owned());
            assert(views(actions@) =~= views(old(actions)@) + teleport_requested(
                *opts,
                old(bot_state)@,
                own_block,
                sender@,
            ).actions);
        },
        None => {
            answer(
                opts,
                sender,
                "I'm not aware whether you have a pearl here. Sorry!",
                actions,
            );
        },
    }
}

/// Carries out the command `comehere` for an admin.
fn come_here(
    opts: &Opts,
    players: &Vec<PlayerInSight>,
    sender: &str,
    actions: &mut Vec<Action>,
)
    ensures
        forall|state: StateView|
            views(final(actions)@) == views(old(actions)@) + #[trigger] called_over(
                *opts,
                state,
                players@,
                sender@,
            ).actions,
{
    match find_player(players, sender) {
        Some(block) => {
            add_action(
                actions,
                Action::Goto { goal: Goal::Stand(block), mining: !opts.no_mining },
            );
            answer(opts, sender, "Walking to your block position...", actions);
        },
        None => {
            answer(opts, sender, "I could not find you in my render distance!", actions);
        },
    }
    assert forall|state: StateView|
        views(actions@) == views(old(actions)@) + #[trigger] called_over(
            *opts,
            state,
            players@,
            sender@,
        ).actions by {
        assert(views(actions@) =~= views(old(actions)@) + called_over(
            *opts,
            state,
            players@,
            sender@,
        ).actions);
    }
}

/// The coordinates and the world as the bot reports them.
fn locate(s: &Surroundings) -> (what: String)
    ensures
        what@ == location(*s),
{
    let mut what = "I'm at ".to_owned();
    what.append(s.own_x.as_str());
    what.append(" ");
    what.append(s.own_y.as_str());
    what.append(" ");
    what.append(s.own_z.as_str());
    what.append(" in ");
    what.append(s.world_name.as_str());
    what
}

/// Carries out the command with the lower case name `name`. Returns whether the
/// bot knows that command.
pub fn run_command(
    opts: &Opts,
    bot_state: &mut BotState,
    surroundings: &Surroundings,
    sender: &str,
    name: &str,
    args: &[String],
    actions: &mut Vec<Action>,
) -> (handled: bool)
    ensures
        ({
            let outcome = commanded(
                *opts,
                old(bot_state)@,
                *surroundings,
                sender@,
                name@,
                texts(args@),
            );
            &&& handled == outcome.handled
            &&& final(bot_state)@ == outcome.state
            &&& views(final(actions)@) == views(old(actions)@) + outcome.actions
        }),
{
    let admin = opts.is_admin(sender);
    if same_text(name, "help") {
        let mut what = "Commands: ".to_owned();
        what.append(join(list_commands(opts, admin).as_slice(), ", ").as_str());
        answer(opts, sender, what.as_str(), actions);
        true
    } else if same_text(name, "about") {
        let mut what = "Hi, I'm running EnderKill98's azalea-based stasis-bot ".to_owned();
        what.append(opts.version.as_str());
        what.append(": github.com/EnderKill98/stasis-bot");
        answer(opts, sender, what.as_str(), actions);
        true
    } else if same_text(name, "tp") {
        request_teleport(opts, bot_state, surroundings.own_block, sender, actions);
        true
    } else if same_text(name, "admins") {
        let mut what = "Admins: ".to_owned();
        what.append(join(opts.admin.as_slice(), ", ").as_str());
        answer(opts, sender, what.as_str(), actions);
        true
    } else if same_text(name, "comehere") {
        if admin {
            come_here(opts, &surroundings.players, sender, actions);
        } else {
            deny(opts, sender, actions);
        }
        true
    } else if same_text(name, "say") {
        if admin {
            add_action(actions, speak(join(args, " ")));
            assert(views(actions@) =~= views(old(actions)@) + seq![
                spoken(joined(texts(args@), " "@)),
            ]);
        } else {
            deny(opts, sender, actions);
        }
        true
    } else if same_text(name, "stop") {
        if admin {
            add_action(actions, Action::Stop);
            assert(views(actions@) =~= views(old(actions)@) + seq![ActionView::Stop]);
        } else {
            deny(opts, sender, actions);
        }
        true
    } else if same_text(name, "pos") {
        if !admin {
            deny(opts, sender, actions);
        } else if !opts.enable_pos_command {
            answer(
                opts,
                sender,
                "Sorry, but this command was not enabled. The owner needs to add the flag --enable-pos-command in order to do so!",
                actions,
            );
        } else {
            answer(opts, sender, locate(surroundings).as_str(), actions);
        }
        true
    } else {
        assert(views(actions@) =~= views(old(actions)@) + Seq::<ActionView>::empty());
        false
    }
}

/// Turns a player away who is no admin.
fn deny(opts: &Opts, player: &str, actions: &mut Vec<Action>)
    ensures
        views(final(actions)@) == views(old(actions)@) + sent(*opts, told(player@, denial())),
{
    answer(
        opts,
        player,
        "Sorry, but you need to be specified as an admin to use this command!",
        actions,
    );
}

/// Carries out a command as a player sent it. Returns whether the bot knows the
/// command.
pub fn execute(
    opts: &Opts,
    bot_state: &mut BotState,
    surroundings: &Surroundings,
    sender: &str,
    command: String,
    args: &[String],
    actions: &mut Vec<Action>,
) -> (handled: bool)
    ensures
        ({
            let outcome = commanded(
                *opts,
                old(bot_state)@,
                *surroundings,
                sender@,
                command_name(command@),
                texts(args@),
            );
            &&& handled == outcome.handled
            &&& final(bot_state)@ == outcome.state
            &&& views(final(actions)@) == views(old(actions)@) + outcome.actions
        }),
{
    let name = if starts_with_char(command.as_str(), '!') {
        to_lowercase(without_first(command.as_str()).as_str())
    } else {
        to_lowercase(command.as_str())
    };
    run_command(opts, bot_state, surroundings, sender, name.as_str(), args, actions)
}

} // verus!
