//! What the bot does, told by what is sent, walked to and remembered in the end.

use vstd::prelude::*;
#[allow(unused_imports)]
use crate::action::{views, Action, ActionView, BlockPos, Goal};
#[allow(unused_imports)]
use crate::chat::{dm_marked, ChatLine};
#[allow(unused_imports)]
use crate::commands::{
    block_of,
    command_name,
    commanded,
    known_commands,
    sent,
    spoken,
    told,
    Outcome,
    PlayerInSight,
    Surroundings,
};
#[allow(unused_imports)]
use crate::dm::{direct_message, first_word, further_words};
#[allow(unused_imports)]
use crate::events::{handled, Event};
#[allow(unused_imports)]
use crate::health::{food_items, is_edible, meal_from, HotbarItem, Vitals};
#[allow(unused_imports)]
use crate::opts::Opts;
#[allow(unused_imports)]
use crate::pearl::{
    height_offset,
    is_trapdoor,
    place,
    player_name,
    trapdoor_from,
    Pearl,
    PlayerEntity,
};
#[allow(unused_imports)]
use crate::state::{fresh, is_file, is_saved, loaded, BotState, StateView};
#[allow(unused_imports)]
use crate::text::{
    ascii_lower,
    begins_with,
    joined,
    law_join_undoes_split,
    lemma_split_at,
    lemma_split_len,
    lemma_split_none,
    lowercase,
    occurs,
    occurs_at,
    split_pieces,
    texts,
    unicode_lowercase,
};
#[allow(unused_imports)]
use crate::text_laws::{
    law_ascii_case_is_all_that_is_ignored,
    law_lower_case,
    law_occurrence_is_read,
    law_search_is_leftmost,
    reads,
    same_but_case,
};
#[allow(unused_imports)]
use crate::tick::{arrived, in_reach, is_closest, looked, typed, Tick};
#[allow(unused_imports)]
use crate::trapdoors::{as_map, Remembered};

verus! {

/// What is sent where the bot tells `player` something: one message to them, and
/// none in quiet mode.
pub open spec fn whispered(opts: Opts, player: Seq<char>, text: Seq<char>) -> Seq<ActionView> {
    if opts.quiet {
        Seq::empty()
    } else {
        seq![ActionView::SendCommand("msg "@ + player + " "@ + text)]
    }
}

/// What the bot tells a player reaches them to the letter, in a message to them
/// alone, and not in quiet mode.
pub proof fn law_messages_reach_the_player(opts: Opts, player: Seq<char>, text: Seq<char>)
    ensures
        sent(opts, told(player, text)) == whispered(opts, player, text),
        forall|command: Seq<char>|
            !opts.quiet ==> #[trigger] sent(opts, command) == seq![
                ActionView::SendCommand(command),
            ],
        opts.quiet ==> sent(opts, told(player, text)).len() == 0,
{
}

/// One of the admins has this name, but for the case of the letters from A to Z.
pub open spec fn names_admin(opts: Opts, name: Seq<char>) -> bool {
    exists|i: int| 0 <= i < opts.admin@.len() && same_but_case(#[trigger] opts.admin@[i]@, name)
}

/// An admin is known by their name, whatever the case of its ASCII letters, and
/// nobody else is an admin.
pub proof fn law_admins_are_known_by_name(opts: Opts, name: Seq<char>)
    ensures
        opts.has_admin(name) <==> names_admin(opts, name),
{
    assert forall|i: int| 0 <= i < opts.admin@.len() implies (ascii_lower(
        #[trigger] opts.admin@[i]@,
    ) == ascii_lower(name)) == same_but_case(opts.admin@[i]@, name) by {
        law_ascii_case_is_all_that_is_ignored(opts.admin@[i]@, name);
    }
    if opts.has_admin(name) {
        let i = choose|i: int|
            0 <= i < opts.admin@.len() && ascii_lower(#[trigger] opts.admin@[i]@) == ascii_lower(
                name,
            );
        assert(same_but_case(opts.admin@[i]@, name));
    }
    if names_admin(opts, name) {
        let i = choose|i: int|
            0 <= i < opts.admin@.len() && same_but_case(#[trigger] opts.admin@[i]@, name);
        assert(ascii_lower(opts.admin@[i]@) == ascii_lower(name));
    }
}

/// The names of the commands are all different.
proof fn lemma_names_differ()
    ensures
        "help"@.len() == 4 && "help"@[0] == 'h',
        "about"@.len() == 5,
        "tp"@.len() == 2,
        "admins"@.len() == 6,
        "comehere"@.len() == 8,
        "say"@.len() == 3 && "say"@[0] == 's',
        "stop"@.len() == 4 && "stop"@[0] == 's',
        "pos"@.len() == 3 && "pos"@[0] == 'p',
{
    reveal_strlit("help");
    reveal_strlit("about");
    reveal_strlit("tp");
    reveal_strlit("admins");
    reveal_strlit("comehere");
    reveal_strlit("say");
    reveal_strlit("stop");
    reveal_strlit("pos");
}

/// What a command leads to that is answered, and changes nothing.
pub open spec fn only_answers(
    outcome: Outcome,
    opts: Opts,
    state: StateView,
    sender: Seq<char>,
    text: Seq<char>,
) -> bool {
    outcome.handled && outcome.state == state && outcome.actions == whispered(opts, sender, text)
}

/// The commands that anybody may use to learn something are answered to the
/// sender: `help` with the list of commands, `about` with the version, `admins`
/// with the names of all admins in the order of the options.
pub proof fn law_questions_are_answered(
    opts: Opts,
    state: StateView,
    surroundings: Surroundings,
    sender: Seq<char>,
    args: Seq<Seq<char>>,
)
    ensures
        only_answers(
            commanded(opts, state, surroundings, sender, "help"@, args),
            opts,
            state,
            sender,
            "Commands: "@ + joined(known_commands(opts, names_admin(opts, sender)), ", "@),
        ),
        only_answers(
            commanded(opts, state, surroundings, sender, "about"@, args),
            opts,
            state,
            sender,
            "Hi, I'm running EnderKill98's azalea-based stasis-bot "@ + opts.version@
                + ": github.com/EnderKill98/stasis-bot"@,
        ),
        only_answers(
            commanded(opts, state, surroundings, sender, "admins"@, args),
            opts,
            state,
            sender,
            "Admins: "@ + joined(Seq::new(opts.admin@.len(), |i: int| opts.admin@[i]@), ", "@),
        ),
{
    lemma_names_differ();
    law_admins_are_known_by_name(opts, sender);
    assert(texts(opts.admin@) =~= Seq::new(opts.admin@.len(), |i: int| opts.admin@[i]@));
}

/// Who is no admin is turned away from the commands of the admins.
pub proof fn law_others_are_turned_away(
    opts: Opts,
    state: StateView,
    surroundings: Surroundings,
    sender: Seq<char>,
    name: Seq<char>,
    args: Seq<Seq<char>>,
)
    requires
        !names_admin(opts, sender),
        name == "comehere"@ || name == "say"@ || name == "stop"@ || name == "pos"@,
    ensures
        only_answers(
            commanded(opts, state, surroundings, sender, name, args),
            opts,
            state,
            sender,
            "Sorry, but you need to be specified as an admin to use this command!"@,
        ),
{
    lemma_names_differ();
    law_admins_are_known_by_name(opts, sender);
}

/// An admin can stop the bot, and where that is enabled ask where it is.
pub proof fn law_admins_stop_and_locate(
    opts: Opts,
    state: StateView,
    surroundings: Surroundings,
    sender: Seq<char>,
    args: Seq<Seq<char>>,
)
    requires
        names_admin(opts, sender),
    ensures
        ({
            let stop = commanded(opts, state, surroundings, sender, "stop"@, args);
            stop.handled && stop.state == state && stop.actions == seq![ActionView::Stop]
        }),
        opts.enable_pos_command ==> only_answers(
            commanded(opts, state, surroundings, sender, "pos"@, args),
            opts,
            state,
            sender,
            "I'm at "@ + surroundings.own_x@ + " "@ + surroundings.own_y@ + " "@
                + surroundings.own_z@ + " in "@ + surroundings.world_name@,
        ),
        !opts.enable_pos_command ==> only_answers(
            commanded(opts, state, surroundings, sender, "pos"@, args),
            opts,
            state,
            sender,
            "Sorry, but this command was not enabled. The owner needs to add the flag --enable-pos-command in order to do so!"@,
        ),
{
    lemma_names_differ();
    law_admins_are_known_by_name(opts, sender);
}

/// A text behind a slash is sent as a server command to the letter, without that
/// slash; any other text is sent to the chat to the letter.
pub proof fn law_text_is_spoken_to_the_letter(text: Seq<char>)
    ensures
        spoken(seq!['/'] + text) == ActionView::SendCommand(text),
        !(text.len() > 0 && text[0] == '/') ==> spoken(text) == ActionView::SendChat(text),
{
    assert((seq!['/'] + text).skip(1) =~= text);
}

/// What a text becomes that the bot is to say.
pub open spec fn says(text: Seq<char>, action: ActionView) -> bool {
    match action {
        ActionView::SendCommand(command) => text == seq!['/'] + command,
        ActionView::SendChat(message) => text == message && !(text.len() > 0 && text[0] == '/'),
        _ => false,
    }
}

/// The action for a text says it.
proof fn lemma_spoken_says(text: Seq<char>)
    ensures
        says(text, spoken(text)),
{
    if begins_with(text, '/') {
        assert(text =~= seq!['/'] + text.skip(1));
    }
}

/// An admin's `say` does nothing but say the arguments, with a space between each
/// two of them.
pub proof fn law_admins_say(
    opts: Opts,
    state: StateView,
    surroundings: Surroundings,
    sender: Seq<char>,
    args: Seq<Seq<char>>,
)
    requires
        names_admin(opts, sender),
    ensures
        ({
            let outcome = commanded(opts, state, surroundings, sender, "say"@, args);
            &&& outcome.handled && outcome.state == state
            &&& outcome.actions.len() == 1
            &&& says(joined(args, " "@), outcome.actions[0])
        }),
{
    lemma_names_differ();
    law_admins_are_known_by_name(opts, sender);
    lemma_spoken_says(joined(args, " "@));
}

/// The `i`-th player of the list has the name, and no player before them has.
pub open spec fn first_with_name(players: Seq<PlayerInSight>, name: Seq<char>, i: int) -> bool {
    0 <= i < players.len() && players[i].name@ == name && forall|j: int|
        0 <= j < i ==> (#[trigger] players[j]).name@ != name
}

/// A player is found where the first one of that name stands.
pub proof fn law_first_player_of_name_is_found(
    players: Seq<PlayerInSight>,
    name: Seq<char>,
    i: int,
)
    requires
        first_with_name(players, name, i),
    ensures
        block_of(players, name) == Some(players[i].block),
    decreases i,
{
    if i > 0 {
        assert(players[0].name@ != name);
        let rest = players.skip(1);
        assert forall|j: int| 0 <= j < i - 1 implies (#[trigger] rest[j]).name@ != name by {
            assert(rest[j] == players[j + 1]);
        }
        law_first_player_of_name_is_found(rest, name, i - 1);
    }
}

/// A player is not found only where nobody has that name.
pub proof fn law_missing_player_is_not_found(players: Seq<PlayerInSight>, name: Seq<char>)
    ensures
        block_of(players, name) is None <==> forall|j: int|
            0 <= j < players.len() ==> (#[trigger] players[j]).name@ != name,
    decreases players.len(),
{
    if players.len() > 0 {
        let rest = players.skip(1);
        law_missing_player_is_not_found(rest, name);
        if players[0].name@ != name {
            assert forall|j: int| 0 <= j < rest.len() implies #[trigger] rest[j] == players[j
                + 1] by {}
            if block_of(players, name) is None {
                assert forall|j: int| 0 <= j < players.len() implies (
                #[trigger] players[j]).name@ != name by {
                    if j > 0 {
                        assert(rest[j - 1].name@ != name);
                    }
                }
            }
        }
    }
}

/// An admin's `comehere` sends the bot onto the block of the first player of that
/// name, and nowhere where there is none.
pub proof fn law_admins_call_the_bot(
    opts: Opts,
    state: StateView,
    surroundings: Surroundings,
    sender: Seq<char>,
    args: Seq<Seq<char>>,
)
    requires
        names_admin(opts, sender),
    ensures
        ({
            let players = surroundings.players@;
            let outcome = commanded(opts, state, surroundings, sender, "comehere"@, args);
            &&& forall|i: int| #[trigger]
                first_with_name(players, sender, i) ==> {
                    &&& outcome.handled && outcome.state == state
                    &&& outcome.actions == seq![
                        ActionView::Goto {
                            goal: Goal::Stand(players[i].block),
                            mining: !opts.no_mining,
                        },
                    ] + whispered(opts, sender, "Walking to your block position..."@)
                }
            &&& (forall|j: int| 0 <= j < players.len() ==> (#[trigger] players[j]).name@ != sender)
                ==> only_answers(
                outcome,
                opts,
                state,
                sender,
                "I could not find you in my render distance!"@,
            )
        }),
{
    lemma_names_differ();
    law_admins_are_known_by_name(opts, sender);
    let players = surroundings.players@;
    law_missing_player_is_not_found(players, sender);
    assert forall|i: int| #[trigger] first_with_name(players, sender, i) implies block_of(
        players,
        sender,
    ) == Some(players[i].block) by {
        law_first_player_of_name_is_found(players, sender, i);
    }
}

/// With `tp` a player sends an idle bot to within reach of their own trapdoor, and
/// the bot keeps in mind for whom it goes and where it stood. It only answers
/// where it has no stasis duties, knows no trapdoor of theirs, or is on its way
/// already.
pub proof fn law_players_ask_for_their_trapdoor(
    opts: Opts,
    state: StateView,
    surroundings: Surroundings,
    sender: Seq<char>,
    args: Seq<Seq<char>>,
)
    ensures
        ({
            let outcome = commanded(opts, state, surroundings, sender, "tp"@, args);
            let known = state.trapdoors.contains_key(sender);
            &&& opts.no_stasis ==> only_answers(
                outcome,
                opts,
                state,
                sender,
                "I'm not allowed to do pearl duties :(..."@,
            )
            &&& !opts.no_stasis && !known ==> only_answers(
                outcome,
                opts,
                state,
                sender,
                "I'm not aware whether you have a pearl here. Sorry!"@,
            )
            &&& !opts.no_stasis && known && state.requested_by is Some ==> only_answers(
                outcome,
                opts,
                state,
                sender,
                "Please ask again in a bit. I'm currently already going somewhere..."@,
            )
            &&& !opts.no_stasis && known && state.requested_by is None ==> {
                &&& outcome.handled
                &&& outcome.actions == whispered(
                    opts,
                    sender,
                    "Walking to your stasis chamber..."@,
                ) + seq![
                    ActionView::Goto {
                        goal: Goal::Reach(state.trapdoors[sender]),
                        mining: !opts.no_mining,
                    },
                ]
                &&& outcome.state.requested_by == Some(sender)
                &&& outcome.state.return_to == Some(surroundings.own_block)
                &&& outcome.state.trapdoors == state.trapdoors
                &&& outcome.state.last_dm_handled_at == state.last_dm_handled_at
                &&& outcome.state.eating_until_nutrition_over == state.eating_until_nutrition_over
            }
        }),
{
    lemma_names_differ();
    let outcome = commanded(opts, state, surroundings, sender, "tp"@, args);
    if !opts.no_stasis && state.trapdoors.contains_key(sender) && state.requested_by is None {
        assert(outcome.actions =~= whispered(opts, sender, "Walking to your stasis chamber..."@)
            + seq![
            ActionView::Goto {
                goal: Goal::Reach(state.trapdoors[sender]),
                mining: !opts.no_mining,
            },
        ]);
    }
}

/// The name of an ASCII command is the command with the letters from A to Z in
/// lower case, and without one exclamation mark in front; that of any other
/// command is what the standard library makes of it.
pub proof fn law_command_names(command: Seq<char>)
    requires
        !(command.len() > 0 && command[0] == '!'),
    ensures
        command_name(seq!['!'] + command) == command_name(command),
        (forall|i: int| 0 <= i < command.len() ==> (#[trigger] command[i]) as int <= 127) ==> {
            &&& command_name(command).len() == command.len()
            &&& forall|i: int|
                0 <= i < command.len() ==> (#[trigger] command_name(command)[i]) as int == if 65
                    <= command[i] as int <= 90 {
                    command[i] as int + 32
                } else {
                    command[i] as int
                }
        },
        (exists|i: int| 0 <= i < command.len() && (#[trigger] command[i]) as int > 127)
            ==> command_name(command) == unicode_lowercase(command),
{
    assert((seq!['!'] + command).skip(1) =~= command);
    law_lower_case(command);
}

/// Only the first of several exclamation marks is left out.
pub proof fn law_one_exclamation_mark_is_left_out(rest: Seq<char>)
    ensures
        command_name(seq!['!', '!'] + rest) == lowercase(seq!['!'] + rest),
{
    assert((seq!['!', '!'] + rest).skip(1) =~= seq!['!'] + rest);
}

/// A text is parted at every space: the command is what stands before the first
/// one, no argument holds a space, and all of them put together with spaces are
/// the text.
pub proof fn law_requests_are_parted_at_spaces(content: Seq<char>)
    ensures
        forall|i: int| 0 <= i < first_word(content).len() ==> #[trigger] first_word(content)[i]
            != ' ',
        forall|k: int, i: int|
            0 <= k < further_words(content).len() && 0 <= i < further_words(content)[k].len()
                ==> #[trigger] further_words(content)[k][i] != ' ',
        joined(seq![first_word(content)] + further_words(content), " "@) == content,
{
    reveal_strlit(" ");
    let pieces = split_pieces(content, " "@);
    lemma_split_len(content, " "@);
    lemma_pieces_have_no_space(content);
    law_join_undoes_split(content, " "@);
    assert(seq![first_word(content)] + further_words(content) =~= pieces);
    assert forall|k: int, i: int|
        0 <= k < further_words(content).len() && 0 <= i < further_words(
            content,
        )[k].len() implies #[trigger] further_words(content)[k][i] != ' ' by {
        assert(further_words(content)[k] == pieces[k + 1]);
        assert(pieces[k + 1][i] != ' ');
    }
}

/// No piece of a text that is parted at spaces holds one.
proof fn lemma_pieces_have_no_space(s: Seq<char>)
    ensures
        forall|k: int, i: int|
            0 <= k < split_pieces(s, " "@).len() && 0 <= i < split_pieces(s, " "@)[k].len()
                ==> #[trigger] split_pieces(s, " "@)[k][i] != ' ',
    decreases s.len(),
{
    reveal_strlit(" ");
    let pieces = split_pieces(s, " "@);
    if exists|j: int| 0 <= j < s.len() && s[j] == ' ' {
        let j = choose|j: int| 0 <= j < s.len() && s[j] == ' ';
        let i = lemma_first_blank(s, j);
        assert(s.subrange(i, i + 1) =~= " "@);
        assert forall|m: int| 0 <= m < i implies !occurs_at(s, " "@, m) by {
            if occurs_at(s, " "@, m) {
                assert(s.subrange(m, m + 1)[0] == s[m]);
            }
        }
        lemma_split_at(s, " "@, i);
        lemma_pieces_have_no_space(s.skip(i + 1));
        let rest = split_pieces(s.skip(i + 1), " "@);
        assert forall|k: int, m: int|
            0 <= k < pieces.len() && 0 <= m < pieces[k].len() implies #[trigger] pieces[k][m]
            != ' ' by {
            if k == 0 {
                assert(pieces[0] == s.take(i));
            } else {
                assert(pieces[k] == rest[k - 1]);
                assert(rest[k - 1][m] != ' ');
            }
        }
    } else {
        assert forall|m: int| !occurs_at(s, " "@, m) by {
            if occurs_at(s, " "@, m) {
                assert(s.subrange(m, m + 1)[0] == s[m]);
            }
        }
        lemma_split_none(s, " "@);
    }
}

/// A text with a space has a first one.
proof fn lemma_first_blank(s: Seq<char>, j: int) -> (i: int)
    requires
        0 <= j < s.len(),
        s[j] == ' ',
    ensures
        0 <= i <= j,
        s[i] == ' ',
        forall|m: int| 0 <= m < i ==> s[m] != ' ',
    decreases j,
{
    if exists|m: int| 0 <= m < j && s[m] == ' ' {
        let m = choose|m: int| 0 <= m < j && s[m] == ' ';
        lemma_first_blank(s, m)
    } else {
        j
    }
}

/// More than a second has passed since the last direct message was handled, or
/// none was handled yet.
pub open spec fn second_has_passed(state: StateView, now: u128) -> bool {
    state.last_dm_handled_at is None || now - state.last_dm_handled_at->0 > 1_000_000_000
}

/// A direct message is carried out as its command where more than a second has
/// passed since the last one was handled, and ignored where not. It counts as
/// handled where the bot knows the command. No other chat line leads to anything.
pub proof fn law_direct_messages_are_carried_out(opts: Opts, state: StateView, line: ChatLine)
    ensures
        ({
            let (after, actions) = handled(opts, state, Event::Chat(line));
            match direct_message(line.text@) {
                Some((sender, content)) => {
                    let outcome = commanded(
                        opts,
                        state,
                        line.surroundings,
                        sender,
                        command_name(first_word(content)),
                        further_words(content),
                    );
                    &&& second_has_passed(state, line.now) ==> after == outcome.state
                    &&& second_has_passed(state, line.now) && outcome.handled ==> actions
                        == outcome.actions + seq![ActionView::MarkDmHandled]
                    &&& second_has_passed(state, line.now) && !outcome.handled ==> actions
                        == outcome.actions
                    &&& !second_has_passed(state, line.now) ==> after == state && actions.len()
                        == 0
                },
                None => after == state && actions.len() == 0,
            }
        }),
{
    if let Some((sender, content)) = direct_message(line.text@) {
        let outcome = commanded(
            opts,
            state,
            line.surroundings,
            sender,
            command_name(first_word(content)),
            further_words(content),
        );
        assert(outcome.actions.push(ActionView::MarkDmHandled) =~= outcome.actions + seq![
            ActionView::MarkDmHandled,
        ]);
    }
}

/// After a direct message was handled, others are ignored for a second and no
/// longer; nothing else changes.
pub proof fn law_handled_message_starts_the_pause(state: StateView, at: u128, now: u128)
    ensures
        second_has_passed(dm_marked(state, at), now) <==> now > at + 1_000_000_000,
        dm_marked(state, at).trapdoors == state.trapdoors,
        dm_marked(state, at).requested_by == state.requested_by,
        dm_marked(state, at).return_to == state.return_to,
        dm_marked(state, at).eating_until_nutrition_over == state.eating_until_nutrition_over,
{
}

/// A chat line is a direct message exactly where it begins with a bracket and
/// holds the arrow, or holds the whisper.
pub proof fn law_direct_messages_have_a_mark(line: Seq<char>)
    ensures
        direct_message(line) is Some <==> {
            ||| line.len() > 0 && line[0] == '[' && exists|i: int| #[trigger]
                reads(line, i, "-> me] "@)
            ||| exists|i: int| #[trigger] reads(line, i, " whispers to you: "@)
        },
{
    law_search_is_leftmost(line, "-> me] "@, 0);
    law_search_is_leftmost(line, " whispers to you: "@, 0);
}

/// `word` is what stands in `s` from position `from` up to the next space.
pub open spec fn is_word_at(s: Seq<char>, from: int, word: Seq<char>) -> bool {
    &&& reads(s, from, word)
    &&& forall|i: int| 0 <= i < word.len() ==> #[trigger] word[i] != ' '
    &&& from + word.len() < s.len() ==> s[from + word.len()] == ' '
}

/// `part` is what stands in `s` from position `from` up to the next `sep`.
pub open spec fn is_part_at(s: Seq<char>, from: int, sep: Seq<char>, part: Seq<char>) -> bool {
    &&& reads(s, from, part)
    &&& from + part.len() < s.len() ==> reads(s, from + part.len(), sep)
    &&& forall|j: int| from <= j < from + part.len() ==> !#[trigger] reads(s, j, sep)
}

/// The leftmost position of a text.
pub open spec fn leftmost(s: Seq<char>, pat: Seq<char>, i: int) -> bool {
    reads(s, i, pat) && forall|j: int| j < i ==> !#[trigger] reads(s, j, pat)
}

/// The first piece of a text is what stands before the leftmost separator.
proof fn lemma_first_piece(s: Seq<char>, sep: Seq<char>)
    requires
        sep.len() > 0,
    ensures
        is_part_at(s, 0, sep, split_pieces(s, sep)[0]),
{
    lemma_split_len(s, sep);
    if occurs(s, sep) {
        let k = choose|k: int| occurs_at(s, sep, k);
        let i = lemma_leftmost(s, sep, k);
        law_search_is_leftmost(s, sep, i);
        lemma_split_at(s, sep, i);
        assert(split_pieces(s, sep)[0] == s.take(i));
        assert(reads(s, 0, s.take(i)));
        assert(is_part_at(s, 0, sep, s.take(i)));
    } else {
        lemma_split_none(s, sep);
        law_search_is_leftmost(s, sep, 0);
        assert(is_part_at(s, 0, sep, s));
    }
}

/// A text that stands somewhere has a leftmost position.
proof fn lemma_leftmost(s: Seq<char>, pat: Seq<char>, k: int) -> (i: int)
    requires
        occurs_at(s, pat, k),
    ensures
        leftmost(s, pat, i),
    decreases k,
{
    law_occurrence_is_read(s, pat, k);
    if exists|j: int| 0 <= j < k && occurs_at(s, pat, j) {
        let j = choose|j: int| 0 <= j < k && occurs_at(s, pat, j);
        lemma_leftmost(s, pat, j)
    } else {
        assert forall|j: int| j < k implies !#[trigger] reads(s, j, pat) by {
            law_occurrence_is_read(s, pat, j);
        }
        k
    }
}

/// The second piece of a text is what stands behind the leftmost separator.
proof fn lemma_second_piece(s: Seq<char>, sep: Seq<char>, i: int)
    requires
        sep.len() > 0,
        leftmost(s, sep, i),
    ensures
        is_part_at(s, i + sep.len(), sep, split_pieces(s, sep)[1]),
{
    law_search_is_leftmost(s, sep, i);
    lemma_split_at(s, sep, i);
    let from = i + sep.len();
    let tail = s.skip(from);
    lemma_split_len(tail, sep);
    lemma_first_piece(tail, sep);
    let part = split_pieces(tail, sep)[0];
    assert(split_pieces(s, sep)[1] == part);
    assert forall|k: int| 0 <= k < part.len() implies s[from + k] == #[trigger] part[k] by {
        assert(tail[0 + k] == part[k]);
    }
    if from + part.len() < s.len() {
        let m = part.len() as int;
        assert(reads(tail, 0 + m, sep));
        assert forall|k: int| 0 <= k < sep.len() implies s[from + m + k] == #[trigger] sep[k] by {
            assert(tail[m + k] == sep[k]);
        }
    }
    assert forall|j: int| from <= j < from + part.len() implies !#[trigger] reads(s, j, sep) by {
        if reads(s, j, sep) {
            assert forall|k: int| 0 <= k < sep.len() implies tail[j - from + k]
                == #[trigger] sep[k] by {
                assert(s[j + k] == sep[k]);
            }
            assert(reads(tail, j - from, sep));
        }
    }
}

/// The first word of a text.
proof fn lemma_first_word(s: Seq<char>)
    ensures
        is_word_at(s, 0, split_pieces(s, " "@)[0]),
{
    reveal_strlit(" ");
    lemma_split_len(s, " "@);
    lemma_first_piece(s, " "@);
    lemma_pieces_have_no_space(s);
    let word = split_pieces(s, " "@)[0];
    assert forall|i: int| 0 <= i < word.len() implies #[trigger] word[i] != ' ' by {
        assert(split_pieces(s, " "@)[0][i] != ' ');
    }
    if word.len() < s.len() {
        let n = word.len() as int;
        assert(reads(s, 0 + n, " "@));
        assert(s[n + 0int] == " "@[0]);
    }
}

/// In a line that begins with a bracket the sender is the word behind it, and the
/// content what stands between the first arrow and the next one.
pub proof fn law_arrow_parts_sender_and_content(line: Seq<char>, i: int)
    requires
        line.len() > 0,
        line[0] == '[',
        leftmost(line, "-> me] "@, i),
    ensures
        direct_message(line) matches Some((sender, content)) && is_word_at(line, 1, sender)
            && is_part_at(line, i + 7, "-> me] "@, content),
{
    reveal_strlit("-> me] ");
    assert("-> me] "@.len() == 7);
    law_search_is_leftmost(line, "-> me] "@, i);
    lemma_second_piece(line, "-> me] "@, i);
    lemma_first_word(line);
    let word = split_pieces(line, " "@)[0];
    assert(word.len() > 0);
    assert(line[0] == word[0]);
    assert forall|k: int| 0 <= k < word.skip(1).len() implies line[1 + k] == #[trigger] word.skip(
        1,
    )[k] by {
        assert(line[0 + (k + 1)] == word[k + 1]);
    }
    assert(is_word_at(line, 1, word.skip(1)));
}

/// In any other line with a whisper the sender is the first word, and the content
/// what stands between the first whisper and the next one.
pub proof fn law_whisper_parts_sender_and_content(line: Seq<char>, i: int)
    requires
        !(line.len() > 0 && line[0] == '[' && exists|j: int| #[trigger]
            reads(line, j, "-> me] "@)),
        exists|j: int| #[trigger] reads(line, j, " whispers to you: "@),
        leftmost(line, "whispers to you: "@, i),
    ensures
        direct_message(line) matches Some((sender, content)) && is_word_at(line, 0, sender)
            && is_part_at(line, i + 17, "whispers to you: "@, content),
{
    reveal_strlit("whispers to you: ");
    assert("whispers to you: "@.len() == 17);
    law_search_is_leftmost(line, "-> me] "@, 0);
    law_search_is_leftmost(line, " whispers to you: "@, 0);
    lemma_second_piece(line, "whispers to you: "@, i);
    lemma_first_word(line);
}

/// The name ends with the nine characters of `_trapdoor`.
pub open spec fn ends_as_trapdoor(name: Seq<char>) -> bool {
    name.len() >= 9 && name.subrange(name.len() - 9, name.len() as int) == seq![
        '_',
        't',
        'r',
        'a',
        'p',
        'd',
        'o',
        'o',
        'r',
    ]
}

/// Every kind of trapdoor is recognised, whatever stands before `_trapdoor` in its
/// name, and no other block is; nor is a block that is not loaded.
pub proof fn law_trapdoors_are_known_by_their_ending(name: String, kind: Seq<char>)
    ensures
        is_trapdoor(Some(name)) <==> ends_as_trapdoor(name@),
        name@ == kind + "_trapdoor"@ ==> is_trapdoor(Some(name)),
        !is_trapdoor(None),
{
    reveal_strlit("_trapdoor");
    let nine = seq!['_', 't', 'r', 'a', 'p', 'd', 'o', 'o', 'r'];
    assert("_trapdoor"@ =~= nine);
    let n = name@;
    if name@ == kind + "_trapdoor"@ {
        assert(n.subrange(n.len() - 9, n.len() as int) =~= nine);
    }
}

/// How far above the pearl the places for its trapdoor are, the first one first.
pub open spec fn offsets() -> Seq<int> {
    seq![0, -1, 1, -2, 2, -3, 3, -4, 4, -5, 5]
}

/// The `k`-th place exists and holds a block whose name ends with `_trapdoor`.
pub open spec fn holds_trapdoor(block: BlockPos, nearby: Seq<Option<String>>, k: int) -> bool {
    &&& 0 <= k < 11
    &&& i32::MIN <= block.y + offsets()[k] <= i32::MAX
    &&& nearby[k] matches Some(name)
    &&& ends_as_trapdoor(name@)
}

/// The `k`-th place is the first one that holds a trapdoor.
pub open spec fn first_trapdoor(block: BlockPos, nearby: Seq<Option<String>>, k: int) -> bool {
    holds_trapdoor(block, nearby, k) && forall|m: int|
        0 <= m < k ==> !#[trigger] holds_trapdoor(block, nearby, m)
}

/// The position is in the column of the block, and as far above it as the `k`-th
/// place.
pub open spec fn is_at(pos: BlockPos, block: BlockPos, k: int) -> bool {
    pos.x == block.x && pos.y == block.y + offsets()[k] && pos.z == block.z
}

/// The places for the trapdoor of a pearl are in its column: at its height, and up
/// to five blocks below and above it.
pub proof fn law_places_are_in_the_column(block: BlockPos, k: int)
    requires
        0 <= k < 11,
    ensures
        match place(block, k) {
            Some(pos) => is_at(pos, block, k),
            None => !(i32::MIN <= block.y + offsets()[k] <= i32::MAX),
        },
{
    assert(height_offset(k) == offsets()[k]);
}

/// Whether a place counts for the search.
proof fn lemma_place_counts(block: BlockPos, nearby: Seq<Option<String>>, k: int)
    requires
        0 <= k < 11,
        nearby.len() == 11,
    ensures
        (place(block, k) is Some && is_trapdoor(nearby[k])) == holds_trapdoor(block, nearby, k),
{
    law_places_are_in_the_column(block, k);
    if let Some(name) = nearby[k] {
        law_trapdoors_are_known_by_their_ending(name, Seq::empty());
    }
}

/// The search goes on where a place holds no trapdoor.
proof fn lemma_search_goes_on(block: BlockPos, nearby: Seq<Option<String>>, from: int, k: int)
    requires
        nearby.len() == 11,
        0 <= from <= k <= 11,
        forall|m: int| from <= m < k ==> !#[trigger] holds_trapdoor(block, nearby, m),
    ensures
        trapdoor_from(block, nearby, from) == trapdoor_from(block, nearby, k),
    decreases k - from,
{
    if from < k {
        assert(!holds_trapdoor(block, nearby, from));
        lemma_place_counts(block, nearby, from);
        lemma_search_goes_on(block, nearby, from + 1, k);
    }
}

/// The search finds the first place that holds a trapdoor.
pub proof fn law_first_trapdoor_is_found(block: BlockPos, nearby: Seq<Option<String>>, k: int)
    requires
        nearby.len() == 11,
        first_trapdoor(block, nearby, k),
    ensures
        trapdoor_from(block, nearby, 0) matches Some(pos) && is_at(pos, block, k),
{
    lemma_search_goes_on(block, nearby, 0, k);
    lemma_place_counts(block, nearby, k);
    law_places_are_in_the_column(block, k);
}

/// The search finds nothing only where no place holds a trapdoor.
pub proof fn law_missing_trapdoor_is_not_found(block: BlockPos, nearby: Seq<Option<String>>)
    requires
        nearby.len() == 11,
        forall|k: int| !#[trigger] holds_trapdoor(block, nearby, k),
    ensures
        trapdoor_from(block, nearby, 0) is None,
{
    lemma_search_goes_on(block, nearby, 0, 11);
}

/// The `j`-th player has the entity number that is `owner` as a signed number of 32
/// bits.
pub open spec fn threw(players: Seq<PlayerEntity>, owner: i32, j: int) -> bool {
    0 <= j < players.len() && (players[j].entity_id == owner || players[j].entity_id == owner
        + 4294967296)
}

/// The `j`-th player is the first one with that entity number.
pub open spec fn first_thrower(players: Seq<PlayerEntity>, owner: i32, j: int) -> bool {
    threw(players, owner, j) && forall|m: int| 0 <= m < j ==> !#[trigger] threw(players, owner, m)
}

/// The thrower is the first player with that entity number.
pub proof fn law_thrower_is_known_by_number(players: Seq<PlayerEntity>, owner: i32, j: int)
    requires
        first_thrower(players, owner, j),
    ensures
        player_name(players, owner) == Some(players[j].name@),
    decreases j,
{
    if j > 0 {
        assert(!threw(players, owner, 0));
        let rest = players.skip(1);
        assert forall|m: int| 0 <= m < j - 1 implies !#[trigger] threw(rest, owner, m) by {
            assert(!threw(players, owner, m + 1));
        }
        law_thrower_is_known_by_number(rest, owner, j - 1);
    }
}

/// There is no thrower only where no player has that entity number.
pub proof fn law_unknown_thrower(players: Seq<PlayerEntity>, owner: i32)
    requires
        forall|j: int| !#[trigger] threw(players, owner, j),
    ensures
        player_name(players, owner) is None,
    decreases players.len(),
{
    if players.len() > 0 {
        assert(!threw(players, owner, 0));
        let rest = players.skip(1);
        assert forall|m: int| !#[trigger] threw(rest, owner, m) by {
            assert(!threw(players, owner, m + 1));
        }
        law_unknown_thrower(rest, owner);
    }
}

/// Only the trapdoors differ.
pub open spec fn same_but_trapdoors(a: StateView, b: StateView) -> bool {
    &&& a.requested_by == b.requested_by
    &&& a.return_to == b.return_to
    &&& a.last_dm_handled_at == b.last_dm_handled_at
    &&& a.eating_until_nutrition_over == b.eating_until_nutrition_over
}

/// A player who throws a pearl near a trapdoor of any kind is told so and owns that
/// trapdoor from then on, whoever else owned it loses it, all others keep theirs,
/// and the positions are saved. Where the trapdoor is theirs already, nothing
/// happens.
pub proof fn law_pearl_gives_trapdoor_to_thrower(
    opts: Opts,
    state: StateView,
    pearl: Pearl,
    j: int,
    k: int,
)
    requires
        !opts.no_stasis,
        first_thrower(pearl.players@, pearl.owner_id, j),
        first_trapdoor(pearl.block, pearl.nearby@, k),
    ensures
        ({
            let player = pearl.players@[j].name@;
            let (after, actions) = handled(opts, state, Event::PearlAppeared(pearl));
            &&& same_but_trapdoors(after, state)
            &&& after.trapdoors.contains_key(player)
            &&& is_at(after.trapdoors[player], pearl.block, k)
            &&& state.trapdoors.contains_key(player) && is_at(
                state.trapdoors[player],
                pearl.block,
                k,
            ) ==> after.trapdoors == state.trapdoors && actions.len() == 0
            &&& !(state.trapdoors.contains_key(player) && is_at(
                state.trapdoors[player],
                pearl.block,
                k,
            )) ==> {
                &&& actions == whispered(
                    opts,
                    player,
                    "You have thrown a pearl. Message me \"tp\" to get back here."@,
                ) + seq![ActionView::SaveStasis]
                &&& forall|q: Seq<char>|
                    q != player ==> (#[trigger] after.trapdoors.contains_key(q) <==> {
                        &&& state.trapdoors.contains_key(q)
                        &&& !is_at(state.trapdoors[q], pearl.block, k)
                    })
                &&& forall|q: Seq<char>|
                    q != player && #[trigger] after.trapdoors.contains_key(q)
                        ==> after.trapdoors[q] == state.trapdoors[q]
            }
        }),
{
    law_thrower_is_known_by_number(pearl.players@, pearl.owner_id, j);
    law_first_trapdoor_is_found(pearl.block, pearl.nearby@, k);
    let player = pearl.players@[j].name@;
    let pos = trapdoor_from(pearl.block, pearl.nearby@, 0)->0;
    assert forall|p: BlockPos| #[trigger] is_at(p, pearl.block, k) == (p == pos) by {}
    let (after, actions) = handled(opts, state, Event::PearlAppeared(pearl));
    if !(state.trapdoors.contains_key(player) && state.trapdoors[player] == pos) {
        assert(actions =~= whispered(
            opts,
            player,
            "You have thrown a pearl. Message me \"tp\" to get back here."@,
        ) + seq![ActionView::SaveStasis]);
    }
}

/// A pearl leads to nothing where the bot has no stasis duties, where no player in
/// sight threw it, or where no place holds a trapdoor.
pub proof fn law_other_pearls_lead_to_nothing(opts: Opts, state: StateView, pearl: Pearl)
    requires
        ({
            ||| opts.no_stasis
            ||| forall|j: int| !#[trigger] threw(pearl.players@, pearl.owner_id, j)
            ||| forall|k: int| !#[trigger] holds_trapdoor(pearl.block, pearl.nearby@, k)
        }),
    ensures
        handled(opts, state, Event::PearlAppeared(pearl)) == (state, Seq::<ActionView>::empty()),
{
    if forall|j: int| !#[trigger] threw(pearl.players@, pearl.owner_id, j) {
        law_unknown_thrower(pearl.players@, pearl.owner_id);
    }
    if forall|k: int| !#[trigger] holds_trapdoor(pearl.block, pearl.nearby@, k) {
        law_missing_trapdoor_is_not_found(pearl.block, pearl.nearby@);
    }
}

/// After a login the positions are read, where the bot has stasis duties; events
/// that the bot does not know lead to nothing.
pub proof fn law_login_reads_positions(opts: Opts, state: StateView)
    ensures
        !opts.no_stasis ==> handled(opts, state, Event::Login) == (
            state,
            seq![ActionView::LoadStasis],
        ),
        opts.no_stasis ==> handled(opts, state, Event::Login) == (
            state,
            Seq::<ActionView>::empty(),
        ),
        handled(opts, state, Event::Other) == (state, Seq::<ActionView>::empty()),
{
}

/// With automatic logout the bot leaves the server and ends with exit code 69 where
/// its own totem pops, which is the entity event 35, or its health is at the limit.
/// No other entity event leads to anything.
pub proof fn law_logout(
    opts: Opts,
    state: StateView,
    vitals: Vitals,
    own_id: u32,
    entity_id: u32,
    event_id: u8,
)
    ensures
        opts.autolog && vitals.health_at_limit ==> handled(opts, state, Event::SetHealth(vitals))
            == (state, seq![ActionView::Disconnect, ActionView::Exit(69)]),
        handled(opts, state, (Event::EntityEvent { own_id, entity_id, event_id }))
            == if opts.autolog && entity_id == own_id && event_id == 35 {
            (state, seq![ActionView::Disconnect, ActionView::Exit(69)])
        } else {
            (state, Seq::<ActionView>::empty())
        },
{
}

/// The items that are food by their kind.
pub open spec fn is_food(kind: Seq<char>) -> bool {
    ||| kind == "minecraft:apple"@
    ||| kind == "minecraft:golden_apple"@
    ||| kind == "minecraft:enchanted_golden_apple"@
    ||| kind == "minecraft:carrot"@
    ||| kind == "minecraft:golden_carrot"@
    ||| kind == "minecraft:melon_slice"@
    ||| kind == "minecraft:sweet_berries"@
    ||| kind == "minecraft:glow_berries"@
    ||| kind == "minecraft:potato"@
    ||| kind == "minecraft:baked_potato"@
    ||| kind == "minecraft:beetroot"@
    ||| kind == "minecraft:dried_kelp"@
    ||| kind == "minecraft:beef"@
    ||| kind == "minecraft:cooked_beef"@
    ||| kind == "minecraft:porkchop"@
    ||| kind == "minecraft:cooked_porkchop"@
    ||| kind == "minecraft:mutton"@
    ||| kind == "minecraft:cooked_mutton"@
    ||| kind == "minecraft:chicken"@
    ||| kind == "minecraft:cooked_chicken"@
    ||| kind == "minecraft:rabbit"@
    ||| kind == "minecraft:cooked_rabbit"@
    ||| kind == "minecraft:cod"@
    ||| kind == "minecraft:cooked_cod"@
    ||| kind == "minecraft:salmon"@
    ||| kind == "minecraft:cooked_salmon"@
    ||| kind == "minecraft:tropical_fish"@
    ||| kind == "minecraft:bread"@
    ||| kind == "minecraft:cookie"@
    ||| kind == "minecraft:pumpkin_pie"@
    ||| kind == "minecraft:mushroom_stew"@
    ||| kind == "minecraft:beetroot_soup"@
    ||| kind == "minecraft:rabbit_stew"@
}

/// The kinds of food.
pub proof fn law_kinds_of_food(kind: Seq<char>)
    ensures
        food_items().contains(kind) <==> is_food(kind),
{
    assert(food_items()[0] == "minecraft:apple"@);
    assert(food_items()[1] == "minecraft:golden_apple"@);
    assert(food_items()[2] == "minecraft:enchanted_golden_apple"@);
    assert(food_items()[3] == "minecraft:carrot"@);
    assert(food_items()[4] == "minecraft:golden_carrot"@);
    assert(food_items()[5] == "minecraft:melon_slice"@);
    assert(food_items()[6] == "minecraft:sweet_berries"@);
    assert(food_items()[7] == "minecraft:glow_berries"@);
    assert(food_items()[8] == "minecraft:potato"@);
    assert(food_items()[9] == "minecraft:baked_potato"@);
    assert(food_items()[10] == "minecraft:beetroot"@);
    assert(food_items()[11] == "minecraft:dried_kelp"@);
    assert(food_items()[12] == "minecraft:beef"@);
    assert(food_items()[13] == "minecraft:cooked_beef"@);
    assert(food_items()[14] == "minecraft:porkchop"@);
    assert(food_items()[15] == "minecraft:cooked_porkchop"@);
    assert(food_items()[16] == "minecraft:mutton"@);
    assert(food_items()[17] == "minecraft:cooked_mutton"@);
    assert(food_items()[18] == "minecraft:chicken"@);
    assert(food_items()[19] == "minecraft:cooked_chicken"@);
    assert(food_items()[20] == "minecraft:rabbit"@);
    assert(food_items()[21] == "minecraft:cooked_rabbit"@);
    assert(food_items()[22] == "minecraft:cod"@);
    assert(food_items()[23] == "minecraft:cooked_cod"@);
    assert(food_items()[24] == "minecraft:salmon"@);
    assert(food_items()[25] == "minecraft:cooked_salmon"@);
    assert(food_items()[26] == "minecraft:tropical_fish"@);
    assert(food_items()[27] == "minecraft:bread"@);
    assert(food_items()[28] == "minecraft:cookie"@);
    assert(food_items()[29] == "minecraft:pumpkin_pie"@);
    assert(food_items()[30] == "minecraft:mushroom_stew"@);
    assert(food_items()[31] == "minecraft:beetroot_soup"@);
    assert(food_items()[32] == "minecraft:rabbit_stew"@);
    if food_items().contains(kind) {
        let k = food_items().index_of(kind);
        assert(food_items()[k] == kind);
        assert(0 <= k < 33);
    }
}

/// The slot holds something that says it is food, or is food by its kind.
pub open spec fn can_be_eaten(slot: Option<HotbarItem>) -> bool {
    slot matches Some(item) && (item.marked_as_food || is_food(item.kind@))
}

/// The `i`-th slot is the first one with something to eat.
pub open spec fn first_meal(hotbar: Seq<Option<HotbarItem>>, i: int) -> bool {
    0 <= i < hotbar.len() && can_be_eaten(hotbar[i]) && forall|j: int|
        0 <= j < i ==> !can_be_eaten(#[trigger] hotbar[j])
}

/// A slot with something to eat.
proof fn lemma_can_be_eaten(slot: Option<HotbarItem>)
    ensures
        is_edible(slot) == can_be_eaten(slot),
{
    if let Some(item) = slot {
        law_kinds_of_food(item.kind@);
    }
}

/// Slots with nothing to eat are passed over.
proof fn lemma_slots_passed_over(hotbar: Seq<Option<HotbarItem>>, from: int, i: int)
    requires
        0 <= from <= i <= hotbar.len(),
        forall|j: int| from <= j < i ==> !can_be_eaten(#[trigger] hotbar[j]),
    ensures
        meal_from(hotbar, from) == meal_from(hotbar, i),
    decreases i - from,
{
    if from < i {
        assert(!can_be_eaten(hotbar[from]));
        lemma_can_be_eaten(hotbar[from]);
        lemma_slots_passed_over(hotbar, from + 1, i);
    }
}

/// The meal is what is in the first slot with something to eat, and there is none
/// only where no slot has.
pub proof fn law_first_meal_is_found(hotbar: Seq<Option<HotbarItem>>)
    ensures
        forall|i: int| #[trigger] first_meal(hotbar, i) ==> meal_from(hotbar, 0) == Some(i),
        (forall|j: int| 0 <= j < hotbar.len() ==> !can_be_eaten(#[trigger] hotbar[j]))
            ==> meal_from(hotbar, 0) is None,
{
    assert forall|i: int| #[trigger] first_meal(hotbar, i) implies meal_from(hotbar, 0) == Some(
        i,
    ) by {
        lemma_slots_passed_over(hotbar, 0, i);
        lemma_can_be_eaten(hotbar[i]);
    }
    if forall|j: int| 0 <= j < hotbar.len() ==> !can_be_eaten(#[trigger] hotbar[j]) {
        lemma_slots_passed_over(hotbar, 0, hotbar.len() as int);
    }
}

/// A bot that is to eat by itself, does not eat yet and does not log out starts to
/// eat what is in the first slot with food exactly where its food is 14 or less, or
/// its health is below the maximum and its food below 20.
pub proof fn law_hungry_bot_eats(opts: Opts, state: StateView, vitals: Vitals, i: int)
    requires
        opts.auto_eat,
        !(opts.autolog && vitals.health_at_limit),
        state.eating_until_nutrition_over is None,
        first_meal(vitals.hotbar@, i),
    ensures
        ({
            let (after, actions) = handled(opts, state, Event::SetHealth(vitals));
            &&& vitals.food <= 14 || vitals.hurt && vitals.food <= 19 ==> {
                &&& actions.len() == 3
                &&& actions[0] matches ActionView::SelectHotbarSlot(slot) && slot == i
                &&& actions[1] matches ActionView::SetCarriedItem(slot) && slot == i
                &&& actions[2] == ActionView::UseItem
                &&& after.eating_until_nutrition_over == Some(vitals.food)
                &&& after.trapdoors == state.trapdoors
                &&& after.requested_by == state.requested_by
                &&& after.return_to == state.return_to
                &&& after.last_dm_handled_at == state.last_dm_handled_at
            }
            &&& vitals.food >= 20 || !vitals.hurt && vitals.food >= 15 ==> after == state
                && actions.len() == 0
        }),
{
    law_first_meal_is_found(vitals.hotbar@);
}

/// The bot does not start to eat where it is not to eat by itself, or has nothing to
/// eat.
pub proof fn law_bot_without_meal_does_nothing(opts: Opts, state: StateView, vitals: Vitals)
    requires
        !opts.auto_eat || forall|j: int|
            0 <= j < 9 ==> !can_be_eaten(#[trigger] vitals.hotbar@[j]),
        !(opts.autolog && vitals.health_at_limit),
        state.eating_until_nutrition_over is None,
    ensures
        handled(opts, state, Event::SetHealth(vitals)) == (state, Seq::<ActionView>::empty()),
{
    law_first_meal_is_found(vitals.hotbar@);
}

/// A bot that eats goes on until its food is more than it was, and then stops, also
/// where it is not to eat by itself.
pub proof fn law_meal_ends_when_food_increased(
    opts: Opts,
    state: StateView,
    vitals: Vitals,
    level: u32,
)
    requires
        !(opts.autolog && vitals.health_at_limit),
        state.eating_until_nutrition_over == Some(level),
    ensures
        ({
            let (after, actions) = handled(opts, state, Event::SetHealth(vitals));
            &&& vitals.food > level ==> {
                &&& actions == seq![ActionView::ReleaseUseItem]
                &&& after.eating_until_nutrition_over is None
                &&& after.trapdoors == state.trapdoors
                &&& after.requested_by == state.requested_by
                &&& after.return_to == state.return_to
                &&& after.last_dm_handled_at == state.last_dm_handled_at
            }
            &&& vitals.food <= level ==> after == state && actions.len() == 0
        }),
{
}

/// The `i`-th player in sight is not the bot itself, and near enough.
pub open spec fn in_view(tick: Tick, i: int) -> bool {
    0 <= i < tick.sightings@.len() && tick.sightings@[i].entity_id != tick.own_id
        && tick.sightings@[i].distance <= tick.reach
}

/// No player in view is nearer than the `i`-th, and none as near comes before them.
pub open spec fn nearest(tick: Tick, i: int) -> bool {
    in_view(tick, i) && forall|j: int| #[trigger]
        in_view(tick, j) ==> {
            ||| tick.sightings@[i].distance < tick.sightings@[j].distance
            ||| tick.sightings@[i].distance == tick.sightings@[j].distance && i <= j
        }
}

/// What a tick leads to behind the lines that were typed and the look at a player:
/// a bot that stands still, and was asked for a trapdoor that is still known,
/// greets the player, uses the trapdoor, walks back, and saves the positions.
pub open spec fn pulls(opts: Opts, state: StateView, tick: Tick, actions: Seq<ActionView>) -> bool {
    match state.requested_by {
        Some(player) if !tick.has_goal && !tick.is_calculating && state.trapdoors.contains_key(
            player,
        ) => actions == whispered(opts, player, "Welcome back, "@ + player + "!"@) + seq![
            ActionView::UseItemOn(state.trapdoors[player]),
        ] + (if state.return_to is Some {
            seq![
                ActionView::Goto {
                    goal: Goal::Stand(state.return_to->0),
                    mining: !opts.no_mining,
                },
            ]
        } else {
            Seq::empty()
        }) + seq![ActionView::SaveStasis],
        _ => actions.len() == 0,
    }
}

/// The parts of what a tick leads to.
proof fn lemma_tick_parts(opts: Opts, state: StateView, tick: Tick)
    ensures
        ({
            let actions = handled(opts, state, Event::Tick(tick)).1;
            let n = tick.lines@.len() as int;
            let look = looked(opts, tick);
            &&& actions.len() >= n + look.len()
            &&& actions.take(n) == typed(tick.lines@)
            &&& actions.subrange(n, n + look.len()) == look
            &&& pulls(opts, state, tick, actions.skip(n + look.len()))
        }),
{
    let actions = handled(opts, state, Event::Tick(tick)).1;
    let n = tick.lines@.len() as int;
    let look = looked(opts, tick);
    let pulled = arrived(opts, state, !tick.is_calculating && !tick.has_goal).1;
    assert(actions == typed(tick.lines@) + look + pulled);
    assert(actions.take(n) =~= typed(tick.lines@));
    assert(actions.subrange(n, n + look.len()) =~= look);
    assert(actions.skip(n + look.len()) =~= pulled);
}

/// On a tick every line that was typed is said to the letter, in order and before
/// all else.
pub proof fn law_typed_lines_are_said(opts: Opts, state: StateView, tick: Tick, i: int)
    requires
        0 <= i < tick.lines@.len(),
    ensures
        i < handled(opts, state, Event::Tick(tick)).1.len(),
        says(tick.lines@[i]@, handled(opts, state, Event::Tick(tick)).1[i]),
{
    lemma_tick_parts(opts, state, tick);
    lemma_spoken_says(tick.lines@[i]@);
    let actions = handled(opts, state, Event::Tick(tick)).1;
    assert(actions.take(tick.lines@.len() as int)[i] == actions[i]);
}

/// A bot that is to look at players and does not walk looks at the nearest one.
pub proof fn law_bot_looks_at_nearest_player(opts: Opts, state: StateView, tick: Tick, i: int)
    requires
        opts.look_at_players is Some,
        !tick.has_goal,
        nearest(tick, i),
    ensures
        ({
            let actions = handled(opts, state, Event::Tick(tick)).1;
            let n = tick.lines@.len() as int;
            &&& actions.len() > n
            &&& actions[n] matches ActionView::LookAt(index) && index == i
            &&& pulls(opts, state, tick, actions.skip(n + 1))
        }),
{
    lemma_tick_parts(opts, state, tick);
    let sightings = tick.sightings@;
    assert(tick.sightings.len() == sightings.len());
    assert forall|j: int| #[trigger]
        in_reach(sightings, tick.own_id, tick.reach, j) == in_view(tick, j) by {}
    assert forall|j: int| #[trigger]
        in_view(tick, j) == in_reach(sightings, tick.own_id, tick.reach, j) by {}
    assert(is_closest(sightings, tick.own_id, tick.reach, i));
    let k = choose|k: int| is_closest(sightings, tick.own_id, tick.reach, k);
    assert(is_closest(sightings, tick.own_id, tick.reach, k));
    assert(in_reach(sightings, tick.own_id, tick.reach, k) && in_view(tick, k));
    assert(in_reach(sightings, tick.own_id, tick.reach, i));
    assert(k == i);
    let actions = handled(opts, state, Event::Tick(tick)).1;
    let n = tick.lines@.len() as int;
    assert(actions.subrange(n, n + 1)[0] == actions[n]);
}

/// The bot looks at nobody where it is not to, walks, or has no player in view.
pub proof fn law_bot_looks_at_nobody(opts: Opts, state: StateView, tick: Tick)
    requires
        opts.look_at_players is None || tick.has_goal || forall|i: int| !#[trigger]
            in_view(tick, i),
    ensures
        ({
            let actions = handled(opts, state, Event::Tick(tick)).1;
            let n = tick.lines@.len() as int;
            actions.len() >= n && pulls(opts, state, tick, actions.skip(n))
        }),
{
    lemma_tick_parts(opts, state, tick);
    if forall|i: int| !#[trigger] in_view(tick, i) {
        assert forall|i: int| !is_closest(tick.sightings@, tick.own_id, tick.reach, i) by {
            assert(!in_view(tick, i));
        }
    }
}

/// A tick on which the bot uses a trapdoor forgets it, the request and the way back,
/// and nothing else; any other tick changes nothing.
pub proof fn law_used_trapdoor_is_forgotten(opts: Opts, state: StateView, tick: Tick)
    ensures
        ({
            let after = handled(opts, state, Event::Tick(tick)).0;
            match state.requested_by {
                Some(player) if !tick.has_goal && !tick.is_calculating
                    && state.trapdoors.contains_key(player) => {
                    &&& after.requested_by is None
                    &&& after.return_to is None
                    &&& after.last_dm_handled_at == state.last_dm_handled_at
                    &&& after.eating_until_nutrition_over == state.eating_until_nutrition_over
                    &&& !after.trapdoors.contains_key(player)
                    &&& forall|q: Seq<char>|
                        q != player ==> (#[trigger] after.trapdoors.contains_key(q)
                            <==> state.trapdoors.contains_key(q))
                    &&& forall|q: Seq<char>|
                        q != player && #[trigger] after.trapdoors.contains_key(q)
                            ==> after.trapdoors[q] == state.trapdoors[q]
                },
                _ => after == state,
            }
        }),
{
}

/// A bot that was just started knows no trapdoor, has no request and no way back,
/// handled no message, and does not eat.
pub proof fn law_bot_starts_afresh()
    ensures
        forall|p: Seq<char>| !#[trigger] fresh().trapdoors.contains_key(p),
        fresh().requested_by is None,
        fresh().return_to is None,
        fresh().last_dm_handled_at is None,
        fresh().eating_until_nutrition_over is None,
{
}

/// What exists and is no directory is read, and nothing else.
pub proof fn law_only_files_are_read(exists: bool, is_dir: bool)
    ensures
        is_file(true, false),
        !is_file(exists, true),
        !is_file(false, is_dir),
{
}

/// The `i`-th entry is the last one for the player.
pub open spec fn last_entry(list: Seq<Remembered>, player: Seq<char>, i: int) -> bool {
    0 <= i < list.len() && list[i].player@ == player && forall|j: int|
        i < j < list.len() ==> (#[trigger] list[j]).player@ != player
}

/// A list of entries gives each player the position of their last entry, and nobody
/// else one.
pub proof fn law_last_entry_counts(list: Seq<Remembered>, player: Seq<char>)
    ensures
        forall|i: int| #[trigger]
            last_entry(list, player, i) ==> as_map(list).contains_key(player)
                && as_map(list)[player] == list[i].position,
        (forall|j: int| 0 <= j < list.len() ==> (#[trigger] list[j]).player@ != player)
            ==> !as_map(list).contains_key(player),
    decreases list.len(),
{
    if list.len() > 0 {
        let init = list.drop_last();
        law_last_entry_counts(init, player);
        assert forall|j: int| 0 <= j < init.len() implies #[trigger] init[j] == list[j] by {}
        assert forall|i: int| #[trigger] last_entry(list, player, i) implies as_map(
            list,
        ).contains_key(player) && as_map(list)[player] == list[i].position by {
            if i < init.len() {
                assert(list[list.len() - 1].player@ != player);
                assert(last_entry(init, player, i));
            }
        }
        if forall|j: int| 0 <= j < list.len() ==> (#[trigger] list[j]).player@ != player {
            assert(list[list.len() - 1].player@ != player);
        }
    }
}

/// After the file was read the bot knows exactly the trapdoors that it lists, and
/// none where there is no file; nothing else changes.
pub proof fn law_file_replaces_trapdoors(
    state: StateView,
    list: Seq<Remembered>,
    player: Seq<char>,
)
    ensures
        same_but_trapdoors(loaded(state, Some(list)), state),
        same_but_trapdoors(loaded(state, None), state),
        !loaded(state, None).trapdoors.contains_key(player),
        forall|i: int| #[trigger]
            last_entry(list, player, i) ==> loaded(state, Some(list)).trapdoors.contains_key(
                player,
            ) && loaded(state, Some(list)).trapdoors[player] == list[i].position,
        (forall|j: int| 0 <= j < list.len() ==> (#[trigger] list[j]).player@ != player)
            ==> !loaded(state, Some(list)).trapdoors.contains_key(player),
{
    law_last_entry_counts(list, player);
}

/// What is saved lists every player who has a trapdoor once, with its position, and
/// nobody else.
pub proof fn law_saved_list_is_complete(state: StateView, list: Seq<Remembered>)
    requires
        is_saved(state, list),
    ensures
        forall|i: int, j: int|
            0 <= i < j < list.len() ==> (#[trigger] list[i]).player@ != (
            #[trigger] list[j]).player@,
        forall|i: int|
            0 <= i < list.len() ==> state.trapdoors.contains_key((#[trigger] list[i]).player@)
                && state.trapdoors[list[i].player@] == list[i].position,
        forall|p: Seq<char>| #[trigger]
            state.trapdoors.contains_key(p) ==> exists|i: int|
                0 <= i < list.len() && (#[trigger] list[i]).player@ == p,
{
    assert forall|i: int, j: int| 0 <= i < j < list.len() implies (#[trigger] list[i]).player@ != (
    #[trigger] list[j]).player@ by {}
    assert forall|i: int| 0 <= i < list.len() implies state.trapdoors.contains_key(
        (#[trigger] list[i]).player@,
    ) && state.trapdoors[list[i].player@] == list[i].position by {
        law_last_entry_counts(list, list[i].player@);
        assert(last_entry(list, list[i].player@, i));
    }
    assert forall|p: Seq<char>| #[trigger] state.trapdoors.contains_key(p) implies exists|i: int|
        0 <= i < list.len() && (#[trigger] list[i]).player@ == p by {
        law_last_entry_counts(list, p);
    }
}

/// Two options exclude each other, and players are looked at up to the number of
/// blocks that was given: whole distances up to it are within reach, and longer ones
/// are not.
pub proof fn law_options(opts: Opts, distance: nat)
    ensures
        opts.excluded() <==> opts.openauthmod && opts.via is Some,
        opts.squared_reach() is Some <==> opts.look_at_players is Some,
        opts.look_at_players is Some ==> {
            &&& distance == opts.look_at_players->0 ==> distance * distance
                == opts.squared_reach()->0
            &&& distance <= opts.look_at_players->0 <==> distance * distance
                <= opts.squared_reach()->0
        },
{
    if let Some(n) = opts.look_at_players {
        let d = distance as int;
        let m = n as int;
        assert(d <= m <==> d * d <= m * m) by (nonlinear_arith)
            requires
                d >= 0,
                m >= 0,
        ;
    }
}

/// The models show what they are models of: the actions with the characters of
/// their texts, in order, and every field of the state.
pub proof fn law_models_are_faithful(actions: Seq<Action>, i: int, state: BotState)
    requires
        0 <= i < actions.len(),
    ensures
        views(actions).len() == actions.len(),
        match actions[i] {
            Action::SendCommand(text) => views(actions)[i] == ActionView::SendCommand(text@),
            Action::SendChat(text) => views(actions)[i] == ActionView::SendChat(text@),
            Action::Goto { goal, mining } => views(actions)[i] == (ActionView::Goto {
                goal,
                mining,
            }),
            Action::UseItemOn(pos) => views(actions)[i] == ActionView::UseItemOn(pos),
            Action::ReleaseUseItem => views(actions)[i] is ReleaseUseItem,
            Action::SelectHotbarSlot(slot) => views(actions)[i] == ActionView::SelectHotbarSlot(
                slot,
            ),
            Action::SetCarriedItem(slot) => views(actions)[i] == ActionView::SetCarriedItem(slot),
            Action::UseItem => views(actions)[i] is UseItem,
            Action::LookAt(index) => views(actions)[i] == ActionView::LookAt(index),
            Action::LoadStasis => views(actions)[i] is LoadStasis,
            Action::SaveStasis => views(actions)[i] is SaveStasis,
            Action::MarkDmHandled => views(actions)[i] is MarkDmHandled,
            Action::Disconnect => views(actions)[i] is Disconnect,
            Action::Exit(code) => views(actions)[i] == ActionView::Exit(code),
            Action::Stop => views(actions)[i] is Stop,
        },
        state@.trapdoors == state.remembered_trapdoor_positions@,
        state@.requested_by is Some <==> state.pathfinding_requested_by is Some,
        state.pathfinding_requested_by matches Some(player) ==> state@.requested_by == Some(
            player@,
        ),
        state@.return_to == state.return_to_after_pulled,
        state@.last_dm_handled_at == state.last_dm_handled_at,
        state@.eating_until_nutrition_over == state.eating_until_nutrition_over,
{
}

} // verus!
