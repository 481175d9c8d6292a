//! What holds of the bot as a whole.

use vstd::prelude::*;
#[allow(unused_imports)]
use crate::action::{ActionView, BlockPos, Goal};
#[allow(unused_imports)]
use crate::chat::{chatted, ChatLine};
#[allow(unused_imports)]
use crate::commands::{
    command_name,
    commanded,
    known_commands,
    spoken,
    teleport_requested,
    told,
    Surroundings,
};
#[allow(unused_imports)]
use crate::conduct_laws::{law_text_is_spoken_to_the_letter, second_has_passed, whispered};
#[allow(unused_imports)]
use crate::dm::{direct_message, first_word, further_words};
#[allow(unused_imports)]
use crate::events::{handled, Event};
#[allow(unused_imports)]
use crate::health::{health_changed, meal_from, Vitals};
#[allow(unused_imports)]
use crate::opts::Opts;
#[allow(unused_imports)]
use crate::pearl::{
    height_offset,
    pearl_thrown,
    place,
    player_name,
    trapdoor_at,
    trapdoor_from,
    Pearl,
};
#[allow(unused_imports)]
use crate::state::{is_saved, loaded, StateView};
#[allow(unused_imports)]
use crate::text::{
    ascii_lower,
    ascii_lower_char,
    begins_with,
    is_first,
    joined,
    law_join_undoes_split,
    lemma_split_at,
    lemma_split_len,
    lemma_split_none,
    occurs,
    occurs_at,
    split_pieces,
};
#[allow(unused_imports)]
use crate::tick::{looked, ticked, typed, Tick};
#[allow(unused_imports)]
use crate::trapdoors::{one_owner_each, Remembered};
#[allow(unused_imports)]
use vstd::utf8::is_ascii_chars;

verus! {

/// A text without a space, such as the name of a player.
pub open spec fn is_word(s: Seq<char>) -> bool {
    forall|i: int| 0 <= i < s.len() ==> s[i] != ' '
}

/// A chat line `[name -> me] text`.
pub open spec fn arrow_line(name: Seq<char>, text: Seq<char>) -> Seq<char> {
    "["@ + name + " -> me] "@ + text
}

/// A chat line `name whispers to you: text`.
pub open spec fn whisper_line(name: Seq<char>, text: Seq<char>) -> Seq<char> {
    name + " whispers to you: "@ + text
}

/// The first space of a text that is a word, a space and more.
proof fn lemma_first_space(word: Seq<char>, rest: Seq<char>)
    requires
        is_word(word),
    ensures
        is_first(word + " "@ + rest, " "@, word.len() as int),
{
    reveal_strlit(" ");
    let s = word + " "@ + rest;
    assert(s.subrange(word.len() as int, word.len() as int + 1) =~= " "@);
    assert forall|j: int| 0 <= j < word.len() implies !occurs_at(s, " "@, j) by {
        assert(s.subrange(j, j + 1)[0] == word[j]);
    }
}

/// Where the arrow stands in a line `[name -> me] text`.
proof fn lemma_arrow(name: Seq<char>, text: Seq<char>)
    requires
        is_word(name),
    ensures
        is_first(arrow_line(name, text), "-> me] "@, name.len() as int + 2),
{
    reveal_strlit("[");
    reveal_strlit(" -> me] ");
    reveal_strlit("-> me] ");
    let line = arrow_line(name, text);
    let sep = "-> me] "@;
    let mid = " -> me] "@;
    let n = name.len() as int;
    assert(line[0] == '[');
    assert forall|i: int| 1 <= i < n + 1 implies line[i] != ' ' by {
        assert(line[i] == name[i - 1]);
    }
    assert forall|i: int| n + 1 <= i < n + 9 implies line[i] == mid[i - n - 1] by {}
    assert(line.subrange(n + 2, n + 2 + sep.len()) =~= sep);
    assert forall|j: int| 0 <= j < n + 2 implies !occurs_at(line, sep, j) by {
        if occurs_at(line, sep, j) {
            let part = line.subrange(j, j + sep.len());
            assert(part[2] == ' ' && part[2] == line[j + 2]);
            assert(part[6] == ' ' && part[6] == line[j + 6]);
            assert(j + 2 >= n + 1);
            assert(j == n - 1 || j == n || j == n + 1);
        }
    }
}

/// A line `[name -> me] text` is a direct message from `name`, and its content
/// is `text` up to another such arrow.
pub proof fn law_arrow_line_is_direct_message(name: Seq<char>, text: Seq<char>)
    requires
        is_word(name),
    ensures
        direct_message(arrow_line(name, text)) == Some(
            (name, split_pieces(text, "-> me] "@)[0]),
        ),
        !occurs(text, "-> me] "@) ==> direct_message(arrow_line(name, text)) == Some((name, text)),
{
    let line = arrow_line(name, text);
    let sep = "-> me] "@;
    let n = name.len() as int;
    assert(begins_with(line, '[')) by {
        reveal_strlit("[");
    }
    assert(split_pieces(line, " "@)[0].skip(1) == name) by {
        reveal_strlit("[");
        reveal_strlit(" ");
        reveal_strlit(" -> me] ");
        reveal_strlit("-> me] ");
        let head = "["@ + name;
        assert(line =~= head + " "@ + (sep + text));
        assert forall|i: int| 0 <= i < head.len() implies head[i] != ' ' by {}
        lemma_first_space(head, sep + text);
        lemma_split_at(line, " "@, n + 1);
        assert(line.take(n + 1).skip(1) =~= name);
    }
    lemma_arrow(name, text);
    assert(sep.len() > 0 && line.skip(n + 2 + sep.len()) == text) by {
        reveal_strlit("[");
        reveal_strlit(" -> me] ");
        reveal_strlit("-> me] ");
        assert(line.skip(n + 2 + sep.len()) =~= text);
    }
    lemma_split_at(line, sep, n + 2);
    lemma_split_len(text, sep);
    if !occurs(text, sep) {
        lemma_split_none(text, sep);
    }
}

/// Where the whisper stands in a line `name whispers to you: text`.
proof fn lemma_whisper_at(name: Seq<char>, text: Seq<char>)
    requires
        is_word(name),
    ensures
        is_first(whisper_line(name, text), "whispers to you: "@, name.len() as int + 1),
        occurs_at(whisper_line(name, text), " whispers to you: "@, name.len() as int),
{
    reveal_strlit(" whispers to you: ");
    reveal_strlit("whispers to you: ");
    let line = whisper_line(name, text);
    let long = " whispers to you: "@;
    let sep = "whispers to you: "@;
    let n = name.len() as int;
    assert forall|i: int| 0 <= i < n implies line[i] != ' ' by {
        assert(line[i] == name[i]);
    }
    assert forall|i: int| n <= i < n + 18 implies line[i] == long[i - n] by {}
    assert(line.subrange(n, n + long.len()) =~= long);
    assert(line.subrange(n + 1, n + 1 + sep.len()) =~= sep);
    assert forall|j: int| 0 <= j < n + 1 implies !occurs_at(line, sep, j) by {
        if occurs_at(line, sep, j) {
            let part = line.subrange(j, j + sep.len());
            assert(part[8] == ' ' && part[8] == line[j + 8]);
            assert(part[11] == ' ' && part[11] == line[j + 11]);
            assert(j + 8 >= n);
            assert(long[j + 8 - n] == ' ');
            assert(long[j + 11 - n] == ' ');
        }
    }
}

/// A line `name whispers to you: text` holds an arrow only where its text does.
proof fn lemma_arrow_is_in_text(name: Seq<char>, text: Seq<char>)
    requires
        is_word(name),
        occurs(whisper_line(name, text), "-> me] "@),
    ensures
        occurs(text, "-> me] "@),
{
    reveal_strlit(" whispers to you: ");
    reveal_strlit("-> me] ");
    let line = whisper_line(name, text);
    let long = " whispers to you: "@;
    let sep = "-> me] "@;
    let n = name.len() as int;
    assert forall|i: int| 0 <= i < n implies line[i] != ' ' by {
        assert(line[i] == name[i]);
    }
    assert forall|i: int| n <= i < n + 18 implies line[i] == long[i - n] && line[i] != '-'
        && line[i] != ']' by {}
    let j = choose|j: int| occurs_at(line, sep, j);
    let part = line.subrange(j, j + sep.len());
    assert(part[0] == '-' && part[0] == line[j]);
    assert(part[2] == ' ' && part[2] == line[j + 2]);
    assert(part[5] == ']' && part[5] == line[j + 5]);
    assert(j >= n + 18);
    assert(text.subrange(j - n - 18, j - n - 18 + sep.len()) =~= part);
    assert(occurs_at(text, sep, j - n - 18));
}

/// A line `name whispers to you: text` is a direct message from `name`, and its
/// content is `text` up to another whisper, unless the name begins with a bracket
/// and the text holds an arrow.
pub proof fn law_whisper_line_is_direct_message(name: Seq<char>, text: Seq<char>)
    requires
        is_word(name),
        !(begins_with(name, '[') && occurs(text, "-> me] "@)),
    ensures
        direct_message(whisper_line(name, text)) == Some(
            (name, split_pieces(text, "whispers to you: "@)[0]),
        ),
        !occurs(text, "whispers to you: "@) ==> direct_message(whisper_line(name, text)) == Some(
            (name, text),
        ),
{
    let line = whisper_line(name, text);
    let sep = "whispers to you: "@;
    let n = name.len() as int;
    assert(begins_with(line, '[') == begins_with(name, '[')) by {
        reveal_strlit(" whispers to you: ");
        assert(n > 0 ==> line[0] == name[0]);
        assert(n == 0 ==> line[0] == ' ');
    }
    if occurs(line, "-> me] "@) {
        lemma_arrow_is_in_text(name, text);
    }
    assert(split_pieces(line, " "@)[0] == name) by {
        reveal_strlit(" ");
        reveal_strlit(" whispers to you: ");
        reveal_strlit("whispers to you: ");
        assert(line =~= name + " "@ + (sep + text));
        lemma_first_space(name, sep + text);
        lemma_split_at(line, " "@, n);
        assert(line.take(n) =~= name);
    }
    lemma_whisper_at(name, text);
    assert(sep.len() > 0 && line.skip(n + 1 + sep.len()) == text) by {
        reveal_strlit(" whispers to you: ");
        reveal_strlit("whispers to you: ");
        assert(line.skip(n + 1 + sep.len()) =~= text);
    }
    lemma_split_at(line, sep, n + 1);
    lemma_split_len(text, sep);
    if !occurs(text, sep) {
        lemma_split_none(text, sep);
    }
}

/// What is written behind a command and a space reaches the command unchanged:
/// its arguments, joined with spaces, are that text.
pub proof fn law_arguments_are_kept(word: Seq<char>, rest: Seq<char>)
    requires
        is_word(word),
    ensures
        first_word(word + " "@ + rest) == word,
        joined(further_words(word + " "@ + rest), " "@) == rest,
{
    reveal_strlit(" ");
    let s = word + " "@ + rest;
    lemma_first_space(word, rest);
    lemma_split_at(s, " "@, word.len() as int);
    assert(s.take(word.len() as int) =~= word);
    assert(s.skip(word.len() as int + 1) =~= rest);
    law_join_undoes_split(rest, " "@);
    assert(further_words(s) =~= split_pieces(rest, " "@));
}

/// A command without a space has no arguments.
pub proof fn law_lone_word_is_command(word: Seq<char>)
    requires
        is_word(word),
    ensures
        first_word(word) == word,
        further_words(word).len() == 0,
{
    reveal_strlit(" ");
    assert forall|j: int| !occurs_at(word, " "@, j) by {
        if occurs_at(word, " "@, j) {
            assert(word.subrange(j, j + 1)[0] == word[j]);
        }
    }
    lemma_split_none(word, " "@);
}

/// One exclamation mark in front of a command makes no difference.
pub proof fn law_exclamation_mark_is_optional(command: Seq<char>)
    requires
        !begins_with(command, '!'),
    ensures
        command_name("!"@ + command) == command_name(command),
{
    reveal_strlit("!");
    assert(("!"@ + command).skip(1) =~= command);
}

/// An exclamation mark is its own lower case form, and that of nothing else.
proof fn lemma_mark_has_no_case(c: char)
    ensures
        (ascii_lower_char(c) == '!') == (c == '!'),
{
    if 'A' <= c && c <= 'Z' {
        assert(97 <= (c as u32) + 32 <= 122);
        assert(ascii_lower_char(c) as u32 == (c as u32) + 32);
    }
}

/// The case of the letters of an ASCII command makes no difference.
pub proof fn law_command_case_is_ignored(a: Seq<char>, b: Seq<char>)
    requires
        is_ascii_chars(a),
        is_ascii_chars(b),
        ascii_lower(a) == ascii_lower(b),
    ensures
        command_name(a) == command_name(b),
{
    assert(a.len() == ascii_lower(a).len() && b.len() == ascii_lower(b).len());
    if a.len() > 0 {
        assert(ascii_lower(a)[0] == ascii_lower_char(a[0]));
        assert(ascii_lower(b)[0] == ascii_lower_char(b[0]));
        lemma_mark_has_no_case(a[0]);
        lemma_mark_has_no_case(b[0]);
        assert(begins_with(a, '!') == begins_with(b, '!'));
        assert(is_ascii_chars(a.skip(1)));
        assert(is_ascii_chars(b.skip(1)));
        assert(ascii_lower(a.skip(1)) =~= ascii_lower(a).skip(1));
        assert(ascii_lower(b.skip(1)) =~= ascii_lower(b).skip(1));
    }
}

/// The case of the ASCII letters of an admin's name makes no difference.
pub proof fn law_admin_case_is_ignored(opts: Opts, a: Seq<char>, b: Seq<char>)
    requires
        ascii_lower(a) == ascii_lower(b),
    ensures
        opts.has_admin(a) == opts.has_admin(b),
{
}

/// The action tells `player` something and does nothing else.
pub open spec fn tells(action: ActionView, player: Seq<char>) -> bool {
    exists|what: Seq<char>| action == ActionView::SendCommand(#[trigger] told(player, what))
}

/// A player who is no admin can make the bot answer them and walk to their own
/// trapdoor, and nothing else; the trapdoors stay whose they were.
pub proof fn law_strangers_are_limited(
    opts: Opts,
    state: StateView,
    surroundings: Surroundings,
    sender: Seq<char>,
    name: Seq<char>,
    args: Seq<Seq<char>>,
)
    requires
        !opts.has_admin(sender),
    ensures
        ({
            let outcome = commanded(opts, state, surroundings, sender, name, args);
            &&& outcome.state.trapdoors == state.trapdoors
            &&& forall|i: int|
                0 <= i < outcome.actions.len() ==> {
                    ||| tells(#[trigger] outcome.actions[i], sender)
                    ||| !opts.no_stasis && state.trapdoors.contains_key(sender)
                        && outcome.actions[i] == (ActionView::Goto {
                        goal: Goal::Reach(state.trapdoors[sender]),
                        mining: !opts.no_mining,
                    })
                }
        }),
{
}

/// Whether the chat line is an admin's command `say`, and comes late enough.
pub open spec fn lets_bot_say(opts: Opts, state: StateView, line: ChatLine) -> bool {
    &&& second_has_passed(state, line.now)
    &&& direct_message(line.text@) matches Some((sender, content))
    &&& opts.has_admin(sender)
    &&& command_name(first_word(content)) == "say"@
}

/// A quiet bot sends no messages but what an admin lets it say and the lines
/// that somebody types.
pub proof fn law_quiet_bot_is_silent(opts: Opts, state: StateView, event: Event)
    requires
        opts.quiet,
    ensures
        forall|i: int|
            0 <= i < handled(opts, state, event).1.len() && ((#[trigger] handled(
                opts,
                state,
                event,
            ).1[i]) is SendCommand || handled(opts, state, event).1[i] is SendChat) ==> match event {
                Event::Tick(tick) => i < tick.lines@.len() && handled(opts, state, event).1[i]
                    == spoken(tick.lines@[i]@),
                Event::Chat(line) => i == 0 && lets_bot_say(opts, state, line),
                _ => false,
            },
{
}

/// Where mining is forbidden, the bot never walks with leave to mine.
pub proof fn law_no_mining(opts: Opts, state: StateView, event: Event)
    requires
        opts.no_mining,
    ensures
        forall|i: int|
            0 <= i < handled(opts, state, event).1.len() ==> (#[trigger] handled(
                opts,
                state,
                event,
            ).1[i] matches ActionView::Goto { mining, .. } ==> !mining),
{
}

/// Whether the bot has arrived at the trapdoor of the player who asked for it.
pub open spec fn arrives(state: StateView, event: Event) -> bool {
    &&& event matches Event::Tick(tick)
    &&& !tick.has_goal
    &&& !tick.is_calculating
    &&& state.requested_by matches Some(player)
    &&& state.trapdoors.contains_key(player)
}

/// A bot without stasis duties sets out for nobody and remembers no trapdoor,
/// walks to none, uses none, and neither reads nor writes the file, unless it was
/// on its way to one before and arrives there.
pub proof fn law_no_stasis(opts: Opts, state: StateView, event: Event)
    requires
        opts.no_stasis,
        !arrives(state, event),
    ensures
        handled(opts, state, event).0.trapdoors == state.trapdoors,
        handled(opts, state, event).0.requested_by == state.requested_by,
        forall|i: int|
            0 <= i < handled(opts, state, event).1.len() ==> {
                let action = #[trigger] handled(opts, state, event).1[i];
                &&& !(action is LoadStasis)
                &&& !(action is SaveStasis)
                &&& !(action is UseItemOn)
                &&& (action matches ActionView::Goto { goal, .. } ==> goal is Stand)
            },
{
}

/// Once no trapdoor belongs to two players, it stays so.
pub proof fn law_one_owner_each(opts: Opts, state: StateView, event: Event)
    requires
        one_owner_each(state.trapdoors),
    ensures
        one_owner_each(handled(opts, state, event).0.trapdoors),
{
    let before = state.trapdoors;
    let after = handled(opts, state, event).0.trapdoors;
    assert forall|p: Seq<char>, q: Seq<char>|
        after.contains_key(p) && after.contains_key(q) && #[trigger] after[p]
            == #[trigger] after[q] implies p == q by {
        if let Event::PearlAppeared(pearl) = event {
            assert(before.contains_key(p) && before[p] == after[p] || p == player_name(
                pearl.players@,
                pearl.owner_id,
            )->0);
            assert(before.contains_key(q) && before[q] == after[q] || q == player_name(
                pearl.players@,
                pearl.owner_id,
            )->0);
        } else {
            assert(before.contains_key(p) && before[p] == after[p]);
            assert(before.contains_key(q) && before[q] == after[q]);
        }
    }
}

/// The time of the last direct message handled changes with no event, and what
/// the bot eats only with its health.
pub proof fn law_unrelated_state_is_kept(opts: Opts, state: StateView, event: Event)
    ensures
        handled(opts, state, event).0.last_dm_handled_at == state.last_dm_handled_at,
        !(event is SetHealth) ==> handled(opts, state, event).0.eating_until_nutrition_over
            == state.eating_until_nutrition_over,
        event is SetHealth ==> handled(opts, state, event).0 == (StateView {
            eating_until_nutrition_over: handled(
                opts,
                state,
                event,
            ).0.eating_until_nutrition_over,
            ..state
        }),
{
}

/// Whether something happened at which the bot logs out, where it does so by
/// itself: its health is at the limit, or its own totem popped.
pub open spec fn is_danger(event: Event) -> bool {
    match event {
        Event::SetHealth(vitals) => vitals.health_at_limit,
        Event::EntityEvent { own_id, entity_id, event_id } => entity_id == own_id && event_id
            == 35,
        _ => false,
    }
}

/// With automatic logout the bot leaves at the limit of its health and when its
/// own totem pops, and does nothing else then; it leaves on its own account
/// neither at anything else nor without automatic logout.
pub proof fn law_autolog(opts: Opts, state: StateView, event: Event)
    ensures
        opts.autolog && is_danger(event) ==> handled(opts, state, event) == (
            state,
            seq![ActionView::Disconnect, ActionView::Exit(69)],
        ),
        forall|i: int|
            0 <= i < handled(opts, state, event).1.len() && ((#[trigger] handled(
                opts,
                state,
                event,
            ).1[i]) is Disconnect || handled(opts, state, event).1[i] is Exit) ==> opts.autolog
                && is_danger(event),
{
}

/// For a second after a direct message was handled, every chat line is ignored.
pub proof fn law_messages_too_soon_are_ignored(
    opts: Opts,
    state: StateView,
    line: ChatLine,
    at: u128,
)
    requires
        state.last_dm_handled_at == Some(at),
        line.now - at <= 1_000_000_000,
    ensures
        chatted(opts, state, line) == (state, Seq::<ActionView>::empty()),
{
}

/// The bot knows eight commands; anything else changes nothing and is not
/// answered, nor does it count as a message handled.
pub proof fn law_known_commands(
    opts: Opts,
    state: StateView,
    surroundings: Surroundings,
    sender: Seq<char>,
    name: Seq<char>,
    args: Seq<Seq<char>>,
)
    ensures
        ({
            let outcome = commanded(opts, state, surroundings, sender, name, args);
            &&& outcome.handled <==> (name == "help"@ || name == "about"@ || name == "tp"@ || name
                == "comehere"@ || name == "admins"@ || name == "say"@ || name == "stop"@ || name
                == "pos"@)
            &&& !outcome.handled ==> outcome.state == state && outcome.actions.len() == 0
        }),
{
}

/// While the bot is on its way for somebody, no command changes for whom, and
/// only an admin can send it elsewhere, with `comehere`; who sends `tp` is told
/// something at most.
pub proof fn law_busy_bot_stays_on_its_way(
    opts: Opts,
    state: StateView,
    surroundings: Surroundings,
    sender: Seq<char>,
    name: Seq<char>,
    args: Seq<Seq<char>>,
)
    requires
        state.requested_by is Some,
    ensures
        ({
            let outcome = commanded(opts, state, surroundings, sender, name, args);
            &&& outcome.state == state
            &&& forall|i: int|
                0 <= i < outcome.actions.len() ==> {
                    &&& (#[trigger] outcome.actions[i]) is Goto ==> opts.has_admin(sender) && name
                        == "comehere"@
                    &&& name == "tp"@ ==> tells(outcome.actions[i], sender)
                }
        }),
{
    lemma_tp_is_none_of_the_others();
}

/// The names of the commands before `tp` are other names.
proof fn lemma_tp_is_none_of_the_others()
    ensures
        "tp"@ != "help"@,
        "tp"@ != "about"@,
{
    reveal_strlit("tp");
    reveal_strlit("help");
    reveal_strlit("about");
    assert("tp"@.len() == 2);
    assert("help"@.len() == 4);
    assert("about"@.len() == 5);
}

/// The two differ at most in where the bot says it is.
pub open spec fn same_but_location(a: Surroundings, b: Surroundings) -> bool {
    a.own_block == b.own_block && a.players == b.players
}

/// The bot gives its coordinates and its world away only to admins, only where
/// that is enabled, and only with `pos`: in all else its conduct does not depend
/// on them.
pub proof fn law_location_is_confidential(
    opts: Opts,
    state: StateView,
    a: Surroundings,
    b: Surroundings,
    sender: Seq<char>,
    name: Seq<char>,
    args: Seq<Seq<char>>,
)
    requires
        !opts.has_admin(sender) || !opts.enable_pos_command || name != "pos"@,
        same_but_location(a, b),
    ensures
        commanded(opts, state, a, sender, name, args) == commanded(
            opts,
            state,
            b,
            sender,
            name,
            args,
        ),
{
}

/// The positions that were written to the file are those that are remembered
/// after it was read, whatever was remembered in between.
pub proof fn law_loading_undoes_saving(
    state: StateView,
    list: Seq<Remembered>,
    later: StateView,
)
    requires
        is_saved(state, list),
    ensures
        loaded(later, Some(list)).trapdoors == state.trapdoors,
        loaded(state, Some(list)) == state,
{
}

/// Whether a pearl takes the trapdoor away that the bot is on its way to.
pub open spec fn takes_target_away(opts: Opts, state: StateView, event: Event) -> bool {
    match (state.requested_by, event) {
        (Some(p), Event::PearlAppeared(pearl)) => {
            let owner = player_name(pearl.players@, pearl.owner_id);
            let pos = trapdoor_from(pearl.block, pearl.nearby@, 0);
            &&& !opts.no_stasis
            &&& owner is Some && owner->0 != p
            &&& state.trapdoors.contains_key(p) && pos == Some(state.trapdoors[p])
            &&& !(state.trapdoors.contains_key(owner->0) && state.trapdoors[owner->0] == pos->0)
        },
        _ => false,
    }
}

/// The player for whom the bot is on its way has a trapdoor, and keeps it until
/// it is used, unless somebody else throws a pearl into it.
pub proof fn law_target_is_kept(opts: Opts, state: StateView, event: Event)
    requires
        state.requested_by matches Some(p) ==> state.trapdoors.contains_key(p),
        !takes_target_away(opts, state, event),
    ensures
        handled(opts, state, event).0.requested_by matches Some(p) ==> handled(
            opts,
            state,
            event,
        ).0.trapdoors.contains_key(p),
{
}

/// Whether a pearl gives `player` another trapdoor, or theirs to somebody else.
pub open spec fn reassigns(opts: Opts, state: StateView, event: Event, player: Seq<char>) -> bool {
    &&& event matches Event::PearlAppeared(pearl)
    &&& !opts.no_stasis
    &&& player_name(pearl.players@, pearl.owner_id) matches Some(owner)
    &&& trapdoor_from(pearl.block, pearl.nearby@, 0) matches Some(pos)
    &&& !(state.trapdoors.contains_key(owner) && state.trapdoors[owner] == pos)
    &&& owner == player || state.trapdoors[player] == pos
}

/// A player's trapdoor stays theirs through everything that happens, until the
/// bot uses it for them or a pearl reassigns it.
pub proof fn law_trapdoor_is_kept(opts: Opts, state: StateView, event: Event, player: Seq<char>)
    requires
        state.trapdoors.contains_key(player),
        !(arrives(state, event) && state.requested_by == Some(player)),
        !reassigns(opts, state, event, player),
    ensures
        handled(opts, state, event).0.trapdoors.contains_key(player),
        handled(opts, state, event).0.trapdoors[player] == state.trapdoors[player],
{
}

/// While the bot is on its way for somebody, it stays so through everything that
/// happens until it arrives, and keeps in mind where to go back to.
pub proof fn law_request_is_kept(opts: Opts, state: StateView, event: Event)
    requires
        state.requested_by is Some,
        !arrives(state, event),
    ensures
        handled(opts, state, event).0.requested_by == state.requested_by,
        handled(opts, state, event).0.return_to == state.return_to,
{
}

/// While the bot eats, it starts no other meal, and it stops as soon as its food
/// has increased, unless it logs out.
pub proof fn law_one_meal_at_a_time(opts: Opts, state: StateView, vitals: Vitals, level: u32)
    requires
        state.eating_until_nutrition_over == Some(level),
    ensures
        forall|i: int|
            0 <= i < health_changed(opts, state, vitals).1.len() ==> !((#[trigger] health_changed(
                opts,
                state,
                vitals,
            ).1[i]) is UseItem),
        !(opts.autolog && vitals.health_at_limit) && vitals.food > level ==> health_changed(
            opts,
            state,
            vitals,
        ) == (
            StateView { eating_until_nutrition_over: None, ..state },
            seq![ActionView::ReleaseUseItem],
        ),
        !(opts.autolog && vitals.health_at_limit) && vitals.food <= level ==> health_changed(
            opts,
            state,
            vitals,
        ) == (state, Seq::<ActionView>::empty()),
{
}

/// The bot starts to eat exactly where it was asked to, is hungry, has food, and
/// neither eats already nor logs out; and then it takes the food level down that
/// has to be exceeded.
pub proof fn law_meals_have_a_reason(opts: Opts, state: StateView, event: Event)
    ensures
        handled(opts, state, event).1.contains(ActionView::UseItem) <==> {
            &&& event matches Event::SetHealth(vitals)
            &&& opts.auto_eat
            &&& vitals.food <= 14 || vitals.hurt && vitals.food <= 19
            &&& meal_from(vitals.hotbar@, 0) is Some
            &&& state.eating_until_nutrition_over is None
            &&& !(opts.autolog && vitals.health_at_limit)
        },
        handled(opts, state, event).1.contains(ActionView::UseItem) ==> (event matches
            Event::SetHealth(vitals) && handled(opts, state, event).0.eating_until_nutrition_over
            == Some(vitals.food)),
{
    if let Event::SetHealth(vitals) = event {
        if opts.auto_eat && (vitals.food <= 14 || vitals.hurt && vitals.food <= 19) && meal_from(
            vitals.hotbar@,
            0,
        ) is Some && state.eating_until_nutrition_over is None && !(opts.autolog
            && vitals.health_at_limit) {
            assert(handled(opts, state, event).1[2] == ActionView::UseItem);
        }
    }
}

/// The places for a trapdoor are the eleven heights from five below to five above
/// the pearl, each once, a nearer one before a farther one and a lower one before
/// a higher one.
pub proof fn law_trapdoor_heights(i: int, j: int)
    requires
        0 <= i < j < 11,
    ensures
        -5 <= height_offset(i) <= 5,
        -5 <= height_offset(j) <= 5,
        height_offset(i) != height_offset(j),
        height_offset(i) * height_offset(i) <= height_offset(j) * height_offset(j),
        height_offset(i) * height_offset(i) == height_offset(j) * height_offset(j)
            ==> height_offset(i) < height_offset(j),
{
    assert(0 <= i <= 10 && 0 <= j <= 10);
    let a = height_offset(i);
    let b = height_offset(j);
    assert(a == 0 || a == -1 || a == 1 || a == -2 || a == 2 || a == -3 || a == 3 || a == -4 || a
        == 4 || a == -5 || a == 5);
    assert(b == 0 || b == -1 || b == 1 || b == -2 || b == 2 || b == -3 || b == 3 || b == -4 || b
        == 4 || b == -5 || b == 5);
    assert(a * a <= b * b && (a * a == b * b ==> a < b)) by (nonlinear_arith)
        requires
            -b <= a <= b || b <= a <= -b,
            (a == b || a == -b) ==> a < b,
    ;
}

/// The text `tp` is its own command name; it is one word and holds no separator.
proof fn lemma_tp_names_itself()
    ensures
        command_name("tp"@) == "tp"@,
        is_word("tp"@),
        !occurs("tp"@, "-> me] "@),
        !occurs("tp"@, "whispers to you: "@),
{
    reveal_strlit("tp");
    reveal_strlit("-> me] ");
    reveal_strlit("whispers to you: ");
    assert("tp"@.len() == 2);
    assert("-> me] "@.len() == 7);
    assert("whispers to you: "@.len() == 17);
    assert(is_ascii_chars("tp"@));
    assert(ascii_lower("tp"@) =~= "tp"@);
}

/// A message `tp` in either form is the command `tp` of its sender.
pub proof fn law_tp_message_is_understood(
    opts: Opts,
    state: StateView,
    line: ChatLine,
    player: Seq<char>,
)
    requires
        is_word(player),
        line.text@ == arrow_line(player, "tp"@) || line.text@ == whisper_line(player, "tp"@),
        second_has_passed(state, line.now),
    ensures
        ({
            let outcome = teleport_requested(opts, state, line.surroundings.own_block, player);
            chatted(opts, state, line) == (
                outcome.state,
                outcome.actions.push(ActionView::MarkDmHandled),
            )
        }),
{
    lemma_tp_names_itself();
    lemma_tp_is_none_of_the_others();
    law_lone_word_is_command("tp"@);
    law_arrow_line_is_direct_message(player, "tp"@);
    law_whisper_line_is_direct_message(player, "tp"@);
    assert(further_words("tp"@) =~= Seq::empty());
}

/// A pearl that a player throws makes the trapdoor near it theirs; and theirs
/// alone, unless it was theirs and somebody else's before.
pub proof fn law_pearl_is_remembered(
    opts: Opts,
    state: StateView,
    pearl: Pearl,
    player: Seq<char>,
    pos: BlockPos,
)
    requires
        !opts.no_stasis,
        player_name(pearl.players@, pearl.owner_id) == Some(player),
        trapdoor_from(pearl.block, pearl.nearby@, 0) == Some(pos),
    ensures
        ({
            let after = pearl_thrown(opts, state, pearl).0.trapdoors;
            &&& after.contains_key(player) && after[player] == pos
            &&& forall|q: Seq<char>| #[trigger]
                after.contains_key(q) && q != player ==> state.trapdoors.contains_key(q) && after[q]
                    == state.trapdoors[q]
            &&& !(state.trapdoors.contains_key(player) && state.trapdoors[player] == pos)
                || one_owner_each(state.trapdoors) ==> forall|q: Seq<char>| #[trigger]
                after.contains_key(q) && q != player ==> after[q] != pos
        }),
{
}

/// Places without a trapdoor are passed over.
proof fn lemma_places_passed_over(
    block: BlockPos,
    nearby: Seq<Option<String>>,
    from: int,
    to: int,
)
    requires
        0 <= from <= to <= nearby.len(),
        forall|k: int| from <= k < to ==> !#[trigger] trapdoor_at(block, nearby, k),
    ensures
        trapdoor_from(block, nearby, from) == trapdoor_from(block, nearby, to),
    decreases to - from,
{
    if from < to {
        assert(!trapdoor_at(block, nearby, from));
        lemma_places_passed_over(block, nearby, from + 1, to);
    }
}

/// Of the places that have a trapdoor the first one is taken; where none has one,
/// none is.
pub proof fn law_first_trapdoor_is_taken(block: BlockPos, nearby: Seq<Option<String>>, i: int)
    requires
        0 <= i <= nearby.len(),
        forall|k: int| 0 <= k < i ==> !#[trigger] trapdoor_at(block, nearby, k),
        i < nearby.len() ==> trapdoor_at(block, nearby, i),
    ensures
        trapdoor_from(block, nearby, 0) == if i < nearby.len() {
            place(block, i)
        } else {
            None
        },
{
    lemma_places_passed_over(block, nearby, 0, i);
}

/// A pearl changes nothing and leads to nothing, at whatever height it is, where
/// the bot has no stasis duties, where no player in sight threw it, or where no
/// place near it has a trapdoor. Without stasis duties a login leads to nothing
/// either.
pub proof fn law_nothing_to_do(opts: Opts, state: StateView, pearl: Pearl)
    ensures
        opts.no_stasis ==> handled(opts, state, Event::Login) == (
            state,
            Seq::<ActionView>::empty(),
        ),
        opts.no_stasis || player_name(pearl.players@, pearl.owner_id) is None || (forall|k: int|
            0 <= k < 11 ==> !#[trigger] trapdoor_at(pearl.block, pearl.nearby@, k)) ==> handled(
            opts,
            state,
            Event::PearlAppeared(pearl),
        ) == (state, Seq::<ActionView>::empty()),
{
    if forall|k: int| 0 <= k < 11 ==> !#[trigger] trapdoor_at(pearl.block, pearl.nearby@, k) {
        law_first_trapdoor_is_taken(pearl.block, pearl.nearby@, 11);
    }
}

/// What the bot is for: a player throws a pearl next to a trapdoor and later
/// sends `tp`; the bot walks to that trapdoor, uses it once it is there, forgets
/// it, and walks back to where it was asked.
pub proof fn law_pearl_brings_player_back(
    opts: Opts,
    state: StateView,
    pearl: Pearl,
    player: Seq<char>,
    pos: BlockPos,
    line: ChatLine,
    tick: Tick,
)
    requires
        !opts.no_stasis,
        state.requested_by is None,
        player_name(pearl.players@, pearl.owner_id) == Some(player),
        trapdoor_from(pearl.block, pearl.nearby@, 0) == Some(pos),
        is_word(player),
        line.text@ == arrow_line(player, "tp"@) || line.text@ == whisper_line(player, "tp"@),
        second_has_passed(state, line.now),
        !tick.has_goal,
        !tick.is_calculating,
    ensures
        ({
            let thrown = pearl_thrown(opts, state, pearl).0;
            let asked = chatted(opts, thrown, line);
            let pulled = ticked(opts, asked.0, tick);
            let walk = ActionView::Goto { goal: Goal::Reach(pos), mining: !opts.no_mining };
            let back = ActionView::Goto {
                goal: Goal::Stand(line.surroundings.own_block),
                mining: !opts.no_mining,
            };
            &&& asked.1 == whispered(
                opts,
                player,
                "Walking to your stasis chamber..."@,
            ) + seq![walk, ActionView::MarkDmHandled]
            &&& pulled.1 == typed(tick.lines@) + looked(opts, tick) + whispered(
                opts,
                player,
                "Welcome back, "@ + player + "!"@,
            ) + seq![ActionView::UseItemOn(pos), back, ActionView::SaveStasis]
            &&& pulled.0 == (StateView {
                trapdoors: thrown.trapdoors.remove(player),
                requested_by: None,
                return_to: None,
                ..thrown
            })
        }),
{
    law_pearl_is_remembered(opts, state, pearl, player, pos);
    let thrown = pearl_thrown(opts, state, pearl).0;
    law_tp_message_is_understood(opts, thrown, line, player);
    let asked = chatted(opts, thrown, line);
    let pulled = ticked(opts, asked.0, tick);
    let back = ActionView::Goto {
        goal: Goal::Stand(line.surroundings.own_block),
        mining: !opts.no_mining,
    };
    assert(asked.1 =~= whispered(opts, player, "Walking to your stasis chamber..."@) + seq![
        ActionView::Goto { goal: Goal::Reach(pos), mining: !opts.no_mining },
        ActionView::MarkDmHandled,
    ]);
    assert(pulled.1 =~= typed(tick.lines@) + looked(opts, tick) + whispered(
        opts,
        player,
        "Welcome back, "@ + player + "!"@,
    ) + seq![ActionView::UseItemOn(pos), back, ActionView::SaveStasis]);
}

/// `a` stands before `b` in alphabetical order.
pub open spec fn alphabetical(a: Seq<char>, b: Seq<char>) -> bool {
    exists|k: int|
        0 <= k <= a.len() && k < b.len() && #[trigger] a.take(k) == b.take(k) && (k == a.len()
            || a[k] < b[k])
}

/// A first difference decides the order.
proof fn lemma_differs_at(a: Seq<char>, b: Seq<char>, k: int)
    requires
        0 <= k < a.len(),
        k < b.len(),
        forall|i: int| 0 <= i < k ==> a[i] == b[i],
        a[k] < b[k],
    ensures
        alphabetical(a, b),
{
    assert(a.take(k) =~= b.take(k));
}

/// The commands in alphabetical order.
spec fn ranked(r: int) -> Seq<char> {
    if r == 0 {
        "!about"@
    } else if r == 1 {
        "!admins"@
    } else if r == 2 {
        "!comehere"@
    } else if r == 3 {
        "!help"@
    } else if r == 4 {
        "!pos"@
    } else if r == 5 {
        "!say"@
    } else if r == 6 {
        "!stop"@
    } else {
        "!tp"@
    }
}

/// The ranks of the commands that a player is told of.
spec fn ranks(opts: Opts, admin: bool) -> Seq<int> {
    let none = Seq::<int>::empty();
    seq![0int] + (if opts.admin@.len() > 0 {
        seq![1int]
    } else {
        none
    }) + (if admin {
        seq![2int]
    } else {
        none
    }) + seq![3int] + (if admin && opts.enable_pos_command {
        seq![4int]
    } else {
        none
    }) + (if admin {
        seq![5int, 6int]
    } else {
        none
    }) + (if !opts.no_stasis {
        seq![7int]
    } else {
        none
    })
}

/// The list of commands is in order and names no command twice.
pub proof fn law_command_list_is_sorted(opts: Opts, admin: bool, i: int, j: int)
    requires
        0 <= i < j < known_commands(opts, admin).len(),
    ensures
        alphabetical(known_commands(opts, admin)[i], known_commands(opts, admin)[j]),
{
    let list = known_commands(opts, admin);
    let rs = ranks(opts, admin);
    assert(list =~= Seq::new(rs.len(), |k: int| ranked(rs[k])));
    let r = rs[i];
    let q = rs[j];
    assert(0 <= r < q <= 7);
    lemma_ranked_in_order(r, q);
}

/// A lower rank comes first.
proof fn lemma_ranked_in_order(r: int, q: int)
    requires
        0 <= r < q <= 7,
    ensures
        alphabetical(ranked(r), ranked(q)),
{
    reveal_strlit("!about");
    reveal_strlit("!admins");
    reveal_strlit("!comehere");
    reveal_strlit("!help");
    reveal_strlit("!pos");
    reveal_strlit("!say");
    reveal_strlit("!stop");
    reveal_strlit("!tp");
    if (r == 0 && q == 1) || (r == 5 && q == 6) {
        lemma_differs_at(ranked(r), ranked(q), 2);
    } else {
        lemma_differs_at(ranked(r), ranked(q), 1);
    }
}

/// A player is told of exactly the commands that they may use: everybody of
/// `!help` and `!about`, of `!tp` where the bot has stasis duties and of
/// `!admins` where there are any; admins of theirs, and of `!pos` where it is
/// enabled.
pub proof fn law_command_list_is_complete(opts: Opts, admin: bool, command: Seq<char>)
    ensures
        known_commands(opts, admin).contains(command) <==> {
            ||| command == "!help"@
            ||| command == "!about"@
            ||| command == "!tp"@ && !opts.no_stasis
            ||| command == "!admins"@ && opts.admin@.len() > 0
            ||| (command == "!comehere"@ || command == "!say"@ || command == "!stop"@) && admin
            ||| command == "!pos"@ && admin && opts.enable_pos_command
        },
{
    let list = known_commands(opts, admin);
    let rs = ranks(opts, admin);
    assert(list =~= Seq::new(rs.len(), |k: int| ranked(rs[k])));
    let a: int = if opts.admin@.len() > 0 {
        1
    } else {
        0
    };
    let b: int = if admin {
        1
    } else {
        0
    };
    let c: int = if admin && opts.enable_pos_command {
        1
    } else {
        0
    };
    assert(list[0] == "!about"@);
    assert(a == 1 ==> list[1] == "!admins"@);
    assert(b == 1 ==> list[1 + a] == "!comehere"@);
    assert(list[1 + a + b] == "!help"@);
    assert(c == 1 ==> list[2 + a + b] == "!pos"@);
    assert(b == 1 ==> list[2 + a + b + c] == "!say"@);
    assert(b == 1 ==> list[3 + a + b + c] == "!stop"@);
    assert(!opts.no_stasis ==> list.last() == "!tp"@);
    if list.contains(command) {
        let k = list.index_of(command);
        assert(list[k] == command);
    }
}

/// What an admin lets the bot say, it says to the letter: as a server command
/// where the text begins with a slash, else in the chat.
pub proof fn law_say_repeats_text(
    opts: Opts,
    state: StateView,
    line: ChatLine,
    admin: Seq<char>,
    text: Seq<char>,
)
    requires
        is_word(admin),
        opts.has_admin(admin),
        second_has_passed(state, line.now),
        ({
            ||| line.text@ == arrow_line(admin, "say "@ + text) && !occurs(
                "say "@ + text,
                "-> me] "@,
            )
            ||| line.text@ == whisper_line(admin, "say "@ + text) && !occurs(
                "say "@ + text,
                "whispers to you: "@,
            ) && !(begins_with(admin, '[') && occurs("say "@ + text, "-> me] "@))
        }),
    ensures
        !(text.len() > 0 && text[0] == '/') ==> chatted(opts, state, line) == (
            state,
            seq![ActionView::SendChat(text), ActionView::MarkDmHandled],
        ),
        forall|command: Seq<char>|
            text == #[trigger] (seq!['/'] + command) ==> chatted(opts, state, line) == (
                state,
                seq![ActionView::SendCommand(command), ActionView::MarkDmHandled],
            ),
{
    let content = "say "@ + text;
    assert(content == "say"@ + " "@ + text && is_word("say"@)) by {
        reveal_strlit("say ");
        reveal_strlit("say");
        reveal_strlit(" ");
        assert(content =~= "say"@ + " "@ + text);
    }
    law_arrow_line_is_direct_message(admin, content);
    if !(begins_with(admin, '[') && occurs(content, "-> me] "@)) {
        law_whisper_line_is_direct_message(admin, content);
    }
    law_arguments_are_kept("say"@, text);
    lemma_say_names_itself();
    assert(chatted(opts, state, line).1 =~= seq![spoken(text), ActionView::MarkDmHandled]);
    assert forall|command: Seq<char>| text == #[trigger] (seq!['/'] + command) implies spoken(text)
        == ActionView::SendCommand(command) by {
        law_text_is_spoken_to_the_letter(command);
    }
}

/// `say` in lower case is a command name, and none of those looked at before it.
proof fn lemma_say_names_itself()
    ensures
        command_name("say"@) == "say"@,
        "say"@ != "help"@,
        "say"@ != "about"@,
        "say"@ != "tp"@,
        "say"@ != "admins"@,
        "say"@ != "comehere"@,
{
    reveal_strlit("say");
    reveal_strlit("help");
    reveal_strlit("about");
    reveal_strlit("tp");
    reveal_strlit("admins");
    reveal_strlit("comehere");
    assert("say"@.len() == 3);
    assert("help"@.len() == 4);
    assert("about"@.len() == 5);
    assert("tp"@.len() == 2);
    assert("admins"@.len() == 6);
    assert("comehere"@.len() == 8);
    assert(is_ascii_chars("say"@));
    assert(ascii_lower("say"@) =~= "say"@);
}

} // verus!
