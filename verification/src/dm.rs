//! Direct messages as they appear in the chat.

use vstd::prelude::*;
use crate::text::{find, split, starts_with_char, without_first};
#[allow(unused_imports)]
use crate::text::{
    begins_with,
    first_occurrence,
    is_first,
    lemma_split_len,
    occurs,
    occurs_at,
    split_pieces,
    texts,
};

verus! {

/// A message that was sent to the bot alone.
#[derive(Debug)]
pub struct DirectMessage {
    pub sender: String,
    pub content: String,
}

/// A command and what was written behind it.
#[derive(Debug)]
pub struct Request {
    pub command: String,
    pub args: Vec<String>,
}

/// The sender and the content of a chat line that is a direct message: either
/// `[sender -> me] content` or `sender whispers to you: content`. The sender is
/// what stands before the first space, the content what stands between the first
/// two arrows or whispers.
pub open spec fn direct_message(line: Seq<char>) -> Option<(Seq<char>, Seq<char>)> {
    if begins_with(line, '[') && occurs(line, "-> me] "@) {
        Some((split_pieces(line, " "@)[0].skip(1), split_pieces(line, "-> me] "@)[1]))
    } else if occurs(line, " whispers to you: "@) {
        Some((split_pieces(line, " "@)[0], split_pieces(line, "whispers to you: "@)[1]))
    } else {
        None
    }
}

/// What stands before the first space of a text.
pub open spec fn first_word(content: Seq<char>) -> Seq<char> {
    split_pieces(content, " "@)[0]
}

/// The pieces of a text behind its first space.
pub open spec fn further_words(content: Seq<char>) -> Seq<Seq<char>> {
    split_pieces(content, " "@).skip(1)
}

/// A line that begins with a bracket has a first word that does so too.
proof fn lemma_bracket(line: Seq<char>)
    requires
        begins_with(line, '['),
    ensures
        split_pieces(line, " "@)[0].len() > 0,
{
    reveal_strlit(" ");
    lemma_split_len(line, " "@);
    if occurs(line, " "@) {
        let i = first_occurrence(line, " "@);
        if is_first(line, " "@, i) && i == 0 {
            assert(line.subrange(0, 1)[0] == " "@[0]);
        }
    }
}

/// A whisper with a space in front is a whisper.
proof fn lemma_whisper(line: Seq<char>)
    requires
        occurs(line, " whispers to you: "@),
    ensures
        occurs(line, "whispers to you: "@),
{
    reveal_strlit(" whispers to you: ");
    reveal_strlit("whispers to you: ");
    let long = " whispers to you: "@;
    let short = "whispers to you: "@;
    let i = choose|i: int| occurs_at(line, long, i);
    assert(long.skip(1) =~= short);
    assert(line.subrange(i + 1, i + 1 + short.len()) =~= line.subrange(i, i + long.len()).skip(1));
    assert(occurs_at(line, short, i + 1));
}

/// A copy of the `i`-th piece.
fn piece_at(pieces: &Vec<String>, i: usize) -> (piece: String)
    requires
        i < pieces@.len(),
    ensures
        piece@ == texts(pieces@)[i as int],
{
    pieces[i].clone()
}

/// Recognises a direct message.
pub fn parse_direct_message(line: &str) -> (dm: Option<DirectMessage>)
    ensures
        match dm {
            Some(m) => direct_message(line@) == Some((m.sender@, m.content@)),
            None => direct_message(line@) is None,
        },
{
    proof {
        reveal_strlit(" ");
        reveal_strlit("-> me] ");
        reveal_strlit("whispers to you: ");
        lemma_split_len(line@, " "@);
        lemma_split_len(line@, "-> me] "@);
        lemma_split_len(line@, "whispers to you: "@);
    }
    let words = split(line, " ");
    assert(texts(words@).len() == words@.len());
    if starts_with_char(line, '[') && find(line, "-> me] ").is_some() {
        proof {
            lemma_bracket(line@);
        }
        let parts = split(line, "-> me] ");
        assert(texts(parts@).len() == parts@.len());
        let first = piece_at(&words, 0);
        Some(DirectMessage { sender: without_first(first.as_str()), content: piece_at(&parts, 1) })
    } else if find(line, " whispers to you: ").is_some() {
        proof {
            lemma_whisper(line@);
        }
        let parts = split(line, "whispers to you: ");
        assert(texts(parts@).len() == parts@.len());
        Some(DirectMessage { sender: piece_at(&words, 0), content: piece_at(&parts, 1) })
    } else {
        None
    }
}

/// Parts the content of a direct message into a command and its arguments.
pub fn parse_request(content: &str) -> (request: Request)
    ensures
        request.command@ == first_word(content@),
        texts(request.args@) == further_words(content@),
{
    proof {
        reveal_strlit(" ");
        lemma_split_len(content@, " "@);
    }
    let mut args = split(content, " ");
    assert(texts(args@).len() == args@.len());
    let ghost pieces = args@;
    let command = args.remove(0);
    assert(texts(args@) =~= texts(pieces).skip(1));
    Request { command, args }
}

} // verus!
