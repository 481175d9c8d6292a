//! Text primitives over sequences of characters.

use vstd::prelude::*;
use vstd::string::*;
use vstd::utf8::is_ascii_chars;

verus! {

/// The texts of a list of strings.
pub open spec fn texts(v: Seq<String>) -> Seq<Seq<char>> {
    Seq::new(v.len(), |i: int| v[i]@)
}

/// `pat` stands in `s` at position `i`.
pub open spec fn occurs_at(s: Seq<char>, pat: Seq<char>, i: int) -> bool {
    0 <= i && i + pat.len() <= s.len() && s.subrange(i, i + pat.len()) == pat
}

/// `pat` stands somewhere in `s`.
pub open spec fn occurs(s: Seq<char>, pat: Seq<char>) -> bool {
    exists|i: int| occurs_at(s, pat, i)
}

/// `i` is the leftmost position of `pat` in `s`.
pub open spec fn is_first(s: Seq<char>, pat: Seq<char>, i: int) -> bool {
    occurs_at(s, pat, i) && forall|j: int| 0 <= j < i ==> !occurs_at(s, pat, j)
}

/// The leftmost position of `pat` in `s`, where there is one.
pub open spec fn first_occurrence(s: Seq<char>, pat: Seq<char>) -> int {
    choose|i: int| is_first(s, pat, i)
}

/// The pieces of `s` between the separators, found from left to right without
/// overlap. There is always at least one piece.
pub open spec fn split_pieces(s: Seq<char>, sep: Seq<char>) -> Seq<Seq<char>>
    decreases s.len(),
{
    let i = first_occurrence(s, sep);
    if sep.len() > 0 && is_first(s, sep, i) {
        seq![s.take(i)] + split_pieces(s.skip(i + sep.len()), sep)
    } else {
        seq![s]
    }
}

/// The parts with `sep` between each two neighbours.
pub open spec fn joined(parts: Seq<Seq<char>>, sep: Seq<char>) -> Seq<char>
    decreases parts.len(),
{
    if parts.len() == 0 {
        Seq::empty()
    } else if parts.len() == 1 {
        parts[0]
    } else {
        parts[0] + sep + joined(parts.skip(1), sep)
    }
}

/// `c`, with an upper case ASCII letter replaced by its lower case one.
pub open spec fn ascii_lower_char(c: char) -> char {
    if 'A' <= c && c <= 'Z' {
        ((c as u32) + 32) as char
    } else {
        c
    }
}

/// `s` with its upper case ASCII letters in lower case.
pub open spec fn ascii_lower(s: Seq<char>) -> Seq<char> {
    Seq::new(s.len(), |i: int| ascii_lower_char(s[i]))
}

/// Whether `s` begins with the character `c`.
pub open spec fn begins_with(s: Seq<char>, c: char) -> bool {
    s.len() > 0 && s[0] == c
}

/// What `str::to_lowercase` makes of a text that is not all ASCII.
pub uninterp spec fn unicode_lowercase(s: Seq<char>) -> Seq<char>;

/// The lower case form of `s`, of which `unicode` is the form that the Unicode
/// tables give: for ASCII text only the letters `A` to `Z` change.
pub open spec fn lowered(s: Seq<char>, unicode: Seq<char>) -> Seq<char> {
    if is_ascii_chars(s) {
        ascii_lower(s)
    } else {
        unicode
    }
}

/// The lower case form of `s`.
pub open spec fn lowercase(s: Seq<char>) -> Seq<char> {
    lowered(s, unicode_lowercase(s))
}

/// Calls `str::to_lowercase`. Of ASCII text it is claimed that the letters `A`
/// to `Z` become `a` to `z` and all else stays; of other text, that the result
/// is a function of the text.
#[verifier::external_body]
pub(crate) fn to_lowercase(s: &str) -> (lower: String)
    ensures
        lower@ == lowered(s@, unicode_lowercase(s@)),
{
    s.to_lowercase()
}

/// Whether a character is white space: those from the horizontal tab to the
/// carriage return, the next line, the spaces of every width, and the line and
/// paragraph separators.
pub open spec fn is_white_space(c: char) -> bool {
    let code = c as u32;
    ||| 0x9 <= code <= 0xd
    ||| code == 0x20
    ||| code == 0x85
    ||| code == 0xa0
    ||| code == 0x1680
    ||| 0x2000 <= code <= 0x200a
    ||| code == 0x2028
    ||| code == 0x2029
    ||| code == 0x202f
    ||| code == 0x205f
    ||| code == 0x3000
}

/// `s` without the white space at its ends.
pub open spec fn trimmed(s: Seq<char>) -> Seq<char>
    decreases s.len(),
{
    if s.len() > 0 && is_white_space(s[0]) {
        trimmed(s.skip(1))
    } else if s.len() > 0 && is_white_space(s.last()) {
        trimmed(s.drop_last())
    } else {
        s
    }
}

/// Whether a character is white space.
fn is_whitespace(c: char) -> (r: bool)
    ensures
        r == is_white_space(c),
{
    let code: u32 = c as u32;
    0x9 <= code && code <= 0xd || code == 0x20 || code == 0x85 || code == 0xa0 || code == 0x1680
        || 0x2000 <= code && code <= 0x200a || code == 0x2028 || code == 0x2029 || code == 0x202f
        || code == 0x205f || code == 0x3000
}

/// `s` without the white space at its ends.
pub fn trim(s: &str) -> (r: String)
    ensures
        r@ == trimmed(s@),
{
    let chars = chars_of(s);
    let n: usize = chars.len();
    let mut from: usize = 0;
    assert(s@.subrange(0, n as int) =~= s@);
    while from < n && is_whitespace(chars[from])
        invariant
            chars@ == s@,
            n == chars@.len(),
            from <= n,
            trimmed(s@) == trimmed(s@.subrange(from as int, n as int)),
        decreases n - from,
    {
        assert(s@.subrange(from as int, n as int).skip(1) =~= s@.subrange(from + 1, n as int));
        from = from + 1;
    }
    let mut to: usize = n;
    while from < to && is_whitespace(chars[to - 1])
        invariant
            chars@ == s@,
            n == chars@.len(),
            from <= to <= n,
            from < n ==> !is_white_space(s@[from as int]),
            trimmed(s@) == trimmed(s@.subrange(from as int, to as int)),
        decreases to - from,
    {
        let ghost part = s@.subrange(from as int, to as int);
        assert(part.drop_last() =~= s@.subrange(from as int, to - 1));
        to = to - 1;
    }
    s.substring_char(from, to).to_owned()
}

/// The characters of `s`.
pub fn chars_of(s: &str) -> (chars: Vec<char>)
    ensures
        chars@ == s@,
{
    let mut chars: Vec<char> = Vec::new();
    for c in it: s.chars()
        invariant
            it.seq() == s@,
            chars@ == it.seq().take(it.index() as int),
    {
        chars.push(c);
    }
    chars
}

/// Whether two texts are the same.
pub fn same_text(a: &str, b: &str) -> (same: bool)
    ensures
        same == (a@ == b@),
{
    a.to_owned() == b.to_owned()
}

/// Whether `s` begins with the character `c`.
pub fn starts_with_char(s: &str, c: char) -> (r: bool)
    ensures
        r == begins_with(s@, c),
{
    s.unicode_len() > 0 && s.get_char(0) == c
}

/// `s` without its first character.
pub fn without_first(s: &str) -> (rest: String)
    requires
        s@.len() > 0,
    ensures
        rest@ == s@.skip(1),
{
    let n: usize = s.unicode_len();
    let rest = s.substring_char(1, n).to_owned();
    assert(rest@ =~= s@.skip(1));
    rest
}

/// Whether `pat` stands in `s` at position `i`.
fn chars_at(s: &Vec<char>, pat: &Vec<char>, i: usize) -> (r: bool)
    requires
        i + pat@.len() <= s@.len(),
    ensures
        r == occurs_at(s@, pat@, i as int),
{
    let total: usize = s.len();
    let n: usize = pat.len();
    let mut k: usize = 0;
    while k < n
        invariant
            total == s@.len(),
            n == pat@.len(),
            i + n <= total,
            k <= n,
            forall|j: int| 0 <= j < k ==> s@[i + j] == pat@[j],
        decreases n - k,
    {
        if s[i + k] != pat[k] {
            assert(s@.subrange(i as int, i + pat@.len())[k as int] != pat@[k as int]);
            return false;
        }
        k = k + 1;
    }
    assert(s@.subrange(i as int, i + pat@.len()) =~= pat@);
    true
}

/// The leftmost position of `pat` in `s`.
pub fn find(s: &str, pat: &str) -> (r: Option<usize>)
    ensures
        match r {
            Some(i) => is_first(s@, pat@, i as int),
            None => !occurs(s@, pat@),
        },
{
    let text = chars_of(s);
    let wanted = chars_of(pat);
    if wanted.len() > text.len() {
        return None;
    }
    let last: usize = text.len() - wanted.len();
    let mut i: usize = 0;
    loop
        invariant
            text@ == s@,
            wanted@ == pat@,
            last + wanted@.len() == text@.len(),
            i <= last,
            forall|j: int| 0 <= j < i ==> !occurs_at(s@, pat@, j),
        decreases last - i,
    {
        if chars_at(&text, &wanted, i) {
            return Some(i);
        }
        if i == last {
            return None;
        }
        i = i + 1;
    }
}

/// Whether `s` ends with `pat`.
pub fn ends_with(s: &str, pat: &str) -> (r: bool)
    ensures
        r == pat@.is_suffix_of(s@),
{
    let text = chars_of(s);
    let wanted = chars_of(pat);
    if wanted.len() > text.len() {
        return false;
    }
    chars_at(&text, &wanted, text.len() - wanted.len())
}

/// Whether two texts are the same but for the case of ASCII letters.
pub fn eq_ignore_ascii_case(a: &str, b: &str) -> (same: bool)
    ensures
        same == (ascii_lower(a@) == ascii_lower(b@)),
{
    let x = chars_of(a);
    let y = chars_of(b);
    if x.len() != y.len() {
        assert(ascii_lower(a@).len() != ascii_lower(b@).len());
        return false;
    }
    let n: usize = x.len();
    let mut i: usize = 0;
    while i < n
        invariant
            n == x@.len(),
            n == y@.len(),
            x@ == a@,
            y@ == b@,
            i <= n,
            forall|j: int| 0 <= j < i ==> ascii_lower(a@)[j] == ascii_lower(b@)[j],
        decreases n - i,
    {
        if lower_code(x[i]) != lower_code(y[i]) {
            assert(ascii_lower(a@)[i as int] != ascii_lower(b@)[i as int]);
            return false;
        }
        i = i + 1;
    }
    assert(ascii_lower(a@) =~= ascii_lower(b@));
    true
}

/// The code point of the lower case form of `c`, as far as ASCII goes.
fn lower_code(c: char) -> (code: u32)
    ensures
        code == ascii_lower_char(c) as u32,
{
    if 'A' <= c && c <= 'Z' {
        c as u32 + 32
    } else {
        c as u32
    }
}

/// An occurrence implies a leftmost one.
proof fn lemma_first_exists(s: Seq<char>, pat: Seq<char>, i: int)
    requires
        occurs_at(s, pat, i),
    ensures
        is_first(s, pat, first_occurrence(s, pat)),
    decreases i,
{
    if exists|j: int| 0 <= j < i && occurs_at(s, pat, j) {
        let j = choose|j: int| 0 <= j < i && occurs_at(s, pat, j);
        lemma_first_exists(s, pat, j);
    } else {
        assert(is_first(s, pat, i));
    }
}

/// There is only one leftmost position.
pub proof fn lemma_first_is(s: Seq<char>, pat: Seq<char>, i: int)
    requires
        is_first(s, pat, i),
    ensures
        first_occurrence(s, pat) == i,
{
    let k = first_occurrence(s, pat);
    assert(is_first(s, pat, k));
}

/// The pieces of a text in which the separator stands first at `i`.
pub proof fn lemma_split_at(s: Seq<char>, sep: Seq<char>, i: int)
    requires
        sep.len() > 0,
        is_first(s, sep, i),
    ensures
        split_pieces(s, sep) == seq![s.take(i)] + split_pieces(s.skip(i + sep.len()), sep),
{
    lemma_first_is(s, sep, i);
}

/// A text without the separator is one piece.
pub proof fn lemma_split_none(s: Seq<char>, sep: Seq<char>)
    requires
        !occurs(s, sep),
    ensures
        split_pieces(s, sep) == seq![s],
{
}

/// A text has more than one piece exactly where the separator occurs in it.
pub proof fn lemma_split_len(s: Seq<char>, sep: Seq<char>)
    requires
        sep.len() > 0,
    ensures
        split_pieces(s, sep).len() >= 1,
        occurs(s, sep) <==> split_pieces(s, sep).len() >= 2,
{
    if occurs(s, sep) {
        let k = choose|k: int| occurs_at(s, sep, k);
        lemma_first_exists(s, sep, k);
        let i = first_occurrence(s, sep);
        assert(split_pieces(s.skip(i + sep.len()), sep).len() >= 1);
    }
}

/// The pieces of `s` between the separators.
pub fn split(s: &str, sep: &str) -> (pieces: Vec<String>)
    requires
        sep@.len() > 0,
    ensures
        texts(pieces@) == split_pieces(s@, sep@),
{
    let mut pieces: Vec<String> = Vec::new();
    let mut rest: &str = s;
    let width: usize = sep.unicode_len();
    assert(texts(pieces@) + split_pieces(rest@, sep@) =~= split_pieces(s@, sep@));
    loop
        invariant
            width == sep@.len(),
            width > 0,
            texts(pieces@) + split_pieces(rest@, sep@) == split_pieces(s@, sep@),
        decreases rest@.len(),
    {
        let ghost before = pieces@;
        let ghost whole = rest@;
        match find(rest, sep) {
            Some(i) => {
                let n: usize = rest.unicode_len();
                proof {
                    lemma_split_at(rest@, sep@, i as int);
                }
                let piece = rest.substring_char(0, i).to_owned();
                assert(piece@ =~= whole.take(i as int));
                pieces.push(piece);
                rest = rest.substring_char(i + width, n);
                assert(rest@ =~= whole.skip(i + width));
                assert(texts(pieces@) =~= texts(before) + seq![whole.take(i as int)]);
                assert(texts(before) + (seq![whole.take(i as int)] + split_pieces(rest@, sep@))
                    =~= texts(pieces@) + split_pieces(rest@, sep@));
            },
            None => {
                proof {
                    lemma_split_none(rest@, sep@);
                }
                pieces.push(rest.to_owned());
                assert(texts(pieces@) =~= texts(before) + seq![rest@]);
                return pieces;
            },
        }
    }
}

/// Joining one part more.
pub proof fn lemma_joined_push(parts: Seq<Seq<char>>, sep: Seq<char>, part: Seq<char>)
    requires
        parts.len() > 0,
    ensures
        joined(parts.push(part), sep) == joined(parts, sep) + sep + part,
    decreases parts.len(),
{
    let more = parts.push(part);
    assert(more.skip(1) =~= parts.skip(1).push(part));
    if parts.len() == 1 {
        assert(more.skip(1) =~= seq![part]);
        assert(joined(more.skip(1), sep) == part);
    } else {
        lemma_joined_push(parts.skip(1), sep, part);
        assert(joined(more, sep) =~= joined(parts, sep) + sep + part);
    }
}

/// The parts with `sep` between each two neighbours.
pub fn join(parts: &[String], sep: &str) -> (whole: String)
    ensures
        whole@ == joined(texts(parts@), sep@),
{
    let mut whole = String::new();
    let n: usize = parts.len();
    let mut i: usize = 0;
    while i < n
        invariant
            n == parts@.len(),
            i <= n,
            whole@ == joined(texts(parts@.take(i as int)), sep@),
        decreases n - i,
    {
        proof {
            let upto = texts(parts@.take(i as int));
            assert(texts(parts@.take(i + 1)) =~= upto.push(parts@[i as int]@));
            if i > 0 {
                lemma_joined_push(upto, sep@, parts@[i as int]@);
            }
        }
        if i > 0 {
            whole.append(sep);
        }
        let ghost before = whole@;
        whole.append(parts[i].as_str());
        assert(i == 0 ==> before + parts@[i as int]@ =~= parts@[i as int]@);
        i = i + 1;
    }
    assert(parts@.take(n as int) =~= parts@);
    whole
}

/// Joining the pieces of a text with the separator they were split at gives the
/// text back.
pub proof fn law_join_undoes_split(s: Seq<char>, sep: Seq<char>)
    requires
        sep.len() > 0,
    ensures
        joined(split_pieces(s, sep), sep) == s,
    decreases s.len(),
{
    let i = first_occurrence(s, sep);
    if is_first(s, sep, i) {
        let rest = s.skip(i + sep.len());
        law_join_undoes_split(rest, sep);
        lemma_split_len(rest, sep);
        let pieces = split_pieces(s, sep);
        assert(pieces.skip(1) =~= split_pieces(rest, sep));
        assert(s =~= s.take(i) + s.subrange(i, i + sep.len()) + rest);
    }
}

} // verus!
