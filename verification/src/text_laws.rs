//! What the functions on texts do, character by character.

use vstd::prelude::*;
#[allow(unused_imports)]
use crate::text::{
    ascii_lower,
    ascii_lower_char,
    begins_with,
    is_first,
    is_white_space,
    joined,
    lemma_joined_push,
    lemma_split_at,
    lemma_split_none,
    lowercase,
    occurs,
    occurs_at,
    split_pieces,
    texts,
    trimmed,
    unicode_lowercase,
};
#[allow(unused_imports)]
use vstd::utf8::is_ascii_chars;

verus! {

/// From position `i` on, the characters of `s` are those of `pat`.
pub open spec fn reads(s: Seq<char>, i: int, pat: Seq<char>) -> bool {
    0 <= i && i + pat.len() <= s.len() && forall|k: int|
        0 <= k < pat.len() ==> s[i + k] == #[trigger] pat[k]
}

/// A text stands where its characters do.
pub proof fn law_occurrence_is_read(s: Seq<char>, pat: Seq<char>, i: int)
    ensures
        occurs_at(s, pat, i) <==> reads(s, i, pat),
{
    if occurs_at(s, pat, i) {
        assert forall|k: int| 0 <= k < pat.len() implies s[i + k] == #[trigger] pat[k] by {
            assert(s.subrange(i, i + pat.len())[k] == pat[k]);
        }
    }
    if reads(s, i, pat) {
        assert(s.subrange(i, i + pat.len()) =~= pat);
    }
}

/// A text is found at its leftmost position, and nowhere exactly where it stands
/// nowhere.
pub proof fn law_search_is_leftmost(s: Seq<char>, pat: Seq<char>, i: int)
    ensures
        is_first(s, pat, i) <==> reads(s, i, pat) && forall|j: int|
            j < i ==> !#[trigger] reads(s, j, pat),
        occurs(s, pat) <==> exists|j: int| #[trigger] reads(s, j, pat),
{
    law_occurrence_is_read(s, pat, i);
    assert forall|j: int| #[trigger] reads(s, j, pat) == occurs_at(s, pat, j) by {
        law_occurrence_is_read(s, pat, j);
    }
    assert forall|j: int| #[trigger] occurs_at(s, pat, j) == reads(s, j, pat) by {
        law_occurrence_is_read(s, pat, j);
    }
}

/// A text is parted at the leftmost separator: what stands before it is the first
/// piece, and what stands behind it gives the others.
pub proof fn law_split_at_leftmost_separator(a: Seq<char>, sep: Seq<char>, b: Seq<char>)
    requires
        sep.len() > 0,
        forall|j: int| 0 <= j < a.len() ==> !#[trigger] reads(a + sep + b, j, sep),
    ensures
        split_pieces(a + sep + b, sep) == seq![a] + split_pieces(b, sep),
{
    let s = a + sep + b;
    let n = a.len() as int;
    assert(reads(s, n, sep));
    law_search_is_leftmost(s, sep, n);
    lemma_split_at(s, sep, n);
    assert(s.take(n) =~= a);
    assert(s.skip(n + sep.len()) =~= b);
}

/// A text without a separator is not parted.
pub proof fn law_split_without_separator(s: Seq<char>, sep: Seq<char>)
    requires
        forall|j: int| !#[trigger] reads(s, j, sep),
    ensures
        split_pieces(s, sep) == seq![s],
{
    law_search_is_leftmost(s, sep, 0);
    lemma_split_none(s, sep);
}

/// Parts are joined from left to right with the separator between each two.
pub proof fn law_join_puts_separators_between(
    parts: Seq<Seq<char>>,
    sep: Seq<char>,
    part: Seq<char>,
)
    ensures
        joined(Seq::<Seq<char>>::empty(), sep) == Seq::<char>::empty(),
        joined(seq![part], sep) == part,
        parts.len() > 0 ==> joined(parts.push(part), sep) == joined(parts, sep) + sep + part,
{
    if parts.len() > 0 {
        lemma_joined_push(parts, sep, part);
    }
}

/// A text begins with its first character and with no other.
pub proof fn law_first_character(c: char, d: char, rest: Seq<char>)
    ensures
        begins_with(seq![c] + rest, d) <==> c == d,
        !begins_with(Seq::<char>::empty(), d),
{
    assert((seq![c] + rest)[0] == c);
}

/// The strings of a list keep their number, order and characters.
pub proof fn law_texts_of_strings(list: Seq<String>)
    ensures
        texts(list).len() == list.len(),
        forall|i: int| 0 <= i < list.len() ==> #[trigger] texts(list)[i] == list[i]@,
{
}

/// Two characters are the same, or the upper and the lower case form of one of
/// the letters from A to Z.
pub open spec fn same_letter(a: char, b: char) -> bool {
    ||| a == b
    ||| 65 <= a as int <= 90 && b as int == a as int + 32
    ||| 65 <= b as int <= 90 && a as int == b as int + 32
}

/// Two texts are the same but for the case of the letters from A to Z.
pub open spec fn same_but_case(a: Seq<char>, b: Seq<char>) -> bool {
    a.len() == b.len() && forall|i: int| 0 <= i < a.len() ==> same_letter(#[trigger] a[i], b[i])
}

/// The code of a lower case form.
proof fn lemma_lower_code(c: char)
    ensures
        ascii_lower_char(c) as int == if 65 <= c as int <= 90 {
            c as int + 32
        } else {
            c as int
        },
{
    if 'A' <= c && c <= 'Z' {
        assert(ascii_lower_char(c) as u32 == (c as u32) + 32);
    }
}

/// Each of the letters from A to Z is replaced by the one 32 codes later, every
/// other character stays, and so does the length.
pub proof fn law_ascii_lower_case(s: Seq<char>)
    ensures
        ascii_lower(s).len() == s.len(),
        forall|i: int|
            0 <= i < s.len() ==> (#[trigger] ascii_lower(s)[i]) as int == if 65 <= s[i] as int
                <= 90 {
                s[i] as int + 32
            } else {
                s[i] as int
            },
{
    assert forall|i: int| 0 <= i < s.len() implies (#[trigger] ascii_lower(s)[i]) as int == if 65
        <= s[i] as int <= 90 {
        s[i] as int + 32
    } else {
        s[i] as int
    } by {
        lemma_lower_code(s[i]);
    }
}

/// Texts have the same ASCII lower case form exactly where they are the same but
/// for the case of the letters from A to Z.
pub proof fn law_ascii_case_is_all_that_is_ignored(a: Seq<char>, b: Seq<char>)
    ensures
        ascii_lower(a) == ascii_lower(b) <==> same_but_case(a, b),
{
    law_ascii_lower_case(a);
    law_ascii_lower_case(b);
    let x = ascii_lower(a);
    let y = ascii_lower(b);
    if x == y {
        assert forall|i: int| 0 <= i < a.len() implies same_letter(#[trigger] a[i], b[i]) by {
            assert(x[i] as int == y[i] as int);
            assert(a[i] as int == b[i] as int ==> a[i] == b[i]);
        }
    }
    if same_but_case(a, b) {
        assert forall|i: int| 0 <= i < x.len() implies #[trigger] x[i] == y[i] by {
            assert(same_letter(a[i], b[i]));
            assert(x[i] as int == y[i] as int);
        }
        assert(x =~= y);
    }
}

/// No code point is negative.
proof fn lemma_code_is_natural(c: char)
    ensures
        0 <= c as int,
{
}

/// The lower case form of an ASCII text differs from it only in the letters from
/// A to Z; that of any other text is the one that the standard library gives.
pub proof fn law_lower_case(s: Seq<char>)
    ensures
        (forall|i: int| 0 <= i < s.len() ==> (#[trigger] s[i]) as int <= 127) ==> {
            &&& lowercase(s).len() == s.len()
            &&& forall|i: int|
                0 <= i < s.len() ==> (#[trigger] lowercase(s)[i]) as int == if 65 <= s[i] as int
                    <= 90 {
                    s[i] as int + 32
                } else {
                    s[i] as int
                }
        },
        (exists|i: int| 0 <= i < s.len() && (#[trigger] s[i]) as int > 127) ==> lowercase(s)
            == unicode_lowercase(s),
{
    law_ascii_lower_case(s);
    if forall|i: int| 0 <= i < s.len() ==> (#[trigger] s[i]) as int <= 127 {
        assert forall|i: int| 0 <= i < s.len() implies '\0' <= #[trigger] s[i] <= '\u{7f}' by {
            lemma_code_is_natural(s[i]);
            assert(s[i] as int <= 127);
        }
        assert(is_ascii_chars(s));
    }
}

/// The code points of the white space characters.
pub open spec fn white_codes() -> Seq<int> {
    seq![
        9, 10, 11, 12, 13, 32, 133, 160, 5760, 8192, 8193, 8194, 8195, 8196, 8197, 8198, 8199,
        8200, 8201, 8202, 8232, 8233, 8239, 8287, 12288,
    ]
}

/// The white space characters are those of the list.
proof fn lemma_white(c: char)
    ensures
        is_white_space(c) <==> white_codes().contains(c as int),
{
    let codes = white_codes();
    assert(codes.len() == 25);
    if is_white_space(c) {
        let n = c as int;
        if n <= 13 {
            assert(codes[n - 9] == n);
        } else if 8192 <= n <= 8202 {
            assert(codes[9 + (n - 8192)] == n);
        } else if n == 32 {
            assert(codes[5] == n);
        } else if n == 133 {
            assert(codes[6] == n);
        } else if n == 160 {
            assert(codes[7] == n);
        } else if n == 5760 {
            assert(codes[8] == n);
        } else if n == 8232 {
            assert(codes[20] == n);
        } else if n == 8233 {
            assert(codes[21] == n);
        } else if n == 8239 {
            assert(codes[22] == n);
        } else if n == 8287 {
            assert(codes[23] == n);
        } else {
            assert(codes[24] == n);
        }
    }
    if codes.contains(c as int) {
        let k = codes.index_of(c as int);
        assert(codes[k] == c as int);
        assert(0 <= k < 25);
    }
}

/// `middle` begins at position `i` of `s`, all before and behind it is white
/// space, and it neither begins nor ends with white space.
pub open spec fn is_middle(s: Seq<char>, i: int, middle: Seq<char>) -> bool {
    &&& reads(s, i, middle)
    &&& forall|k: int| 0 <= k < i ==> white_codes().contains((#[trigger] s[k]) as int)
    &&& forall|k: int|
        i + middle.len() <= k < s.len() ==> white_codes().contains((#[trigger] s[k]) as int)
    &&& middle.len() > 0 ==> !white_codes().contains(middle[0] as int) && !white_codes().contains(
        middle.last() as int,
    )
}

/// Trimming takes the white space away at both ends, and nothing else.
pub proof fn law_trim_leaves_the_middle(s: Seq<char>)
    ensures
        exists|i: int| #[trigger] is_middle(s, i, trimmed(s)),
    decreases s.len(),
{
    let t = trimmed(s);
    if s.len() == 0 {
        assert(is_middle(s, 0, t));
    } else {
        lemma_white(s[0]);
        lemma_white(s.last());
        if is_white_space(s[0]) {
            law_trim_leaves_the_middle(s.skip(1));
            let i = choose|i: int| #[trigger] is_middle(s.skip(1), i, t);
            assert forall|k: int| 0 <= k < t.len() implies s[i + 1 + k] == #[trigger] t[k] by {
                assert(s.skip(1)[i + k] == t[k]);
            }
            assert forall|k: int| 0 <= k < i + 1 implies white_codes().contains(
                (#[trigger] s[k]) as int,
            ) by {
                if k > 0 {
                    assert(s.skip(1)[k - 1] == s[k]);
                }
            }
            assert forall|k: int| i + 1 + t.len() <= k < s.len() implies white_codes().contains(
                (#[trigger] s[k]) as int,
            ) by {
                assert(s.skip(1)[k - 1] == s[k]);
            }
            assert(is_middle(s, i + 1, t));
        } else if is_white_space(s.last()) {
            let init = s.drop_last();
            law_trim_leaves_the_middle(init);
            let i = choose|i: int| #[trigger] is_middle(init, i, t);
            assert forall|k: int| 0 <= k < t.len() implies s[i + k] == #[trigger] t[k] by {
                assert(init[i + k] == t[k]);
            }
            assert forall|k: int| 0 <= k < i implies white_codes().contains(
                (#[trigger] s[k]) as int,
            ) by {
                assert(init[k] == s[k]);
            }
            assert forall|k: int| i + t.len() <= k < s.len() implies white_codes().contains(
                (#[trigger] s[k]) as int,
            ) by {
                if k < init.len() {
                    assert(init[k] == s[k]);
                }
            }
            assert(is_middle(s, i, t));
        } else {
            assert(is_middle(s, 0, t));
        }
    }
}

} // verus!
