use stasis_bot::text::{
    chars_of, ends_with, eq_ignore_ascii_case, find, join, same_text, split, starts_with_char,
    trim, without_first,
};

fn strings(parts: &[&str]) -> Vec<String> {
    parts.iter().map(|p| p.to_string()).collect()
}

#[test]
fn split_gives_pieces_between_separators() {
    assert_eq!(split("a b  c", " "), strings(&["a", "b", "", "c"]));
    assert_eq!(split("", " "), strings(&[""]));
    assert_eq!(split(" ", " "), strings(&["", ""]));
    assert_eq!(split("aaa", "aa"), strings(&["", "a"]));
    assert_eq!(split("größer als", " "), strings(&["größer", "als"]));
}

#[test]
fn split_agrees_with_std() {
    let lines = [
        "[Bob -> me] tp",
        "[a-> me] b-> me] c",
        "Bob whispers to you: hi whispers to you: ho",
        "",
        "-> me] -> me] ",
        "ünï-> me] cödé",
    ];
    for line in lines {
        for sep in [" ", "-> me] ", "whispers to you: "] {
            let expected: Vec<String> = line.split(sep).map(|s| s.to_string()).collect();
            assert_eq!(split(line, sep), expected);
        }
    }
}

#[test]
fn join_undoes_split() {
    for text in ["", " ", "a", "a b", " a  b ", "hello there you"] {
        assert_eq!(join(&split(text, " "), " "), text);
    }
    assert_eq!(join(&[], ", "), "");
    assert_eq!(join(&strings(&["x", "y", "z"]), ", "), "x, y, z");
}

#[test]
fn find_gives_leftmost_position_in_characters() {
    assert_eq!(find("abcabc", "bc"), Some(1));
    assert_eq!(find("äöü", "ü"), Some(2));
    assert_eq!(find("abc", "x"), None);
    assert_eq!(find("ab", "abc"), None);
    assert_eq!(find("abc", ""), Some(0));
}

#[test]
fn ascii_case_is_ignored_and_no_other() {
    assert!(eq_ignore_ascii_case("EnderKill98", "enderkill98"));
    assert!(!eq_ignore_ascii_case("Ä", "ä"));
    assert!(!eq_ignore_ascii_case("[", "{"));
    assert!(!eq_ignore_ascii_case("a", "ab"));
}

#[test]
fn trim_drops_white_space_at_both_ends() {
    assert_eq!(trim("  /help me \r\n"), "/help me");
    assert_eq!(trim("\u{a0}x\u{2003}"), "x");
    assert_eq!(trim(" \t\n"), "");
    assert_eq!(trim("\u{1c}x"), "\u{1c}x");
    for text in ["", "a", " a b ", "\u{85}\u{3000}", "\u{200b}x "] {
        assert_eq!(trim(text), text.trim());
    }
}

#[test]
fn trim_knows_all_white_space() {
    let listed = |code: u32| {
        matches!(
            code,
            0x9..=0xd
                | 0x20
                | 0x85
                | 0xa0
                | 0x1680
                | 0x2000..=0x200a
                | 0x2028
                | 0x2029
                | 0x202f
                | 0x205f
                | 0x3000
        )
    };
    for code in 0..=0x10ffff {
        if let Some(c) = char::from_u32(code) {
            assert_eq!(trim(&c.to_string()).is_empty(), listed(code), "{code:x}");
            assert_eq!(c.is_whitespace(), listed(code), "{code:x}");
        }
    }
}

#[test]
fn small_text_functions() {
    assert_eq!(chars_of("aß"), vec!['a', 'ß']);
    assert!(ends_with("minecraft:oak_trapdoor", "_trapdoor"));
    assert!(!ends_with("trapdoor", "_trapdoor"));
    assert!(!ends_with("oak_trapdoor_", "_trapdoor"));
    assert!(starts_with_char("[x", '['));
    assert!(!starts_with_char("", '['));
    assert_eq!(without_first("éa"), "a");
    assert!(same_text("tp", "tp"));
    assert!(!same_text("tp", "TP"));
}
