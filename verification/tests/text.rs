use tms::text::{
    chars_of, concat2, concat3, holds, is_text, is_whitespace, lines, printed_text, remove_char,
    replace, replace_char, same_text, split_on, string_of, trim,
};

const SAMPLES: [&str; 22] = [
    "",
    " ",
    "\n",
    "\r\n",
    "a",
    "a\n",
    "a\r\n",
    "a\r",
    "\na",
    "a\n\nb",
    "a\n\n\nb\n",
    "a\n\n\n\nb",
    "a\r\nb\r\n\r\nc",
    "  spaced out\t\n",
    "\u{a0}wide\u{3000}",
    "'quoted'\n",
    "dev.project",
    "a,b,c",
    "a,,b,",
    "aaaa",
    "über/größe",
    "tmux new-window -n x",
];

#[test]
fn white_space_is_that_of_unicode() {
    for n in 0..=0x10ffffu32 {
        if let Some(c) = char::from_u32(n) {
            assert_eq!(is_whitespace(c), c.is_whitespace(), "{:x}", n);
        }
    }
}

#[test]
fn trim_takes_white_space_from_both_ends() {
    for s in SAMPLES {
        assert_eq!(trim(s), s.trim());
    }
    assert_eq!(trim(" \t main dev \n"), "main dev");
    assert_eq!(trim("\n\n"), "");
}

#[test]
fn lines_end_at_line_feeds() {
    for s in SAMPLES {
        let expected: Vec<String> = s.lines().map(String::from).collect();
        assert_eq!(lines(s), expected);
    }
    assert_eq!(lines("main\ndev\r\nx\r"), vec!["main", "dev", "x\r"]);
    assert!(lines("").is_empty());
}

#[test]
fn splitting_gives_one_piece_more_than_separators() {
    for s in SAMPLES {
        for c in ['\n', ',', ' ', 'a'] {
            let expected: Vec<String> = s.split(c).map(String::from).collect();
            assert_eq!(split_on(s, c), expected);
        }
    }
    assert_eq!(split_on("", ','), vec![""]);
    assert_eq!(split_on("0.1,zsh,/home", ','), vec!["0.1", "zsh", "/home"]);
}

#[test]
fn pieces_join_to_the_whole() {
    for s in SAMPLES {
        assert_eq!(split_on(s, '\n').join("\n"), s);
    }
}

#[test]
fn replacing_goes_from_the_left_without_overlap() {
    for s in SAMPLES {
        for pattern in ["\n\n", "a", "aa", "aaa", "", "x", "e"] {
            for with in ["\n", "", "b", "xyz", "aa"] {
                assert_eq!(replace(s, pattern, with), s.replace(pattern, with));
            }
        }
    }
    assert_eq!(replace("aaa", "aa", "b"), "ba");
    assert_eq!(replace("ab", "", "-"), "-a-b-");
    assert_eq!(replace("/home/old/old", "old", "new"), "/home/new/new");
}

#[test]
fn replacing_a_text_by_itself_changes_nothing() {
    for s in SAMPLES {
        assert_eq!(replace(s, "a", "a"), s);
    }
}

#[test]
fn single_characters_are_removed_and_replaced() {
    for s in SAMPLES {
        for c in ['\'', '\n', '.', 'a'] {
            assert_eq!(remove_char(s, c), s.replace(c, ""));
            assert_eq!(replace_char(s, c, '_'), s.replace(c, "_"));
        }
    }
    assert_eq!(replace_char("a.b.c", '.', '_'), "a_b_c");
    assert_eq!(remove_char("'main'", '\''), "main");
}

#[test]
fn texts_are_compared_by_their_characters() {
    for a in SAMPLES {
        for b in SAMPLES {
            assert_eq!(same_text(a, b), a == b);
        }
    }
}

#[test]
fn characters_go_into_strings_and_back() {
    for s in SAMPLES {
        let chars = chars_of(s);
        assert_eq!(chars, s.chars().collect::<Vec<char>>());
        assert_eq!(string_of(&chars, 0, chars.len()), s);
    }
    assert_eq!(string_of(&chars_of("größe"), 1, 4), "röß");
}

#[test]
fn strings_are_put_together() {
    assert_eq!(concat2("tmux ", "attach"), "tmux attach");
    assert_eq!(concat3("a", "", "c"), "ac");
}

#[test]
fn output_is_text_if_it_is_utf8() {
    assert!(is_text(&vec![]));
    assert!(is_text(&"größe".as_bytes().to_vec()));
    assert!(!is_text(&vec![b'a', 0xff]));
    assert!(!is_text(&vec![0xc3]));
    assert_eq!(printed_text("größe\n".as_bytes().to_vec()), "größe\n");
}

#[test]
fn a_list_holds_what_is_in_it() {
    let list = vec!["main".to_string(), "dev".to_string()];
    assert!(holds(&list, "dev"));
    assert!(!holds(&list, "de"));
    assert!(!holds(&vec![], ""));
}
