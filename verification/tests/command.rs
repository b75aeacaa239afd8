use blossom::command::{Command, Vocabulary};
use blossom::text::{lowered_eq, split_words, str_eq, trim};

#[test]
fn command_from_reads_exit_words() {
    assert_eq!(Command::from("exit"), Command::Exit);
    assert_eq!(Command::from("/exit"), Command::Exit);
    assert_eq!(Command::from("bye"), Command::Exit);
    assert_eq!(Command::from("EXIT"), Command::Exit);
    assert_eq!(Command::from("/Exit now"), Command::Exit);
}

#[test]
fn bye_is_an_exit_word_only_where_declared() {
    assert_eq!(Command::parse("bye", Vocabulary::WithBye), Command::Exit);
    assert_eq!(
        Command::parse("bye", Vocabulary::Plain),
        Command::Chat {
            message: "bye".to_string()
        }
    );
    assert_eq!(Command::parse("exit", Vocabulary::Plain), Command::Exit);
    assert_eq!(Command::parse("/exit", Vocabulary::Plain), Command::Exit);
}

#[test]
fn plain_vocabulary_takes_the_whole_line() {
    for line in ["exit", "/exit", "EXIT", "/Exit"] {
        assert_eq!(Command::parse(line, Vocabulary::Plain), Command::Exit);
    }
    for line in ["exit now", "/exit now", " exit", "exit ", "/attach x", "/attach", "bye", "", "  ", "hello"] {
        assert_eq!(
            Command::parse(line, Vocabulary::Plain),
            Command::Chat {
                message: line.to_string()
            },
            "{:?}",
            line
        );
    }
    assert_eq!(Command::parse("exit now", Vocabulary::WithBye), Command::Exit);
    assert_eq!(
        Command::parse("/attach x", Vocabulary::WithBye),
        Command::Attach {
            paths: vec!["x".to_string()]
        }
    );
}

#[test]
fn command_from_reads_attach_with_paths() {
    assert_eq!(
        Command::from("/attach notes.txt  docs/a.txt\tb.txt"),
        Command::Attach {
            paths: vec![
                "notes.txt".to_string(),
                "docs/a.txt".to_string(),
                "b.txt".to_string()
            ]
        }
    );
    assert_eq!(Command::from("/ATTACH"), Command::Attach { paths: vec![] });
}

#[test]
fn command_from_keeps_other_lines_as_chat() {
    assert_eq!(
        Command::from("hello  world"),
        Command::Chat {
            message: "hello  world".to_string()
        }
    );
    assert_eq!(
        Command::from("say bye"),
        Command::Chat {
            message: "say bye".to_string()
        }
    );
    assert_eq!(
        Command::from("exits"),
        Command::Chat {
            message: "exits".to_string()
        }
    );
    assert_eq!(
        Command::from(""),
        Command::Chat {
            message: "".to_string()
        }
    );
    assert_eq!(
        Command::from("   "),
        Command::Chat {
            message: "   ".to_string()
        }
    );
}

#[test]
fn split_words_agrees_with_std() {
    for text in [
        "",
        " ",
        "a",
        " a  b\tc\n",
        "\u{a0}x\u{2003}y\u{3000}",
        "tab\u{b}bed \u{85}next\u{1680}ogham\u{2028}ls\u{2029}ps\u{202f}nn\u{205f}mm",
        "zero\u{200b}width",
        "fs\u{1c}not",
    ] {
        let expected: Vec<String> = text.split_whitespace().map(|w| w.to_string()).collect();
        assert_eq!(split_words(text), expected, "{:?}", text);
    }
}

#[test]
fn trim_agrees_with_std() {
    for text in ["", "  ", "a", "  a b \n", "\u{3000}x\u{a0}", "\u{200b}x\u{200b}"] {
        assert_eq!(trim(text), text.trim(), "{:?}", text);
    }
}

#[test]
fn lowered_eq_folds_ascii_capitals_only() {
    assert!(lowered_eq("ExIt", "exit"));
    assert!(lowered_eq("/ATTACH", "/attach"));
    assert!(!lowered_eq("exit", "EXIT"));
    assert!(!lowered_eq("exit ", "exit"));
    assert!(!lowered_eq("\u{212a}", "k"));
    assert!(lowered_eq("@[`{", "@[`{"));
}

#[test]
fn str_eq_compares_text() {
    assert!(str_eq("", ""));
    assert!(str_eq("päth", "päth"));
    assert!(!str_eq("a", "b"));
    assert!(!str_eq("a", "ab"));
}
