use iris_lib::ircs::{IrcCommand, IrcMessage};
use iris_lib::text::{
    ascii_upper_code, chars_eq_ignore_ascii_case, chars_of, clone_strings, find_char, find_string,
    has_crlf_at_end, is_ascii_alphanumeric, is_ascii_digit, is_whitespace, split_words, starts_with,
    str_eq, without_string,
};

fn strings(words: &[&str]) -> Vec<String> {
    words.iter().map(|w| w.to_string()).collect()
}

#[test]
fn whitespace_is_what_std_calls_whitespace() {
    let mut count = 0;
    for code in 0..=0x10FFFFu32 {
        if let Some(c) = char::from_u32(code) {
            assert_eq!(is_whitespace(c), c.is_whitespace(), "U+{:04X}", code);
            if is_whitespace(c) {
                count += 1;
            }
        }
    }
    assert_eq!(count, 25);
}

#[test]
fn ascii_classes_are_those_of_std() {
    for code in 0..=0x10FFFFu32 {
        if let Some(c) = char::from_u32(code) {
            assert_eq!(is_ascii_digit(c), c.is_ascii_digit());
            assert_eq!(is_ascii_alphanumeric(c), c.is_ascii_alphanumeric());
            assert_eq!(ascii_upper_code(c), c.to_ascii_uppercase() as u32);
        }
    }
    assert_eq!(ascii_upper_code('a'), 0x41);
    assert_eq!(ascii_upper_code('z'), 0x5A);
    assert_eq!(ascii_upper_code('`'), 0x60);
    assert_eq!(ascii_upper_code('{'), 0x7B);
    assert_eq!(ascii_upper_code('\u{e9}'), 0xE9);
}

#[test]
fn chars_of_gives_each_character() {
    assert_eq!(chars_of(""), Vec::<char>::new());
    assert_eq!(chars_of("a\u{e9}\u{1f600}"), vec!['a', '\u{e9}', '\u{1f600}']);
}

#[test]
fn words_are_split_as_std_splits_them() {
    let lines = [
        "",
        " ",
        "NICK alice",
        "  NICK   alice  ",
        "\tUSER a\tb\u{a0}c :Real Name\r\n",
        "one",
        "a b c d e f",
        "x\u{3000}y\u{2003}z",
        "\u{85}\u{1680}tail",
        "PRIVMSG bob :hello there",
        "no\u{200b}split",
    ];
    for line in lines {
        let expected: Vec<String> = line.split_whitespace().map(|w| w.to_string()).collect();
        assert_eq!(split_words(line), expected, "{:?}", line);
    }
    assert_eq!(split_words("  NICK   alice  "), strings(&["NICK", "alice"]));
    assert_eq!(split_words(" \t "), Vec::<String>::new());
    assert_eq!(split_words("no\u{200b}split"), strings(&["no\u{200b}split"]));
}

#[test]
fn case_is_ignored_for_ascii_letters_only() {
    assert!(chars_eq_ignore_ascii_case(&chars_of("nIcK"), &chars_of("NICK")));
    assert!(!chars_eq_ignore_ascii_case(&chars_of("NICK"), &chars_of("NICKS")));
    assert!(!chars_eq_ignore_ascii_case(&chars_of("N1CK"), &chars_of("NICK")));
    assert!(chars_eq_ignore_ascii_case(&chars_of(""), &chars_of("")));
    assert!(!chars_eq_ignore_ascii_case(&chars_of("\u{e9}"), &chars_of("\u{c9}")));
}

#[test]
fn searching_and_comparing_text() {
    assert_eq!(find_char(&chars_of("a:b:c"), ':'), Some(1));
    assert_eq!(find_char(&chars_of("\u{e9}\u{e9}:"), ':'), Some(2));
    assert_eq!(find_char(&chars_of("abc"), ':'), None);
    assert_eq!(find_char(&chars_of(""), ':'), None);
    assert!(starts_with("#general", '#'));
    assert!(!starts_with("general#", '#'));
    assert!(!starts_with("", '#'));
    assert!(has_crlf_at_end("hi\r\n"));
    assert!(has_crlf_at_end("\r\n"));
    assert!(!has_crlf_at_end("hi\n\r"));
    assert!(!has_crlf_at_end("hi\n"));
    assert!(!has_crlf_at_end("\n"));
    assert!(!has_crlf_at_end(""));
    assert!(str_eq("alice", "alice"));
    assert!(str_eq("", ""));
    assert!(!str_eq("alice", "alicf"));
    assert!(!str_eq("alice", "alic"));
    assert!(!str_eq("\u{e9}", "e"));
    let names = strings(&["bob", "alice", "bob", "carol"]);
    assert_eq!(find_string(&names, "bob"), Some(0));
    assert_eq!(find_string(&names, "carol"), Some(3));
    assert_eq!(find_string(&names, "dave"), None);
    assert_eq!(without_string(&names, "bob"), strings(&["alice", "carol"]));
    assert_eq!(without_string(&names, "dave"), names);
    assert_eq!(clone_strings(&names), names);
}

#[test]
fn command_words() {
    assert_eq!(IrcCommand::from_str("NICK"), Some(IrcCommand::NICK));
    assert_eq!(IrcCommand::from_str("USER"), Some(IrcCommand::USER));
    assert_eq!(IrcCommand::from_str("PING"), Some(IrcCommand::PING));
    assert_eq!(IrcCommand::from_str("PONG"), Some(IrcCommand::PONG));
    assert_eq!(IrcCommand::from_str("QUIT"), Some(IrcCommand::QUIT));
    assert_eq!(IrcCommand::from_str("PRIVMSG"), Some(IrcCommand::PRIVMSG));
    assert_eq!(IrcCommand::from_str("JOIN"), Some(IrcCommand::JOIN));
    assert_eq!(IrcCommand::from_str("PART"), Some(IrcCommand::PART));
    assert_eq!(IrcCommand::from_str("nick"), Some(IrcCommand::NICK));
    assert_eq!(IrcCommand::from_str("PrivMsg"), Some(IrcCommand::PRIVMSG));
    assert_eq!(IrcCommand::from_str("jOiN"), Some(IrcCommand::JOIN));
    assert_eq!(IrcCommand::from_str(""), None);
    assert_eq!(IrcCommand::from_str("NICKS"), None);
    assert_eq!(IrcCommand::from_str("NIC"), None);
    assert_eq!(IrcCommand::from_str("WHOIS"), None);
    assert_eq!(IrcCommand::from_str("N\u{130}CK"), None);
    assert_eq!(IrcCommand::from_str(" NICK"), None);
}

#[test]
fn parse_nick() {
    let m = IrcMessage::parse("NICK alice").unwrap();
    assert_eq!(m.command, IrcCommand::NICK);
    assert_eq!(m.params, strings(&["alice"]));
    assert_eq!(m.from_nick, None);
    assert_eq!(m.to_nick, None);
}

#[test]
fn parse_ignores_case_and_extra_whitespace() {
    let m = IrcMessage::parse("  user   a  b\tc   :Real   Name ").unwrap();
    assert_eq!(m.command, IrcCommand::USER);
    assert_eq!(m.params, strings(&["a", "b", "c", ":Real", "Name"]));
    assert_eq!(m.to_nick, None);
}

#[test]
fn parse_without_parameters() {
    let m = IrcMessage::parse("QUIT").unwrap();
    assert_eq!(m.command, IrcCommand::QUIT);
    assert!(m.params.is_empty());
}

#[test]
fn parse_discards_what_it_does_not_know() {
    assert!(IrcMessage::parse("").is_none());
    assert!(IrcMessage::parse("   ").is_none());
    assert!(IrcMessage::parse("WHOIS alice").is_none());
    assert!(IrcMessage::parse(":prefix NICK alice").is_none());
    assert!(IrcMessage::parse("NICKalice").is_none());
}

#[test]
fn parse_privmsg_keeps_the_spaces_of_the_text() {
    let m = IrcMessage::parse("PRIVMSG bob :hello   there, bob").unwrap();
    assert_eq!(m.command, IrcCommand::PRIVMSG);
    assert_eq!(m.to_nick, Some("bob".to_string()));
    assert_eq!(
        m.params,
        strings(&["bob", ":hello", "there,", "bob", "hello   there, bob"])
    );
    assert_eq!(m.from_nick, None);
}

#[test]
fn parse_privmsg_takes_what_follows_the_first_colon() {
    let m = IrcMessage::parse("PRIVMSG b:ob x :y").unwrap();
    assert_eq!(m.to_nick, Some("b:ob".to_string()));
    assert_eq!(m.params, strings(&["b:ob", "x", ":y", "ob x :y"]));
    let m = IrcMessage::parse("privmsg bob :").unwrap();
    assert_eq!(m.params, strings(&["bob", ":", ""]));
    let m = IrcMessage::parse("PRIVMSG bob :h\u{e9}llo \u{1f600} ").unwrap();
    assert_eq!(m.params.last().unwrap(), "h\u{e9}llo \u{1f600} ");
}

#[test]
fn parse_privmsg_without_text() {
    assert!(IrcMessage::parse("PRIVMSG bob hello").is_none());
    let m = IrcMessage::parse("PRIVMSG bob").unwrap();
    assert_eq!(m.command, IrcCommand::PRIVMSG);
    assert_eq!(m.params, strings(&["bob"]));
    assert_eq!(m.to_nick, None);
    let m = IrcMessage::parse("PRIVMSG :hello").unwrap();
    assert_eq!(m.params, strings(&[":hello"]));
    assert_eq!(m.to_nick, None);
    let m = IrcMessage::parse("PRIVMSG").unwrap();
    assert!(m.params.is_empty());
}

#[test]
fn colon_matters_to_privmsg_only() {
    let m = IrcMessage::parse("JOIN #general now").unwrap();
    assert_eq!(m.command, IrcCommand::JOIN);
    assert_eq!(m.params, strings(&["#general", "now"]));
    assert_eq!(m.to_nick, None);
    let m = IrcMessage::parse("QUIT :gone fishing").unwrap();
    assert_eq!(m.params, strings(&[":gone", "fishing"]));
}

#[test]
fn set_from_nick_records_the_sender() {
    let mut m = IrcMessage::parse("QUIT").unwrap();
    m.set_from_nick("alice");
    assert_eq!(m.from_nick, Some("alice".to_string()));
    assert_eq!(m.command, IrcCommand::QUIT);
    assert!(m.params.is_empty());
    assert_eq!(m.to_nick, None);
    m.set_from_nick("bob");
    assert_eq!(m.from_nick, Some("bob".to_string()));
}

#[test]
fn every_short_text_is_split_as_std_splits_it() {
    let alphabet = ['a', ' ', '\t', 'b', '\u{3000}', ':'];
    let mut texts = vec![String::new()];
    for _ in 0..5 {
        let mut longer = Vec::new();
        for text in &texts {
            for c in alphabet {
                let mut next = text.clone();
                next.push(c);
                longer.push(next);
            }
        }
        for text in &longer {
            let expected: Vec<String> = text.split_whitespace().map(|w| w.to_string()).collect();
            assert_eq!(split_words(text), expected, "{:?}", text);
        }
        texts = longer;
    }
    assert_eq!(texts.len(), 7776);
}
