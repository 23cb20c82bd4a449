//! One line of the protocol, taken apart: the command word, matched
//! without regard to case, and the parameters that follow it.

use crate::text::{
    chars_eq_ignore_ascii_case, chars_of, eq_ignore_ascii_case, find_char, split_whitespace,
    split_words,
};
use vstd::prelude::*;
use vstd::string::*;

verus! {

/// The commands that the server knows.
#[allow(clippy::upper_case_acronyms)]
#[derive(Debug, Clone, Copy, PartialEq, Eq, Structural)]
pub enum IrcCommand {
    NICK,
    USER,
    PING,
    PONG,
    QUIT,
    PRIVMSG,
    JOIN,
    PART,
}

impl IrcCommand {
    /// The command that `word` names, whatever the case of its letters.
    pub open spec fn named_by(word: Seq<char>) -> Option<IrcCommand> {
        if eq_ignore_ascii_case(word, "NICK"@) {
            Some(IrcCommand::NICK)
        } else if eq_ignore_ascii_case(word, "USER"@) {
            Some(IrcCommand::USER)
        } else if eq_ignore_ascii_case(word, "PING"@) {
            Some(IrcCommand::PING)
        } else if eq_ignore_ascii_case(word, "PONG"@) {
            Some(IrcCommand::PONG)
        } else if eq_ignore_ascii_case(word, "QUIT"@) {
            Some(IrcCommand::QUIT)
        } else if eq_ignore_ascii_case(word, "PRIVMSG"@) {
            Some(IrcCommand::PRIVMSG)
        } else if eq_ignore_ascii_case(word, "JOIN"@) {
            Some(IrcCommand::JOIN)
        } else if eq_ignore_ascii_case(word, "PART"@) {
            Some(IrcCommand::PART)
        } else {
            None
        }
    }

    /// Reads a command word.
    pub fn from_str(s: &str) -> (command: Option<Self>)
        ensures
            command == Self::named_by(s@),
    {
        let word = chars_of(s);
        if chars_eq_ignore_ascii_case(&word, &chars_of("NICK")) {
            Some(IrcCommand::NICK)
        } else if chars_eq_ignore_ascii_case(&word, &chars_of("USER")) {
            Some(IrcCommand::USER)
        } else if chars_eq_ignore_ascii_case(&word, &chars_of("PING")) {
            Some(IrcCommand::PING)
        } else if chars_eq_ignore_ascii_case(&word, &chars_of("PONG")) {
            Some(IrcCommand::PONG)
        } else if chars_eq_ignore_ascii_case(&word, &chars_of("QUIT")) {
            Some(IrcCommand::QUIT)
        } else if chars_eq_ignore_ascii_case(&word, &chars_of("PRIVMSG")) {
            Some(IrcCommand::PRIVMSG)
        } else if chars_eq_ignore_ascii_case(&word, &chars_of("JOIN")) {
            Some(IrcCommand::JOIN)
        } else if chars_eq_ignore_ascii_case(&word, &chars_of("PART")) {
            Some(IrcCommand::PART)
        } else {
            None
        }
    }
}

/// A parsed line.
#[derive(Debug)]
pub struct IrcMessage {
    /// The command that the first word names.
    pub command: IrcCommand,
    /// The words after the command; for `PRIVMSG`, followed by the text of
    /// the message as one more parameter.
    pub params: Vec<String>,
    /// The nickname of the sender, where it was set.
    pub from_nick: Option<String>,
    /// The nickname that a `PRIVMSG` is for.
    pub to_nick: Option<String>,
}

/// An [`IrcMessage`] as a mathematical value.
pub ghost struct IrcMessageView {
    pub command: IrcCommand,
    pub params: Seq<Seq<char>>,
    pub from_nick: Option<Seq<char>>,
    pub to_nick: Option<Seq<char>>,
}

impl View for IrcMessage {
    type V = IrcMessageView;

    open spec fn view(&self) -> IrcMessageView {
        IrcMessageView {
            command: self.command,
            params: self.params.deep_view(),
            from_nick: self.from_nick.deep_view(),
            to_nick: self.to_nick.deep_view(),
        }
    }
}

impl IrcMessage {
    /// What `line` says, or `None` where it says nothing that the server
    /// knows.
    ///
    /// The line is split at whitespace. Its first word names the command and
    /// the other words are the parameters. A `PRIVMSG` with two parameters
    /// or more is for the nickname that its first parameter gives, and its
    /// text, which is all that follows the first colon of the line, is added
    /// as the last parameter; without a colon it has no text and says
    /// nothing.
    pub open spec fn parsed(line: Seq<char>) -> Option<IrcMessageView> {
        let words = split_whitespace(line);
        if words.len() == 0 {
            None
        } else {
            match IrcCommand::named_by(words[0]) {
                None => None,
                Some(command) => {
                    let params = words.drop_first();
                    if command == IrcCommand::PRIVMSG && params.len() >= 2 {
                        match line.index_of_first(':') {
                            Some(colon) => Some(
                                IrcMessageView {
                                    command,
                                    params: params.push(line.skip(colon + 1)),
                                    from_nick: None,
                                    to_nick: Some(params[0]),
                                },
                            ),
                            None => None,
                        }
                    } else {
                        Some(IrcMessageView { command, params, from_nick: None, to_nick: None })
                    }
                },
            }
        }
    }

    /// Parses one line.
    pub fn parse(message: &str) -> (parsed: Option<Self>)
        ensures
            match parsed {
                Some(m) => Self::parsed(message@) == Some(m@),
                None => Self::parsed(message@) is None,
            },
    {
        let mut words = split_words(message);
        if words.len() == 0 {
            return None;
        }
        let command = match IrcCommand::from_str(words[0].as_str()) {
            Some(command) => command,
            None => {
                return None;
            },
        };
        let ghost all = words.deep_view();
        words.remove(0);
        assert(words.deep_view() =~= all.drop_first());
        let mut to_nick: Option<String> = None;
        if command == IrcCommand::PRIVMSG && words.len() >= 2 {
            let chars = chars_of(message);
            match find_char(&chars, ':') {
                Some(colon) => {
                    assert(colon < chars.len());
                    to_nick = Some(words[0].clone());
                    let text = message.substring_char(colon + 1, chars.len()).to_owned();
                    let ghost params = words.deep_view();
                    words.push(text);
                    assert(words.deep_view() =~= params.push(message@.skip(colon + 1)));
                },
                None => {
                    return None;
                },
            }
        }
        Some(IrcMessage { command, params: words, from_nick: None, to_nick })
    }

    /// Records who sent the message.
    pub fn set_from_nick(&mut self, nick: &str)
        ensures
            final(self)@ == (IrcMessageView { from_nick: Some(nick@), ..old(self)@ }),
    {
        self.from_nick = Some(nick.to_owned());
    }
}

} // verus!
