//! The registry that all connections share, and what each command does to
//! it and to the session that sent it.
//!
//! No command writes to a socket here. Each hands back the frames that are
//! to be written, each with the handle of the connection that it is for.

use crate::connect::{ConnectionWrite, Outbound, OutboundView};
use crate::ircs::channel::{Channel, ChannelView};
use crate::ircs::client::{Client, ClientView};
use crate::ircs::irc_message::{IrcMessage, IrcMessageView};
use crate::text::{
    chars_of, ends_with_crlf, has_crlf_at_end, is_ascii_alphanumeric, is_ascii_digit, is_not,
    spec_is_ascii_alphanumeric, spec_is_ascii_digit, starts_with, starts_with_char, str_eq,
    without_string,
};
use vstd::hash_map::StringHashMap;
use vstd::prelude::*;
use vstd::string::*;

verus! {

/// Whether `nick` can be a nickname: one to nine ASCII letters and digits,
/// the first of them no digit.
pub open spec fn is_valid_nickname(nick: Seq<char>) -> bool {
    &&& 1 <= nick.len() <= 9
    &&& forall|i: int| 0 <= i < nick.len() ==> spec_is_ascii_alphanumeric(#[trigger] nick[i])
    &&& !spec_is_ascii_digit(nick[0])
}

/// Tells whether `nick` can be a nickname.
pub fn valid_nickname(nick: &str) -> (valid: bool)
    ensures
        valid == is_valid_nickname(nick@),
{
    let chars = chars_of(nick);
    if chars.len() == 0 || chars.len() > 9 {
        return false;
    }
    let mut i: usize = 0;
    while i < chars.len()
        invariant
            i <= chars.len(),
            chars@ == nick@,
            forall|k: int| 0 <= k < i ==> spec_is_ascii_alphanumeric(#[trigger] chars@[k]),
        decreases chars.len() - i,
    {
        if !is_ascii_alphanumeric(chars[i]) {
            return false;
        }
        i += 1;
    }
    !is_ascii_digit(chars[0])
}

/// The reply to a command that lacks a parameter.
pub open spec fn need_more_params(command: Seq<char>) -> Seq<char> {
    ":"@ + command + " 461  :Need more parameters\r\n"@
}

/// The reply that names a channel which is not there.
pub open spec fn no_such_channel(channel_name: Seq<char>) -> Seq<char> {
    " 403  "@ + channel_name + " :No such channel\r\n"@
}

/// The reply that welcomes a session which has just registered.
pub open spec fn welcome(nick: Seq<char>, realname: Seq<char>) -> Seq<char> {
    ":iris-server 001 "@ + nick + " :Hi "@ + realname + ", welcome to IRC\r\n"@
}

/// The reply to a `PING` with the parameter `token`.
pub open spec fn pong(token: Seq<char>) -> Seq<char> {
    "PONG :"@ + token + "\r\n"@
}

/// The reply to a `QUIT` for the reason `reason`.
pub open spec fn quit_notice(reason: Seq<char>) -> Seq<char> {
    "QUIT :"@ + reason + "\r\n"@
}

/// The reason that stands for a `QUIT` which gives none.
pub open spec fn default_quit_reason(nick: Seq<char>) -> Seq<char> {
    nick + " has quit"@
}

/// A message that the server itself sends to `target`.
pub open spec fn server_privmsg(target: Seq<char>, message: Seq<char>) -> Seq<char> {
    ":server PRIVMSG "@ + target + " :"@ + message + "\r\n"@
}

/// `text` as a line: with a boundary at its end, unless it has one.
pub open spec fn terminated(text: Seq<char>) -> Seq<char> {
    if ends_with_crlf(text) {
        text
    } else {
        text + "\r\n"@
    }
}

/// The registry as a mathematical value.
#[verifier::ext_equal]
pub ghost struct IrcServerView {
    /// The sessions that hold a nickname.
    pub clients: Seq<ClientView>,
    /// The channels.
    pub channels: Seq<ChannelView>,
    /// For the nickname of each registered session, the name of the
    /// connection that frames for it are written to.
    pub routes: Map<Seq<char>, Seq<char>>,
}

impl IrcServerView {
    /// The registry with nothing in it.
    pub open spec fn empty() -> IrcServerView {
        IrcServerView { clients: Seq::empty(), channels: Seq::empty(), routes: Map::empty() }
    }

    /// The nicknames that are taken, in the order of the sessions.
    pub open spec fn nicks(self) -> Seq<Seq<char>> {
        Seq::new(self.clients.len(), |i: int| self.clients[i].nick)
    }

    /// The names of the channels, in their order.
    pub open spec fn channel_names(self) -> Seq<Seq<char>> {
        Seq::new(self.channels.len(), |i: int| self.channels[i].name)
    }

    /// Whether a session holds the nickname `nick`.
    pub open spec fn has_client(self, nick: Seq<char>) -> bool {
        self.nicks().contains(nick)
    }

    /// The index of the first channel named `name`.
    pub open spec fn channel_index(self, name: Seq<char>) -> Option<int> {
        self.channel_names().index_of_first(name)
    }

    /// What holds of the registry at all times: every nickname that a
    /// session holds is valid, no nickname is held by two sessions, every
    /// nickname with a route is held by a session, no two channels have one
    /// name, and the name of every channel begins with `#`.
    pub open spec fn wf(self) -> bool {
        &&& forall|i: int|
            0 <= i < self.clients.len() ==> is_valid_nickname(#[trigger] self.nicks()[i])
        &&& self.nicks().no_duplicates()
        &&& forall|nick: Seq<char>| #[trigger]
            self.routes.contains_key(nick) ==> self.has_client(nick)
        &&& self.channel_names().no_duplicates()
        &&& forall|i: int|
            0 <= i < self.channels.len() ==> starts_with_char(#[trigger] self.channel_names()[i], '#')
    }

    /// The registry once `client` is among its sessions.
    pub open spec fn with_client(self, client: ClientView) -> IrcServerView {
        IrcServerView { clients: self.clients.push(client), ..self }
    }

    /// The registry once the channel `name`, without members, is among its
    /// channels.
    pub open spec fn with_channel(self, name: Seq<char>) -> IrcServerView {
        IrcServerView {
            channels: self.channels.push(ChannelView { name, clients: Seq::empty() }),
            ..self
        }
    }

    /// The registry once frames for `nick` go to the connection `conn`.
    /// Only the nickname of a session gets a route.
    pub open spec fn with_route(self, nick: Seq<char>, conn: Seq<char>) -> IrcServerView {
        if self.has_client(nick) {
            IrcServerView { routes: self.routes.insert(nick, conn), ..self }
        } else {
            self
        }
    }

    /// The registry once `nick` has no route.
    pub open spec fn without_route(self, nick: Seq<char>) -> IrcServerView {
        IrcServerView { routes: self.routes.remove(nick), ..self }
    }

    /// The registry once `nick` has joined the channel at `index`.
    pub open spec fn with_member(self, index: int, nick: Seq<char>) -> IrcServerView {
        IrcServerView {
            channels: self.channels.update(index, self.channels[index].joined(nick)),
            ..self
        }
    }

    /// The registry once `nick` has left the channel at `index`.
    pub open spec fn without_member(self, index: int, nick: Seq<char>) -> IrcServerView {
        IrcServerView {
            channels: self.channels.update(index, self.channels[index].parted(nick)),
            ..self
        }
    }

    /// The registry with every trace of `nick` gone: without the session
    /// that held it, without its route, and without it among the members of
    /// any channel.
    pub open spec fn without(self, nick: Seq<char>) -> IrcServerView {
        IrcServerView {
            clients: match self.nicks().index_of_first(nick) {
                Some(i) => self.clients.remove(i),
                None => self.clients,
            },
            channels: Seq::new(
                self.channels.len(),
                |i: int|
                    ChannelView {
                        name: self.channels[i].name,
                        clients: self.channels[i].clients.filter(is_not(nick)),
                    },
            ),
            routes: self.routes.remove(nick),
        }
    }
}

/// The registry: the sessions that hold a nickname, the channels, and the
/// routes by which frames reach the registered sessions.
pub struct IrcServer {
    clients: Vec<Client>,
    channels: Vec<Channel>,
    connection_map: StringHashMap<ConnectionWrite>,
}

impl View for IrcServer {
    type V = IrcServerView;

    closed spec fn view(&self) -> IrcServerView {
        IrcServerView {
            clients: self.clients.deep_view(),
            channels: self.channels.deep_view(),
            routes: self.connection_map@.map_values(|writer: ConnectionWrite| writer@),
        }
    }
}

impl IrcServer {
    /// Whether the registry is as it must be at all times.
    pub open spec fn wf(&self) -> bool {
        self@.wf()
    }

    /// The reply to a command that lacks a parameter.
    pub fn send_err_needmoreparams(command: &str) -> (reply: String)
        ensures
            reply@ == need_more_params(command@),
    {
        let mut reply = ":".to_owned();
        reply.append(command);
        reply.append(" 461  :Need more parameters\r\n");
        reply
    }

    /// The reply that names a channel which is not there.
    pub fn send_err_nosuchchannel(channel_name: &str) -> (reply: String)
        ensures
            reply@ == no_such_channel(channel_name@),
    {
        let mut reply = " 403  ".to_owned();
        reply.append(channel_name);
        reply.append(" :No such channel\r\n");
        reply
    }

    /// A registry with nothing in it.
    pub fn new() -> (server: Self)
        ensures
            server@ == IrcServerView::empty(),
            server.wf(),
    {
        let server = IrcServer {
            clients: Vec::new(),
            channels: Vec::new(),
            connection_map: StringHashMap::new(),
        };
        server
    }

    /// Finds the session that holds `nick`.
    fn find_client(&self, nick: &str) -> (at: Option<usize>)
        ensures
            match at {
                Some(i) => i < self@.clients.len() && self@.nicks().index_of_first(nick@) == Some(
                    i as int,
                ),
                None => self@.nicks().index_of_first(nick@) is None,
            },
    {
        let ghost nicks = self@.nicks();
        let mut i: usize = 0;
        while i < self.clients.len()
            invariant
                i <= self.clients.len(),
                nicks == self@.nicks(),
                nicks.len() == self.clients.len(),
                forall|k: int| 0 <= k < i ==> nicks[k] != nick@,
            decreases self.clients.len() - i,
        {
            assert(nicks[i as int] == self.clients@[i as int].nick@);
            if str_eq(self.clients[i].nick.as_str(), nick) {
                proof {
                    nicks.index_of_first_ensures(nick@);
                }
                return Some(i);
            }
            i += 1;
        }
        proof {
            nicks.index_of_first_ensures(nick@);
        }
        None
    }

    /// Tells whether a session holds `nick`.
    pub fn has_client(&self, nick: &str) -> (held: bool)
        ensures
            held == self@.has_client(nick@),
    {
        proof {
            self@.nicks().index_of_first_ensures(nick@);
        }
        self.find_client(nick).is_some()
    }

    /// Finds the first channel named `channel_name`.
    pub fn get_channel(&self, channel_name: &str) -> (at: Option<usize>)
        ensures
            match at {
                Some(i) => i < self@.channels.len() && self@.channel_index(channel_name@) == Some(
                    i as int,
                ),
                None => self@.channel_index(channel_name@) is None,
            },
    {
        let ghost names = self@.channel_names();
        let mut i: usize = 0;
        while i < self.channels.len()
            invariant
                i <= self.channels.len(),
                names == self@.channel_names(),
                names.len() == self.channels.len(),
                forall|k: int| 0 <= k < i ==> names[k] != channel_name@,
            decreases self.channels.len() - i,
        {
            assert(names[i as int] == self.channels@[i as int].name@);
            if str_eq(self.channels[i].name.as_str(), channel_name) {
                proof {
                    names.index_of_first_ensures(channel_name@);
                }
                return Some(i);
            }
            i += 1;
        }
        proof {
            names.index_of_first_ensures(channel_name@);
        }
        None
    }

    /// The first channel named `channel_name`.
    pub fn find_channel(&self, channel_name: &str) -> (found: Option<&Channel>)
        ensures
            match found {
                Some(channel) => self@.channel_index(channel_name@) is Some && channel@
                    == self@.channels[self@.channel_index(channel_name@).unwrap()],
                None => self@.channel_index(channel_name@) is None,
            },
    {
        match self.get_channel(channel_name) {
            Some(index) => {
                Some(&self.channels[index])
            },
            None => None,
        }
    }

    /// The handle of the connection that frames for `nick` go to.
    pub fn find_route(&self, nick: &str) -> (route: Option<&ConnectionWrite>)
        ensures
            match route {
                Some(writer) => self@.routes.contains_key(nick@) && writer@ == self@.routes[nick@],
                None => !self@.routes.contains_key(nick@),
            },
    {
        self.connection_map.get(nick)
    }

    /// Gives `client_nick` a route to the connection of `conn_write`, if a
    /// session holds that nickname.
    pub fn add_connection(&mut self, client_nick: String, conn_write: ConnectionWrite)
        requires
            old(self).wf(),
        ensures
            final(self).wf(),
            final(self)@ == old(self)@.with_route(client_nick@, conn_write@),
    {
        if self.has_client(client_nick.as_str()) {
            let ghost before = self@;
            let ghost nick = client_nick@;
            let ghost conn = conn_write@;
            self.connection_map.insert(client_nick, conn_write);
            assert(self@ =~= before.with_route(nick, conn));
        }
    }

    /// Takes the route of `client_nick` away.
    pub fn remove_connection(&mut self, client_nick: &str)
        requires
            old(self).wf(),
        ensures
            final(self).wf(),
            final(self)@ == old(self)@.without_route(client_nick@),
    {
        self.connection_map.remove(client_nick);
    }

    /// Opens the channel `name`, without members, and tells whether it did:
    /// a channel's name begins with `#`, and no two channels have one name.
    pub fn add_channel(&mut self, name: String) -> (added: bool)
        requires
            old(self).wf(),
        ensures
            final(self).wf(),
            added == (starts_with_char(name@, '#') && old(self)@.channel_index(name@) is None),
            final(self)@ == (if added {
                old(self)@.with_channel(name@)
            } else {
                old(self)@
            }),
    {
        if !starts_with(name.as_str(), '#') {
            return false;
        }
        if self.get_channel(name.as_str()).is_some() {
            return false;
        }
        let ghost before = self@;
        let channel = Channel { name, clients: Vec::new() };
        assert(channel@ =~= (ChannelView { name: name@, clients: Seq::empty() }));
        self.channels.push(channel);
        assert(self@ =~= before.with_channel(name@));
        proof {
            lemma_with_channel_keeps_wf(before, name@);
        }
        true
    }
}

impl IrcServer {
    /// Removes every trace of `nick`: the session that holds it, its route,
    /// and the nickname among the members of every channel.
    pub fn forget(&mut self, nick: &str)
        requires
            old(self).wf(),
        ensures
            final(self).wf(),
            final(self)@ == old(self)@.without(nick@),
    {
        let ghost before = self@;
        if let Some(index) = self.find_client(nick) {
            self.clients.remove(index);
        }
        self.connection_map.remove(nick);
        let ghost cleared = self@;
        proof {
            lemma_without_leaves_no_trace(before, nick@);
        }
        let n: usize = self.channels.len();
        let mut i: usize = 0;
        while i < n
            invariant
                i <= n,
                n == self.channels.len(),
                self@.clients == cleared.clients,
                self@.routes == cleared.routes,
                self@.channels.len() == before.channels.len(),
                forall|k: int|
                    0 <= k < i ==> #[trigger] self@.channels[k] == (ChannelView {
                        name: before.channels[k].name,
                        clients: before.channels[k].clients.filter(is_not(nick@)),
                    }),
                forall|k: int| i <= k < n ==> #[trigger] self@.channels[k] == before.channels[k],
            decreases n - i,
        {
            let ghost already = self@;
            assert(already.channels[i as int] == self.channels@[i as int]@);
            let kept = without_string(&self.channels[i].clients, nick);
            self.channels[i].clients = kept;
            assert(self@.channels =~= already.channels.update(
                i as int,
                self.channels@[i as int]@,
            ));
            i += 1;
        }
        assert(self@ =~= before.without(nick@));
    }
}

/// One frame, for the connection `conn`.
pub open spec fn one_frame(conn: Seq<char>, text: Seq<char>) -> Seq<OutboundView> {
    seq![OutboundView { to: conn, message: text }]
}

/// What a command has done: the registry and the session after it, and the
/// frames that are to be written.
#[verifier::ext_equal]
pub ghost struct Handled {
    pub server: IrcServerView,
    pub client: ClientView,
    pub out: Seq<OutboundView>,
}

impl IrcServerView {
    /// What `NICK` does for the session `client`, whose connection is `conn`.
    ///
    /// Without a parameter the sender is told that one is missing. A
    /// parameter that cannot be a nickname, or that a session holds already,
    /// is refused. Otherwise the session takes the nickname: the traces of
    /// the nickname that it held before go, and the session stands in the
    /// registry under the new one.
    pub open spec fn nick_command(
        self,
        client: ClientView,
        message: IrcMessageView,
        conn: Seq<char>,
    ) -> Handled {
        if message.params.len() == 0 {
            Handled { server: self, client, out: one_frame(conn, need_more_params("NICK"@)) }
        } else if !is_valid_nickname(message.params[0]) {
            Handled { server: self, client, out: one_frame(conn, "ERR_ERRONEUSNICKNAME\r\n"@) }
        } else if self.has_client(message.params[0]) {
            Handled { server: self, client, out: one_frame(conn, "ERR_NICKCOLLISION\r\n"@) }
        } else {
            let named = ClientView { nick: message.params[0], ..client };
            let vacated = if client.nick.len() > 0 {
                self.without(client.nick)
            } else {
                self
            };
            Handled { server: vacated.with_client(named), client: named, out: Seq::empty() }
        }
    }

    /// What `JOIN` does for the session that holds `nick`: the nickname is
    /// added to the members of the channel that the first parameter names.
    /// Where no such channel is open, nothing happens.
    pub open spec fn join_command(self, message: IrcMessageView, conn: Seq<char>, nick: Seq<char>) -> (
        IrcServerView,
        Seq<OutboundView>,
    ) {
        if message.params.len() == 0 {
            (self, one_frame(conn, need_more_params("JOIN"@)))
        } else if !starts_with_char(message.params[0], '#') {
            (self, one_frame(conn, no_such_channel(message.params[0])))
        } else {
            match self.channel_index(message.params[0]) {
                Some(index) => (self.with_member(index, nick), Seq::empty()),
                None => (self, Seq::empty()),
            }
        }
    }

    /// What `PART` does for the session that holds `nick`: the nickname is
    /// taken out of the members of the channel that the first parameter
    /// names. Where no such channel is open, or the nickname is not among
    /// its members, the sender is told that there is no such channel.
    pub open spec fn part_command(self, message: IrcMessageView, conn: Seq<char>, nick: Seq<char>) -> (
        IrcServerView,
        Seq<OutboundView>,
    ) {
        if message.params.len() == 0 {
            (self, one_frame(conn, need_more_params("PART"@)))
        } else {
            match self.channel_index(message.params[0]) {
                Some(index) if starts_with_char(message.params[0], '#')
                    && self.channels[index].clients.contains(nick) => (
                    self.without_member(index, nick),
                    Seq::empty(),
                ),
                _ => (self, one_frame(conn, no_such_channel(message.params[0]))),
            }
        }
    }

    /// The frames that `PRIVMSG` gives rise to, sent over the connection
    /// `from_conn`: the text, which is the last parameter, goes as a line to
    /// the connection of the nickname that the message is for; where that
    /// nickname has no route, the sender is told so. A message for nobody,
    /// or without a parameter, gives rise to nothing.
    pub open spec fn privmsg_frames(self, message: IrcMessageView, from_conn: Seq<char>) -> Seq<
        OutboundView,
    > {
        match message.to_nick {
            Some(target) if message.params.len() > 0 => {
                if self.routes.contains_key(target) {
                    one_frame(self.routes[target], terminated(message.params.last()))
                } else {
                    one_frame(from_conn, "Target client not found"@)
                }
            },
            _ => Seq::empty(),
        }
    }

    /// The frame by which the server itself sends `message` to `target`, if
    /// that nickname has a route.
    pub open spec fn server_privmsg_frame(self, target: Seq<char>, message: Seq<char>) -> Option<
        OutboundView,
    > {
        if self.routes.contains_key(target) {
            Some(OutboundView { to: self.routes[target], message: server_privmsg(target, message) })
        } else {
            None
        }
    }
}

/// What `USER` does for the session `client`, whose connection is `conn`:
/// with four parameters or more, the last of which begins with a colon, what
/// follows the colon becomes the real name. Otherwise the sender is told
/// that parameters are missing.
pub open spec fn user_command(client: ClientView, message: IrcMessageView, conn: Seq<char>) -> (
    ClientView,
    Seq<OutboundView>,
) {
    if message.params.len() >= 4 && starts_with_char(message.params.last(), ':') {
        (ClientView { realname: Some(message.params.last().skip(1)), ..client }, Seq::empty())
    } else {
        (client, one_frame(conn, "ERR_NEEDMOREPARAMS\r\n"@))
    }
}

/// The frames that `PING` gives rise to: the reply that carries the first
/// parameter, and nothing where there is no parameter.
pub open spec fn ping_frames(message: IrcMessageView, conn: Seq<char>) -> Seq<OutboundView> {
    if message.params.len() == 0 {
        Seq::empty()
    } else {
        one_frame(conn, pong(message.params[0]))
    }
}

/// The reason that a `QUIT` gives: its first parameter, or else that the
/// sender has quit.
pub open spec fn quit_reason(message: IrcMessageView) -> Seq<char> {
    if message.params.len() > 0 {
        message.params[0]
    } else {
        default_quit_reason(
            match message.from_nick {
                Some(nick) => nick,
                None => Seq::empty(),
            },
        )
    }
}

/// The frame that welcomes the session `client`, which goes by its nickname
/// where it has no real name.
pub open spec fn welcome_frame(client: ClientView, conn: Seq<char>) -> OutboundView {
    OutboundView {
        to: conn,
        message: welcome(
            client.nick,
            match client.realname {
                Some(realname) => realname,
                None => client.nick,
            },
        ),
    }
}

/// No frames.
fn no_frames() -> (out: Vec<Outbound>)
    ensures
        out.deep_view() == Seq::<OutboundView>::empty(),
{
    let out: Vec<Outbound> = Vec::new();
    out
}

/// The one frame that carries `text` to the connection of `conn_write`.
fn reply(conn_write: &ConnectionWrite, text: &str) -> (out: Vec<Outbound>)
    ensures
        out.deep_view() == one_frame(conn_write@, text@),
{
    let mut out: Vec<Outbound> = Vec::new();
    out.push(conn_write.write_message(text));
    out
}

impl IrcServer {
    /// Sends `message` in the server's own name to `target`, if that
    /// nickname has a route.
    pub fn send_privmsg_from_server(&self, target: &str, message: &str) -> (frame: Option<Outbound>)
        ensures
            frame.deep_view() == self@.server_privmsg_frame(target@, message@),
    {
        match self.find_route(target) {
            Some(writer) => {
                let mut text = ":server PRIVMSG ".to_owned();
                text.append(target);
                text.append(" :");
                text.append(message);
                text.append("\r\n");
                Some(writer.write_message(text.as_str()))
            },
            None => None,
        }
    }

    /// Welcomes a session that has just registered.
    pub fn welcome_client(&self, client: &Client, conn_write: &ConnectionWrite) -> (frame: Outbound)
        ensures
            frame@ == welcome_frame(client@, conn_write@),
    {
        let mut text = ":iris-server 001 ".to_owned();
        text.append(client.nick.as_str());
        text.append(" :Hi ");
        match &client.realname {
            Some(realname) => text.append(realname.as_str()),
            None => text.append(client.nick.as_str()),
        }
        text.append(", welcome to IRC\r\n");
        conn_write.write_message(text.as_str())
    }

    /// Answers a `QUIT`: the sender gets the reason back.
    pub fn handle_quit_command(&self, irc_message: IrcMessage, conn_write: &ConnectionWrite) -> (out:
        Vec<Outbound>)
        ensures
            out.deep_view() == one_frame(conn_write@, quit_notice(quit_reason(irc_message@))),
    {
        let mut text = "QUIT :".to_owned();
        if irc_message.params.len() > 0 {
            text.append(irc_message.params[0].as_str());
        } else {
            if let Some(nick) = &irc_message.from_nick {
                text.append(nick.as_str());
            }
            text.append(" has quit");
        }
        text.append("\r\n");
        assert(text@ =~= quit_notice(quit_reason(irc_message@)));
        reply(conn_write, text.as_str())
    }

    /// Handles a `JOIN` of the session `client`.
    pub fn handle_join_command(
        &mut self,
        irc_message: IrcMessage,
        conn_write: &ConnectionWrite,
        client: &Client,
    ) -> (out: Vec<Outbound>)
        requires
            old(self).wf(),
        ensures
            final(self).wf(),
            final(self)@ == old(self)@.join_command(irc_message@, conn_write@, client@.nick).0,
            out.deep_view() == old(self)@.join_command(irc_message@, conn_write@, client@.nick).1,
    {
        if irc_message.params.len() < 1 {
            return reply(conn_write, Self::send_err_needmoreparams("JOIN").as_str());
        }
        let channel_name = &irc_message.params[0];
        if !starts_with(channel_name.as_str(), '#') {
            return reply(conn_write, Self::send_err_nosuchchannel(channel_name.as_str()).as_str());
        }
        if let Some(index) = self.get_channel(channel_name.as_str()) {
            let ghost before = self@;
            proof {
                lemma_membership_keeps_wf(before, index as int, client@.nick);
            }
            self.channels[index].join(client);
            assert(self@ =~= before.with_member(index as int, client@.nick));
        }
        no_frames()
    }

    /// Handles a `PART` of the session `client`.
    pub fn handle_part_command(
        &mut self,
        irc_message: IrcMessage,
        conn_write: &ConnectionWrite,
        client: &Client,
    ) -> (out: Vec<Outbound>)
        requires
            old(self).wf(),
        ensures
            final(self).wf(),
            final(self)@ == old(self)@.part_command(irc_message@, conn_write@, client@.nick).0,
            out.deep_view() == old(self)@.part_command(irc_message@, conn_write@, client@.nick).1,
    {
        if irc_message.params.len() < 1 {
            return reply(conn_write, Self::send_err_needmoreparams("PART").as_str());
        }
        let channel_name = &irc_message.params[0];
        if starts_with(channel_name.as_str(), '#') {
            match self.get_channel(channel_name.as_str()) {
                Some(index) => {
                    let ghost before = self@;
                    proof {
                        lemma_membership_keeps_wf(before, index as int, client@.nick);
                        before.channels[index as int].clients.index_of_first_ensures(client@.nick);
                    }
                    if self.channels[index].part(client) {
                        assert(self@ =~= before.without_member(index as int, client@.nick));
                        return no_frames();
                    }
                    assert(self@ =~= before);
                },
                None => {},
            }
        }
        reply(conn_write, Self::send_err_nosuchchannel(channel_name.as_str()).as_str())
    }

    /// Handles a `PRIVMSG` that came over the connection of
    /// `from_conn_write`.
    pub fn handle_privmsg_command(
        &self,
        irc_message: IrcMessage,
        from_conn_write: &ConnectionWrite,
    ) -> (out: Vec<Outbound>)
        ensures
            out.deep_view() == self@.privmsg_frames(irc_message@, from_conn_write@),
    {
        let target = match &irc_message.to_nick {
            Some(target) => target,
            None => {
                return no_frames();
            },
        };
        let n: usize = irc_message.params.len();
        if n == 0 {
            return no_frames();
        }
        let mut message = irc_message.params[n - 1].clone();
        if !has_crlf_at_end(message.as_str()) {
            message.append("\r\n");
        }
        match self.find_route(target.as_str()) {
            Some(writer) => reply(writer, message.as_str()),
            None => reply(from_conn_write, "Target client not found"),
        }
    }

    /// Answers a `PING`.
    pub fn handle_ping_command(&self, irc_message: IrcMessage, conn_write: &ConnectionWrite) -> (out:
        Vec<Outbound>)
        ensures
            out.deep_view() == ping_frames(irc_message@, conn_write@),
    {
        if irc_message.params.len() == 0 {
            return no_frames();
        }
        let mut text = "PONG :".to_owned();
        text.append(irc_message.params[0].as_str());
        text.append("\r\n");
        reply(conn_write, text.as_str())
    }

    /// Handles a `USER` of the session `client`.
    pub fn handle_user_command(
        &self,
        irc_message: IrcMessage,
        conn_write: &ConnectionWrite,
        client: &mut Client,
    ) -> (out: Vec<Outbound>)
        ensures
            final(client)@ == user_command(old(client)@, irc_message@, conn_write@).0,
            out.deep_view() == user_command(old(client)@, irc_message@, conn_write@).1,
    {
        let n: usize = irc_message.params.len();
        if n < 4 {
            return reply(conn_write, "ERR_NEEDMOREPARAMS\r\n");
        }
        let last = &irc_message.params[n - 1];
        if !starts_with(last.as_str(), ':') {
            return reply(conn_write, "ERR_NEEDMOREPARAMS\r\n");
        }
        let realname = last.as_str().substring_char(1, last.as_str().unicode_len()).to_owned();
        client.realname = Some(realname);
        no_frames()
    }

    /// Handles a `NICK` of the session `client`.
    pub fn handle_nick_command(
        &mut self,
        irc_message: IrcMessage,
        conn_write: &ConnectionWrite,
        client: &mut Client,
    ) -> (out: Vec<Outbound>)
        requires
            old(self).wf(),
        ensures
            final(self).wf(),
            final(self)@ == old(self)@.nick_command(old(client)@, irc_message@, conn_write@).server,
            final(client)@ == old(self)@.nick_command(
                old(client)@,
                irc_message@,
                conn_write@,
            ).client,
            out.deep_view() == old(self)@.nick_command(old(client)@, irc_message@, conn_write@).out,
    {
        if irc_message.params.len() == 0 {
            return reply(conn_write, Self::send_err_needmoreparams("NICK").as_str());
        }
        let new_nick = irc_message.params[0].clone();
        if !valid_nickname(new_nick.as_str()) {
            return reply(conn_write, "ERR_ERRONEUSNICKNAME\r\n");
        }
        if self.has_client(new_nick.as_str()) {
            return reply(conn_write, "ERR_NICKCOLLISION\r\n");
        }
        let ghost before = self@;
        if !client.nick.as_str().is_empty() {
            self.forget(client.nick.as_str());
        }
        let ghost vacated = self@;
        client.nick = new_nick;
        let ghost named = client@;
        self.clients.push(client.clone());
        assert(self@ =~= vacated.with_client(named));
        proof {
            lemma_nick_command_keeps_wf(before, old(client)@, irc_message@, conn_write@);
        }
        no_frames()
    }
}

/// A nickname that no session holds is held by none either once the traces
/// of another nickname are gone.
pub proof fn lemma_without_keeps_absent(server: IrcServerView, gone: Seq<char>, nick: Seq<char>)
    requires
        !server.has_client(nick),
    ensures
        !server.without(gone).has_client(nick),
{
    server.nicks().index_of_first_ensures(gone);
    let after = server.without(gone);
    if after.has_client(nick) {
        let j = choose|j: int| 0 <= j < after.nicks().len() && after.nicks()[j] == nick;
        if let Some(i) = server.nicks().index_of_first(gone) {
            if j < i {
                assert(server.nicks()[j] == nick);
            } else {
                assert(server.nicks()[j + 1] == nick);
            }
        }
    }
}

/// Once the traces of a nickname are gone, it is nowhere in the registry:
/// no session holds it, it has no route, and it is a member of no channel.
/// The registry is then as it must be.
pub proof fn lemma_without_leaves_no_trace(server: IrcServerView, nick: Seq<char>)
    requires
        server.wf(),
    ensures
        server.without(nick).wf(),
        !server.without(nick).has_client(nick),
        !server.without(nick).routes.contains_key(nick),
        forall|i: int|
            0 <= i < server.without(nick).channels.len() ==> !(
            #[trigger] server.without(nick).channels[i]).clients.contains(nick),
{
    let after = server.without(nick);
    let nicks = server.nicks();
    nicks.index_of_first_ensures(nick);
    assert(after.channel_names() =~= server.channel_names());
    if let Some(i) = nicks.index_of_first(nick) {
        assert(after.nicks() =~= nicks.remove(i));
        assert forall|other: Seq<char>| #[trigger]
            after.routes.contains_key(other) implies after.has_client(other) by {
            let j = choose|j: int| 0 <= j < nicks.len() && nicks[j] == other;
            if j < i {
                assert(after.nicks()[j] == other);
            } else {
                assert(after.nicks()[j - 1] == other);
            }
        }
        if after.has_client(nick) {
            let j = choose|j: int| 0 <= j < after.nicks().len() && after.nicks()[j] == nick;
            assert(nicks[if j < i { j } else { j + 1 }] == nick);
        }
    }
    assert forall|i: int| 0 <= i < after.channels.len() implies !(
    #[trigger] after.channels[i]).clients.contains(nick) by {
        let kept = server.channels[i].clients.filter(is_not(nick));
        if kept.contains(nick) {
            let k = choose|k: int| 0 <= k < kept.len() && kept[k] == nick;
            server.channels[i].clients.lemma_filter_pred(is_not(nick), k);
        }
    }
}

/// A session with a valid nickname that no session holds can join the
/// registry.
pub proof fn lemma_with_client_keeps_wf(server: IrcServerView, client: ClientView)
    requires
        server.wf(),
        is_valid_nickname(client.nick),
        !server.has_client(client.nick),
    ensures
        server.with_client(client).wf(),
        server.with_client(client).has_client(client.nick),
{
    let after = server.with_client(client);
    assert(after.nicks() =~= server.nicks().push(client.nick));
    assert(after.channel_names() =~= server.channel_names());
    assert(after.nicks().last() == client.nick);
    assert forall|other: Seq<char>| #[trigger]
        after.routes.contains_key(other) implies after.has_client(other) by {
        let j = choose|j: int| 0 <= j < server.nicks().len() && server.nicks()[j] == other;
        assert(after.nicks()[j] == other);
    }
}

/// `NICK` leaves the registry as it must be.
pub proof fn lemma_nick_command_keeps_wf(
    server: IrcServerView,
    client: ClientView,
    message: IrcMessageView,
    conn: Seq<char>,
)
    requires
        server.wf(),
    ensures
        server.nick_command(client, message, conn).server.wf(),
{
    if message.params.len() > 0 && is_valid_nickname(message.params[0]) && !server.has_client(
        message.params[0],
    ) {
        let named = ClientView { nick: message.params[0], ..client };
        if client.nick.len() > 0 {
            lemma_without_leaves_no_trace(server, client.nick);
            lemma_without_keeps_absent(server, client.nick, named.nick);
            lemma_with_client_keeps_wf(server.without(client.nick), named);
        } else {
            lemma_with_client_keeps_wf(server, named);
        }
    }
}

/// A channel with a new name that begins with `#` can be opened.
pub proof fn lemma_with_channel_keeps_wf(server: IrcServerView, name: Seq<char>)
    requires
        server.wf(),
        starts_with_char(name, '#'),
        server.channel_index(name) is None,
    ensures
        server.with_channel(name).wf(),
{
    let after = server.with_channel(name);
    server.channel_names().index_of_first_ensures(name);
    assert(after.channel_names() =~= server.channel_names().push(name));
    assert(after.nicks() =~= server.nicks());
}

/// Joining and leaving change no channel's name.
pub proof fn lemma_membership_keeps_wf(server: IrcServerView, index: int, nick: Seq<char>)
    requires
        server.wf(),
        0 <= index < server.channels.len(),
    ensures
        server.with_member(index, nick).wf(),
        server.without_member(index, nick).wf(),
{
    assert(server.with_member(index, nick).channel_names() =~= server.channel_names());
    assert(server.without_member(index, nick).channel_names() =~= server.channel_names());
    assert(server.with_member(index, nick).nicks() =~= server.nicks());
    assert(server.without_member(index, nick).nicks() =~= server.nicks());
}

} // verus!
