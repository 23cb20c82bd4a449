//! One connection's loop, a turn at a time: what the server does with each
//! message that was read from the connection, and with each failure to read
//! one.

use crate::connect::{ConnectionError, ConnectionWrite, Outbound, OutboundView};
use crate::ircs::client::{Client, ClientView};
use crate::ircs::irc_message::{IrcCommand, IrcMessage, IrcMessageView};
use crate::ircs::irc_server::{
    is_valid_nickname, lemma_membership_keeps_wf, lemma_nick_command_keeps_wf,
    lemma_without_leaves_no_trace, one_frame, ping_frames, quit_notice, quit_reason, terminated, user_command,
    welcome_frame, IrcServer, IrcServerView,
};
use crate::text::starts_with_char;
use vstd::prelude::*;
use vstd::string::*;

verus! {

/// What one turn of a connection's loop asks of the caller.
#[derive(Debug)]
pub struct Turn {
    /// The frames to write, in order.
    pub out: Vec<Outbound>,
    /// Whether the loop ends with this turn.
    pub close: bool,
}

/// A turn together with the registry and the session as they are after it.
#[verifier::ext_equal]
pub ghost struct TurnView {
    pub server: IrcServerView,
    pub client: ClientView,
    pub out: Seq<OutboundView>,
    pub close: bool,
}

/// The turn in which nothing happens.
pub open spec fn idle(server: IrcServerView, client: ClientView) -> TurnView {
    TurnView { server, client, out: Seq::empty(), close: false }
}

/// The registry once the session `client` is gone from it.
pub open spec fn departed(server: IrcServerView, client: ClientView) -> IrcServerView {
    if client.nick.len() > 0 {
        server.without(client.nick)
    } else {
        server
    }
}

/// What the server does with `message`, which the session `client` sent
/// over the connection `conn`.
///
/// `NICK` counts until the session is registered, `USER` once it has a
/// nickname and until it is registered, `PRIVMSG`, `JOIN` and `PART` once it
/// is registered, `PING` and `QUIT` always. A command that does not count is
/// dropped. With the `USER` that gives the session its real name the session
/// is registered: it is welcomed, and its nickname gets a route to its
/// connection. `QUIT` ends the loop, and the session is gone from the
/// registry.
pub open spec fn dispatch(
    server: IrcServerView,
    client: ClientView,
    conn: Seq<char>,
    message: IrcMessageView,
) -> TurnView {
    match message.command {
        IrcCommand::NICK => if client.registered() {
            idle(server, client)
        } else {
            let handled = server.nick_command(client, message, conn);
            TurnView {
                server: handled.server,
                client: handled.client,
                out: handled.out,
                close: false,
            }
        },
        IrcCommand::USER => if client.registered() || client.nick.len() == 0 {
            idle(server, client)
        } else {
            let (named, out) = user_command(client, message, conn);
            if named.registered() {
                TurnView {
                    server: server.with_route(named.nick, conn),
                    client: named,
                    out: out.push(welcome_frame(named, conn)),
                    close: false,
                }
            } else {
                TurnView { server, client: named, out, close: false }
            }
        },
        IrcCommand::PING => TurnView {
            server,
            client,
            out: ping_frames(message, conn),
            close: false,
        },
        IrcCommand::PONG => idle(server, client),
        IrcCommand::QUIT => TurnView {
            server: departed(server, client),
            client,
            out: one_frame(
                conn,
                quit_notice(quit_reason(IrcMessageView { from_nick: Some(client.nick), ..message })),
            ),
            close: true,
        },
        IrcCommand::PRIVMSG => if client.registered() {
            TurnView { server, client, out: server.privmsg_frames(message, conn), close: false }
        } else {
            idle(server, client)
        },
        IrcCommand::JOIN => if client.registered() {
            TurnView {
                server: server.join_command(message, conn, client.nick).0,
                client,
                out: server.join_command(message, conn, client.nick).1,
                close: false,
            }
        } else {
            idle(server, client)
        },
        IrcCommand::PART => if client.registered() {
            TurnView {
                server: server.part_command(message, conn, client.nick).0,
                client,
                out: server.part_command(message, conn, client.nick).1,
                close: false,
            }
        } else {
            idle(server, client)
        },
    }
}

/// What the server does with the outcome `read` of reading a message from
/// the connection `conn` of the session `client`.
///
/// A connection that is lost or closed ends the loop, and the session is
/// gone from the registry. Any other failure is passed over. A line that
/// says nothing is passed over too, and what any other line says is done.
pub open spec fn step(
    server: IrcServerView,
    client: ClientView,
    conn: Seq<char>,
    read: Result<Seq<char>, ConnectionError>,
) -> TurnView {
    match read {
        Ok(line) => match IrcMessage::parsed(line) {
            Some(message) => dispatch(server, client, conn, message),
            None => idle(server, client),
        },
        Err(ConnectionError::ConnectionLost) | Err(ConnectionError::ConnectionClosed) => TurnView {
            server: departed(server, client),
            client,
            out: Seq::empty(),
            close: true,
        },
        Err(_) => idle(server, client),
    }
}

/// The outcome of reading a message, as a mathematical value.
pub open spec fn read_view(read: Result<String, ConnectionError>) -> Result<
    Seq<char>,
    ConnectionError,
> {
    match read {
        Ok(line) => Ok(line@),
        Err(error) => Err(error),
    }
}

/// The turn in which nothing happens.
fn no_turn() -> (turn: Turn)
    ensures
        turn.out.deep_view() == Seq::<OutboundView>::empty(),
        !turn.close,
{
    let turn = Turn { out: Vec::new(), close: false };
    turn
}

/// Takes the session `client` out of the registry.
fn depart(server: &mut IrcServer, client: &Client)
    requires
        old(server).wf(),
    ensures
        final(server).wf(),
        final(server)@ == departed(old(server)@, client@),
{
    if !client.nick.as_str().is_empty() {
        server.forget(client.nick.as_str());
    }
}

/// Does what `irc_message` says, which the session `client` sent over the
/// connection of `conn_write`.
pub fn handle_message(
    server: &mut IrcServer,
    client: &mut Client,
    conn_write: &ConnectionWrite,
    irc_message: IrcMessage,
) -> (turn: Turn)
    requires
        old(server).wf(),
    ensures
        final(server).wf(),
        final(server)@ == dispatch(old(server)@, old(client)@, conn_write@, irc_message@).server,
        final(client)@ == dispatch(old(server)@, old(client)@, conn_write@, irc_message@).client,
        turn.out.deep_view() == dispatch(
            old(server)@,
            old(client)@,
            conn_write@,
            irc_message@,
        ).out,
        turn.close == dispatch(old(server)@, old(client)@, conn_write@, irc_message@).close,
{
    let mut irc_message = irc_message;
    match irc_message.command {
        IrcCommand::NICK => {
            if client.registered() {
                no_turn()
            } else {
                let out = server.handle_nick_command(irc_message, conn_write, client);
                Turn { out, close: false }
            }
        },
        IrcCommand::USER => {
            if client.registered() || client.nick.as_str().is_empty() {
                no_turn()
            } else {
                let mut out = server.handle_user_command(irc_message, conn_write, client);
                if client.registered() {
                    let frame = server.welcome_client(client, conn_write);
                    out.push(frame);
                    server.add_connection(client.nick.clone(), conn_write.clone());
                }
                Turn { out, close: false }
            }
        },
        IrcCommand::PING => {
            let out = server.handle_ping_command(irc_message, conn_write);
            Turn { out, close: false }
        },
        IrcCommand::PONG => no_turn(),
        IrcCommand::QUIT => {
            irc_message.set_from_nick(client.nick.as_str());
            let out = server.handle_quit_command(irc_message, conn_write);
            depart(server, client);
            Turn { out, close: true }
        },
        IrcCommand::PRIVMSG => {
            if client.registered() {
                let out = server.handle_privmsg_command(irc_message, conn_write);
                Turn { out, close: false }
            } else {
                no_turn()
            }
        },
        IrcCommand::JOIN => {
            if client.registered() {
                let out = server.handle_join_command(irc_message, conn_write, client);
                Turn { out, close: false }
            } else {
                no_turn()
            }
        },
        IrcCommand::PART => {
            if client.registered() {
                let out = server.handle_part_command(irc_message, conn_write, client);
                Turn { out, close: false }
            } else {
                no_turn()
            }
        },
    }
}

/// One turn of the loop of the session `client`: takes the outcome of
/// reading a message from its connection and does what follows from it.
pub fn handle_client(
    server: &mut IrcServer,
    client: &mut Client,
    conn_write: &ConnectionWrite,
    read: Result<String, ConnectionError>,
) -> (turn: Turn)
    requires
        old(server).wf(),
    ensures
        final(server).wf(),
        final(server)@ == step(old(server)@, old(client)@, conn_write@, read_view(read)).server,
        final(client)@ == step(old(server)@, old(client)@, conn_write@, read_view(read)).client,
        turn.out.deep_view() == step(old(server)@, old(client)@, conn_write@, read_view(read)).out,
        turn.close == step(old(server)@, old(client)@, conn_write@, read_view(read)).close,
{
    match read {
        Ok(line) => match IrcMessage::parse(line.as_str()) {
            Some(irc_message) => handle_message(server, client, conn_write, irc_message),
            None => no_turn(),
        },
        Err(ConnectionError::ConnectionLost) | Err(ConnectionError::ConnectionClosed) => {
            depart(server, client);
            let turn = Turn { out: Vec::new(), close: true };
            turn
        },
        Err(_) => no_turn(),
    }
}

/// A `USER` from a session that has no nickname yet changes nothing and is
/// not answered, whatever its parameters; so is a line that says `USER`.
pub proof fn lemma_user_before_nick_ignored(
    server: IrcServerView,
    client: ClientView,
    conn: Seq<char>,
    message: IrcMessageView,
    line: Seq<char>,
)
    requires
        client.nick.len() == 0,
        message.command == IrcCommand::USER,
    ensures
        dispatch(server, client, conn, message) == idle(server, client),
        IrcMessage::parsed(line) == Some(message) ==> step(server, client, conn, Ok(line)) == idle(
            server,
            client,
        ),
{
}

/// A session without a real name that sends `NICK` with a nickname that is
/// valid and free, and then `USER` with four parameters or more, the last of
/// which begins with a colon, is registered: the `NICK` is not answered, the
/// `USER` is answered by the welcome alone, and the nickname has a route to
/// the session's connection.
pub proof fn lemma_nick_then_user_registers(
    server: IrcServerView,
    client: ClientView,
    conn: Seq<char>,
    nick_message: IrcMessageView,
    user_message: IrcMessageView,
)
    requires
        client.realname is None,
        nick_message.command == IrcCommand::NICK,
        nick_message.params.len() > 0,
        is_valid_nickname(nick_message.params[0]),
        !server.has_client(nick_message.params[0]),
        user_message.command == IrcCommand::USER,
        user_message.params.len() >= 4,
        starts_with_char(user_message.params.last(), ':'),
    ensures
        ({
            let nick = nick_message.params[0];
            let named = dispatch(server, client, conn, nick_message);
            let registered = dispatch(named.server, named.client, conn, user_message);
            &&& named.out == Seq::<OutboundView>::empty()
            &&& !named.close
            &&& named.client == ClientView { nick, ..client }
            &&& named.server.has_client(nick)
            &&& !named.client.registered()
            &&& registered.client == ClientView {
                nick,
                realname: Some(user_message.params.last().skip(1)),
                ..client
            }
            &&& registered.client.registered()
            &&& registered.out == seq![welcome_frame(registered.client, conn)]
            &&& !registered.close
            &&& registered.server == IrcServerView {
                routes: named.server.routes.insert(nick, conn),
                ..named.server
            }
            &&& registered.server.routes[nick] == conn
        }),
{
    let nick = nick_message.params[0];
    let named = dispatch(server, client, conn, nick_message);
    assert(named.server.nicks().last() == nick);
}

/// Of two sessions that send `NICK` with the same nickname, valid and free
/// before, the second is told of the collision: it keeps the state it had,
/// unregistered, and the registry keeps the first.
pub proof fn lemma_second_nick_collides(
    server: IrcServerView,
    first: ClientView,
    first_conn: Seq<char>,
    second: ClientView,
    second_conn: Seq<char>,
    first_message: IrcMessageView,
    second_message: IrcMessageView,
)
    requires
        !first.registered(),
        !second.registered(),
        first_message.command == IrcCommand::NICK,
        second_message.command == IrcCommand::NICK,
        first_message.params.len() > 0,
        second_message.params.len() > 0,
        first_message.params[0] == second_message.params[0],
        is_valid_nickname(first_message.params[0]),
        !server.has_client(first_message.params[0]),
    ensures
        ({
            let taken = dispatch(server, first, first_conn, first_message);
            let refused = dispatch(taken.server, second, second_conn, second_message);
            &&& taken.client.nick == first_message.params[0]
            &&& refused.out == one_frame(second_conn, "ERR_NICKCOLLISION\r\n"@)
            &&& refused.client == second
            &&& !refused.client.registered()
            &&& refused.server == taken.server
            &&& !refused.close
        }),
{
    let taken = dispatch(server, first, first_conn, first_message);
    assert(taken.server.nicks().last() == first_message.params[0]);
}

/// A `PRIVMSG` of a registered session goes, as a line, to the connection
/// of the nickname that it is for, and to no other; where that nickname has
/// no route, the sender alone hears of it. Registry and session stay as
/// they are.
pub proof fn lemma_privmsg_routed(
    server: IrcServerView,
    client: ClientView,
    conn: Seq<char>,
    message: IrcMessageView,
    target: Seq<char>,
)
    requires
        client.registered(),
        message.command == IrcCommand::PRIVMSG,
        message.to_nick == Some(target),
        message.params.len() > 0,
    ensures
        ({
            let turn = dispatch(server, client, conn, message);
            &&& turn.server == server
            &&& turn.client == client
            &&& !turn.close
            &&& server.routes.contains_key(target) ==> turn.out == one_frame(
                server.routes[target],
                terminated(message.params.last()),
            )
            &&& !server.routes.contains_key(target) ==> turn.out == one_frame(
                conn,
                "Target client not found"@,
            )
        }),
{
}

/// The text of a `PRIVMSG` line is all that follows the first colon of the
/// line, and the message is for the nickname that the second word gives.
pub proof fn lemma_privmsg_text(line: Seq<char>, message: IrcMessageView)
    requires
        IrcMessage::parsed(line) == Some(message),
        message.command == IrcCommand::PRIVMSG,
        message.to_nick is Some,
    ensures
        line.index_of_first(':') is Some,
        message.params.last() == line.skip(line.index_of_first(':').unwrap() + 1),
        message.to_nick == Some(crate::text::split_whitespace(line)[1]),
{
}

/// A `JOIN` that names a channel which is not open is a no-op: nothing in
/// the registry or the session changes, and nothing is written.
pub proof fn lemma_join_unknown_channel_is_noop(
    server: IrcServerView,
    client: ClientView,
    conn: Seq<char>,
    message: IrcMessageView,
)
    requires
        message.command == IrcCommand::JOIN,
        message.params.len() > 0,
        starts_with_char(message.params[0], '#'),
        server.channel_index(message.params[0]) is None,
    ensures
        dispatch(server, client, conn, message) == idle(server, client),
{
}

/// Whatever is read from a connection, the turn that follows leaves the
/// registry as it must be: no nickname is held by two sessions, and every
/// nickname with a route is held by a session.
pub proof fn lemma_step_keeps_wf(
    server: IrcServerView,
    client: ClientView,
    conn: Seq<char>,
    read: Result<Seq<char>, ConnectionError>,
)
    requires
        server.wf(),
    ensures
        step(server, client, conn, read).server.wf(),
{
    if client.nick.len() > 0 {
        lemma_without_leaves_no_trace(server, client.nick);
    }
    if let Ok(line) = read {
        if let Some(message) = IrcMessage::parsed(line) {
            lemma_nick_command_keeps_wf(server, client, message, conn);
            if message.params.len() > 0 {
                server.channel_names().index_of_first_ensures(message.params[0]);
                if let Some(index) = server.channel_index(message.params[0]) {
                    lemma_membership_keeps_wf(server, index, client.nick);
                }
            }
        }
    }
}

/// When a connection's loop has ended, for whatever reason, nothing of the
/// session's nickname is left in the registry.
pub proof fn lemma_closed_session_is_gone(
    server: IrcServerView,
    client: ClientView,
    conn: Seq<char>,
    read: Result<Seq<char>, ConnectionError>,
)
    requires
        server.wf(),
        client.nick.len() > 0,
        step(server, client, conn, read).close,
    ensures
        ({
            let after = step(server, client, conn, read).server;
            &&& after == server.without(client.nick)
            &&& !after.has_client(client.nick)
            &&& !after.routes.contains_key(client.nick)
            &&& forall|i: int|
                0 <= i < after.channels.len() ==> !(#[trigger] after.channels[i]).clients.contains(
                    client.nick,
                )
        }),
{
    lemma_without_leaves_no_trace(server, client.nick);
}

/// Once a session is registered, nothing that is read from its connection
/// changes it any more.
pub proof fn lemma_registered_session_is_settled(
    server: IrcServerView,
    client: ClientView,
    conn: Seq<char>,
    read: Result<Seq<char>, ConnectionError>,
)
    requires
        client.registered(),
    ensures
        step(server, client, conn, read).client == client,
{
}

/// A nickname gets a route in the turn in which its session is registered,
/// and in no other: the route leads to the session's connection.
pub proof fn lemma_route_comes_with_registration(
    server: IrcServerView,
    client: ClientView,
    conn: Seq<char>,
    read: Result<Seq<char>, ConnectionError>,
    nick: Seq<char>,
)
    requires
        !server.routes.contains_key(nick),
        step(server, client, conn, read).server.routes.contains_key(nick),
    ensures
        !client.registered(),
        step(server, client, conn, read).client.registered(),
        step(server, client, conn, read).client.nick == nick,
        step(server, client, conn, read).server.routes[nick] == conn,
{
}

/// A session only moves forward: whatever is read from its connection, it
/// keeps a nickname once it has one, and its real name once it has one.
pub proof fn lemma_session_moves_forward(
    server: IrcServerView,
    client: ClientView,
    conn: Seq<char>,
    read: Result<Seq<char>, ConnectionError>,
)
    ensures
        client.nick.len() > 0 ==> step(server, client, conn, read).client.nick.len() > 0,
        client.realname is Some ==> step(server, client, conn, read).client.realname is Some,
        step(server, client, conn, read).client.channels == client.channels,
{
}

} // verus!
