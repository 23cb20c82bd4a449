use iris_lib::connect::{ConnectionWrite, Outbound};
use iris_lib::ircs::irc_server::valid_nickname;
use iris_lib::ircs::{Channel, Client, IrcCommand, IrcMessage, IrcServer};

fn conn(addr: &str) -> ConnectionWrite {
    ConnectionWrite::new(addr.to_string())
}

fn line(text: &str) -> IrcMessage {
    IrcMessage::parse(text).unwrap()
}

fn bare(command: IrcCommand) -> IrcMessage {
    IrcMessage { command, params: Vec::new(), from_nick: None, to_nick: None }
}

fn frames(out: &[Outbound]) -> Vec<(String, String)> {
    out.iter().map(|f| (f.to.id(), f.message.clone())).collect()
}

fn one(to: &str, text: &str) -> Vec<(String, String)> {
    vec![(to.to_string(), text.to_string())]
}

fn named(nick: &str) -> Client {
    let mut client = Client::new();
    client.nick = nick.to_string();
    client
}

/// A registry in which `nick` is registered over the connection `addr`.
fn register(server: &mut IrcServer, nick: &str, addr: &str) -> Client {
    let mut client = Client::new();
    let c = conn(addr);
    assert!(server.handle_nick_command(line(&format!("NICK {}", nick)), &c, &mut client).is_empty());
    assert!(server.handle_user_command(line("USER a b c :Someone"), &c, &mut client).is_empty());
    server.add_connection(nick.to_string(), c);
    client
}

fn members(server: &IrcServer, channel: &str) -> Vec<String> {
    server.find_channel(channel).unwrap().clients.clone()
}

#[test]
fn nickname_validation() {
    assert!(valid_nickname("Alice1"));
    assert!(!valid_nickname("1Alice"));
    assert!(!valid_nickname("abcdefghij"));
    assert!(!valid_nickname("al-ice"));
    assert!(valid_nickname("abcdefghi"));
    assert!(valid_nickname("a"));
    assert!(valid_nickname("Z9"));
    assert!(!valid_nickname(""));
    assert!(!valid_nickname("9"));
    assert!(!valid_nickname("al ice"));
    assert!(!valid_nickname("\u{e9}lan"));
    assert!(!valid_nickname("a_b"));
}

#[test]
fn reply_texts() {
    assert_eq!(
        IrcServer::send_err_needmoreparams("JOIN"),
        ":JOIN 461  :Need more parameters\r\n"
    );
    assert_eq!(IrcServer::send_err_nosuchchannel("#rust"), " 403  #rust :No such channel\r\n");
}

#[test]
fn new_registry_is_empty() {
    let server = IrcServer::new();
    assert!(!server.has_client("alice"));
    assert!(server.find_route("alice").is_none());
    assert_eq!(server.get_channel("#general"), None);
    assert!(server.find_channel("#general").is_none());
}

#[test]
fn new_session_is_unregistered() {
    let client = Client::new();
    assert_eq!(client.nick, "");
    assert_eq!(client.realname, None);
    assert!(client.channels.is_empty());
    assert!(!client.registered());
    let mut half = named("alice");
    assert!(!half.registered());
    half.realname = Some("Alice".to_string());
    assert!(half.registered());
    let copy = half.clone();
    assert_eq!(copy.nick, "alice");
    assert_eq!(copy.realname, Some("Alice".to_string()));
    assert!(copy.channels.is_empty());
}

#[test]
fn nick_is_taken() {
    let mut server = IrcServer::new();
    let mut client = Client::new();
    let out = server.handle_nick_command(line("NICK alice"), &conn("a:1"), &mut client);
    assert!(out.is_empty());
    assert_eq!(client.nick, "alice");
    assert_eq!(client.realname, None);
    assert!(server.has_client("alice"));
    assert!(server.find_route("alice").is_none());
    assert!(!client.registered());
}

#[test]
fn nick_without_parameter_needs_more() {
    let mut server = IrcServer::new();
    let mut client = Client::new();
    let out = server.handle_nick_command(bare(IrcCommand::NICK), &conn("a:1"), &mut client);
    assert_eq!(frames(&out), one("a:1", ":NICK 461  :Need more parameters\r\n"));
    assert_eq!(client.nick, "");
}

#[test]
fn erroneous_nick_is_refused() {
    let mut server = IrcServer::new();
    let mut client = Client::new();
    for bad in ["NICK 1Alice", "NICK abcdefghij", "NICK al-ice"] {
        let out = server.handle_nick_command(line(bad), &conn("a:1"), &mut client);
        assert_eq!(frames(&out), one("a:1", "ERR_ERRONEUSNICKNAME\r\n"));
        assert_eq!(client.nick, "");
    }
    assert!(!server.has_client("1Alice"));
    assert!(!server.has_client("abcdefghij"));
}

#[test]
fn second_nick_bob_collides() {
    let mut server = IrcServer::new();
    let mut first = Client::new();
    let mut second = Client::new();
    assert!(server.handle_nick_command(line("NICK bob"), &conn("a:1"), &mut first).is_empty());
    let out = server.handle_nick_command(line("NICK bob"), &conn("b:2"), &mut second);
    assert_eq!(frames(&out), one("b:2", "ERR_NICKCOLLISION\r\n"));
    assert_eq!(second.nick, "");
    assert!(!second.registered());
    assert_eq!(first.nick, "bob");
    assert!(server.has_client("bob"));
}

#[test]
fn nick_differs_by_case() {
    let mut server = IrcServer::new();
    let mut first = Client::new();
    let mut second = Client::new();
    assert!(server.handle_nick_command(line("NICK bob"), &conn("a:1"), &mut first).is_empty());
    assert!(server.handle_nick_command(line("NICK Bob"), &conn("b:2"), &mut second).is_empty());
    assert!(server.has_client("bob"));
    assert!(server.has_client("Bob"));
}

#[test]
fn own_nick_again_collides() {
    let mut server = IrcServer::new();
    let mut client = Client::new();
    assert!(server.handle_nick_command(line("NICK bob"), &conn("a:1"), &mut client).is_empty());
    let out = server.handle_nick_command(line("NICK bob"), &conn("a:1"), &mut client);
    assert_eq!(frames(&out), one("a:1", "ERR_NICKCOLLISION\r\n"));
    assert_eq!(client.nick, "bob");
}

#[test]
fn new_nick_frees_the_old_one() {
    let mut server = IrcServer::new();
    let mut client = Client::new();
    assert!(server.handle_nick_command(line("NICK alice"), &conn("a:1"), &mut client).is_empty());
    assert!(server.handle_nick_command(line("NICK carol"), &conn("a:1"), &mut client).is_empty());
    assert_eq!(client.nick, "carol");
    assert!(server.has_client("carol"));
    assert!(!server.has_client("alice"));
    let mut other = Client::new();
    assert!(server.handle_nick_command(line("NICK alice"), &conn("b:2"), &mut other).is_empty());
    assert!(server.has_client("alice"));
}

#[test]
fn user_sets_the_real_name() {
    let server = IrcServer::new();
    let mut client = named("alice");
    let out = server.handle_user_command(line("USER a b c :RealName"), &conn("a:1"), &mut client);
    assert!(out.is_empty());
    assert_eq!(client.realname, Some("RealName".to_string()));
    let out = server.handle_user_command(line("USER a b c d e :Alice"), &conn("a:1"), &mut client);
    assert!(out.is_empty());
    assert_eq!(client.realname, Some("Alice".to_string()));
    assert_eq!(client.nick, "alice");
    let out = server.handle_user_command(line("USER a b c :"), &conn("a:1"), &mut client);
    assert!(out.is_empty());
    assert_eq!(client.realname, Some(String::new()));
    let out = server.handle_user_command(line("USER a b c ::x"), &conn("a:1"), &mut client);
    assert!(out.is_empty());
    assert_eq!(client.realname, Some(":x".to_string()));
}

#[test]
fn user_with_too_few_parameters_needs_more() {
    let server = IrcServer::new();
    let mut client = named("alice");
    for short in ["USER", "USER a", "USER a b", "USER a b :Alice"] {
        let out = server.handle_user_command(line(short), &conn("a:1"), &mut client);
        assert_eq!(frames(&out), one("a:1", "ERR_NEEDMOREPARAMS\r\n"));
        assert_eq!(client.realname, None);
    }
}

#[test]
fn user_whose_last_parameter_has_no_colon_needs_more() {
    let server = IrcServer::new();
    let mut client = named("alice");
    let out = server.handle_user_command(line("USER a b c Alice"), &conn("a:1"), &mut client);
    assert_eq!(frames(&out), one("a:1", "ERR_NEEDMOREPARAMS\r\n"));
    assert_eq!(client.realname, None);
    let out = server.handle_user_command(line("USER a b :c Alice"), &conn("a:1"), &mut client);
    assert_eq!(frames(&out), one("a:1", "ERR_NEEDMOREPARAMS\r\n"));
    assert_eq!(client.realname, None);
    let out = server.handle_user_command(line("USER a b c :Real Name"), &conn("a:1"), &mut client);
    assert_eq!(frames(&out), one("a:1", "ERR_NEEDMOREPARAMS\r\n"));
    assert_eq!(client.realname, None);
}

#[test]
fn welcome_names_nick_and_real_name() {
    let server = IrcServer::new();
    let mut client = named("alice");
    client.realname = Some("Alice A".to_string());
    let frame = server.welcome_client(&client, &conn("a:1"));
    assert_eq!(frame.to.id(), "a:1");
    assert_eq!(frame.message, ":iris-server 001 alice :Hi Alice A, welcome to IRC\r\n");
    let frame = server.welcome_client(&named("bob"), &conn("b:2"));
    assert_eq!(frame.message, ":iris-server 001 bob :Hi bob, welcome to IRC\r\n");
}

#[test]
fn route_is_only_for_a_known_nick() {
    let mut server = IrcServer::new();
    server.add_connection("ghost".to_string(), conn("g:1"));
    assert!(server.find_route("ghost").is_none());
    let mut client = Client::new();
    assert!(server.handle_nick_command(line("NICK alice"), &conn("a:1"), &mut client).is_empty());
    server.add_connection("alice".to_string(), conn("a:1"));
    assert_eq!(server.find_route("alice").unwrap().id(), "a:1");
    server.add_connection("alice".to_string(), conn("a:9"));
    assert_eq!(server.find_route("alice").unwrap().id(), "a:9");
    server.remove_connection("alice");
    assert!(server.find_route("alice").is_none());
    assert!(server.has_client("alice"));
    server.remove_connection("alice");
    assert!(server.find_route("alice").is_none());
}

#[test]
fn ping_is_answered_with_its_parameter() {
    let server = IrcServer::new();
    let out = server.handle_ping_command(line("PING irc.example.org"), &conn("a:1"));
    assert_eq!(frames(&out), one("a:1", "PONG :irc.example.org\r\n"));
    let out = server.handle_ping_command(line("PING one two"), &conn("a:1"));
    assert_eq!(frames(&out), one("a:1", "PONG :one\r\n"));
    let out = server.handle_ping_command(line("PING"), &conn("a:1"));
    assert!(out.is_empty());
}

#[test]
fn quit_gives_the_reason_back() {
    let server = IrcServer::new();
    let out = server.handle_quit_command(line("QUIT bye"), &conn("a:1"));
    assert_eq!(frames(&out), one("a:1", "QUIT :bye\r\n"));
    let out = server.handle_quit_command(line("QUIT :gone fishing"), &conn("a:1"));
    assert_eq!(frames(&out), one("a:1", "QUIT ::gone\r\n"));
    let mut quit = line("QUIT");
    quit.set_from_nick("alice");
    let out = server.handle_quit_command(quit, &conn("a:1"));
    assert_eq!(frames(&out), one("a:1", "QUIT :alice has quit\r\n"));
    let out = server.handle_quit_command(line("QUIT"), &conn("a:1"));
    assert_eq!(frames(&out), one("a:1", "QUIT : has quit\r\n"));
}

#[test]
fn privmsg_is_routed_to_its_target() {
    let mut server = IrcServer::new();
    register(&mut server, "alice", "a:1");
    register(&mut server, "bob", "b:2");
    let out = server.handle_privmsg_command(line("PRIVMSG bob :hello there"), &conn("a:1"));
    assert_eq!(frames(&out), one("b:2", "hello there\r\n"));
    let out = server.handle_privmsg_command(line("PRIVMSG carol :hi"), &conn("a:1"));
    assert_eq!(frames(&out), one("a:1", "Target client not found"));
    let out = server.handle_privmsg_command(line("PRIVMSG alice :note to self"), &conn("a:1"));
    assert_eq!(frames(&out), one("a:1", "note to self\r\n"));
}

#[test]
fn privmsg_text_is_terminated_once() {
    let mut server = IrcServer::new();
    register(&mut server, "bob", "b:2");
    let ready = IrcMessage {
        command: IrcCommand::PRIVMSG,
        params: vec!["bob".to_string(), "line\r\n".to_string()],
        from_nick: None,
        to_nick: Some("bob".to_string()),
    };
    let out = server.handle_privmsg_command(ready, &conn("a:1"));
    assert_eq!(frames(&out), one("b:2", "line\r\n"));
    let out = server.handle_privmsg_command(line("PRIVMSG bob :"), &conn("a:1"));
    assert_eq!(frames(&out), one("b:2", "\r\n"));
}

#[test]
fn privmsg_for_nobody_is_dropped() {
    let mut server = IrcServer::new();
    register(&mut server, "bob", "b:2");
    assert!(server.handle_privmsg_command(line("PRIVMSG bob"), &conn("a:1")).is_empty());
    assert!(server.handle_privmsg_command(line("PRIVMSG"), &conn("a:1")).is_empty());
    let targeted = IrcMessage {
        command: IrcCommand::PRIVMSG,
        params: Vec::new(),
        from_nick: None,
        to_nick: Some("bob".to_string()),
    };
    assert!(server.handle_privmsg_command(targeted, &conn("a:1")).is_empty());
}

#[test]
fn server_message_goes_to_a_routed_nick() {
    let mut server = IrcServer::new();
    register(&mut server, "bob", "b:2");
    let frame = server.send_privmsg_from_server("bob", "maintenance at noon").unwrap();
    assert_eq!(frame.to.id(), "b:2");
    assert_eq!(frame.message, ":server PRIVMSG bob :maintenance at noon\r\n");
    assert!(server.send_privmsg_from_server("carol", "anyone?").is_none());
}

#[test]
fn channel_needs_a_hash_and_a_new_name() {
    let mut server = IrcServer::new();
    assert!(!server.add_channel("general".to_string()));
    assert!(!server.add_channel(String::new()));
    assert!(server.add_channel("#general".to_string()));
    assert!(!server.add_channel("#general".to_string()));
    assert!(server.add_channel("#rust".to_string()));
    assert_eq!(server.get_channel("#general"), Some(0));
    assert_eq!(server.get_channel("#rust"), Some(1));
    assert_eq!(server.get_channel("#General"), None);
    let channel = server.find_channel("#rust").unwrap();
    assert_eq!(channel.name, "#rust");
    assert!(channel.clients.is_empty());
}

#[test]
fn join_of_a_channel_that_is_not_there_is_a_no_op() {
    let mut server = IrcServer::new();
    let alice = register(&mut server, "alice", "a:1");
    let out = server.handle_join_command(line("JOIN #general"), &conn("a:1"), &alice);
    assert!(out.is_empty());
    assert_eq!(server.get_channel("#general"), None);
    assert!(server.find_channel("#general").is_none());
    assert!(server.add_channel("#rust".to_string()));
    let out = server.handle_join_command(line("JOIN #general"), &conn("a:1"), &alice);
    assert!(out.is_empty());
    assert!(members(&server, "#rust").is_empty());
    assert_eq!(server.get_channel("#general"), None);
}

#[test]
fn join_adds_the_nick_to_the_members() {
    let mut server = IrcServer::new();
    let alice = register(&mut server, "alice", "a:1");
    let bob = register(&mut server, "bob", "b:2");
    assert!(server.add_channel("#general".to_string()));
    assert!(server.add_channel("#rust".to_string()));
    assert!(server.handle_join_command(line("JOIN #rust"), &conn("a:1"), &alice).is_empty());
    assert!(server.handle_join_command(line("JOIN #rust"), &conn("b:2"), &bob).is_empty());
    assert!(server.handle_join_command(line("JOIN #rust"), &conn("a:1"), &alice).is_empty());
    assert_eq!(members(&server, "#rust"), vec!["alice", "bob", "alice"]);
    assert!(members(&server, "#general").is_empty());
}

#[test]
fn join_with_a_bad_parameter() {
    let mut server = IrcServer::new();
    let alice = register(&mut server, "alice", "a:1");
    assert!(server.add_channel("#general".to_string()));
    let out = server.handle_join_command(line("JOIN"), &conn("a:1"), &alice);
    assert_eq!(frames(&out), one("a:1", ":JOIN 461  :Need more parameters\r\n"));
    let out = server.handle_join_command(line("JOIN general"), &conn("a:1"), &alice);
    assert_eq!(frames(&out), one("a:1", " 403  general :No such channel\r\n"));
    assert!(members(&server, "#general").is_empty());
}

#[test]
fn part_takes_the_nick_out_once() {
    let mut server = IrcServer::new();
    let alice = register(&mut server, "alice", "a:1");
    let bob = register(&mut server, "bob", "b:2");
    assert!(server.add_channel("#rust".to_string()));
    for client in [&alice, &bob, &alice] {
        assert!(server.handle_join_command(line("JOIN #rust"), &conn("x:0"), client).is_empty());
    }
    assert!(server.handle_part_command(line("PART #rust"), &conn("a:1"), &alice).is_empty());
    assert_eq!(members(&server, "#rust"), vec!["bob", "alice"]);
    assert!(server.handle_part_command(line("PART #rust"), &conn("a:1"), &alice).is_empty());
    assert_eq!(members(&server, "#rust"), vec!["bob"]);
    let out = server.handle_part_command(line("PART #rust"), &conn("a:1"), &alice);
    assert_eq!(frames(&out), one("a:1", " 403  #rust :No such channel\r\n"));
    assert_eq!(members(&server, "#rust"), vec!["bob"]);
}

#[test]
fn part_with_a_bad_parameter() {
    let mut server = IrcServer::new();
    let alice = register(&mut server, "alice", "a:1");
    let out = server.handle_part_command(line("PART"), &conn("a:1"), &alice);
    assert_eq!(frames(&out), one("a:1", ":PART 461  :Need more parameters\r\n"));
    let out = server.handle_part_command(line("PART rust"), &conn("a:1"), &alice);
    assert_eq!(frames(&out), one("a:1", " 403  rust :No such channel\r\n"));
    let out = server.handle_part_command(line("PART #nowhere"), &conn("a:1"), &alice);
    assert_eq!(frames(&out), one("a:1", " 403  #nowhere :No such channel\r\n"));
}

#[test]
fn channel_join_and_part() {
    let mut channel = Channel { name: "#rust".to_string(), clients: Vec::new() };
    let alice = named("alice");
    let bob = named("bob");
    channel.join(&alice);
    channel.join(&bob);
    channel.join(&alice);
    assert_eq!(channel.clients, vec!["alice", "bob", "alice"]);
    assert!(!channel.part(&named("carol")));
    assert_eq!(channel.clients, vec!["alice", "bob", "alice"]);
    assert!(channel.part(&alice));
    assert_eq!(channel.clients, vec!["bob", "alice"]);
    assert!(channel.part(&bob));
    assert!(channel.part(&alice));
    assert!(!channel.part(&alice));
    assert!(channel.clients.is_empty());
    assert_eq!(channel.name, "#rust");
    let copy = channel.clone();
    assert_eq!(copy.name, "#rust");
}

#[test]
fn broadcast_reaches_the_members_that_have_a_route() {
    let mut server = IrcServer::new();
    let alice = register(&mut server, "alice", "a:1");
    let bob = register(&mut server, "bob", "b:2");
    let mut channel = Channel { name: "#rust".to_string(), clients: Vec::new() };
    assert!(channel.broadcast_message("hi\r\n", &server).is_empty());
    channel.join(&bob);
    channel.join(&named("ghost"));
    channel.join(&alice);
    channel.join(&bob);
    let out = channel.broadcast_message("hi\r\n", &server);
    assert_eq!(
        frames(&out),
        vec![
            ("b:2".to_string(), "hi\r\n".to_string()),
            ("a:1".to_string(), "hi\r\n".to_string()),
            ("b:2".to_string(), "hi\r\n".to_string()),
        ]
    );
}

#[test]
fn forget_removes_every_trace() {
    let mut server = IrcServer::new();
    let alice = register(&mut server, "alice", "a:1");
    let bob = register(&mut server, "bob", "b:2");
    assert!(server.add_channel("#rust".to_string()));
    assert!(server.add_channel("#general".to_string()));
    for client in [&alice, &bob, &alice] {
        assert!(server.handle_join_command(line("JOIN #rust"), &conn("x:0"), client).is_empty());
    }
    assert!(server.handle_join_command(line("JOIN #general"), &conn("a:1"), &alice).is_empty());
    server.forget("alice");
    assert!(!server.has_client("alice"));
    assert!(server.find_route("alice").is_none());
    assert_eq!(members(&server, "#rust"), vec!["bob"]);
    assert!(members(&server, "#general").is_empty());
    assert!(server.has_client("bob"));
    assert_eq!(server.find_route("bob").unwrap().id(), "b:2");
    server.forget("nobody");
    assert!(server.has_client("bob"));
    assert_eq!(members(&server, "#rust"), vec!["bob"]);
}
