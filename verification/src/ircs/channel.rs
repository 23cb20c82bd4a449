//! A channel: a name and the nicknames of its members.

use crate::connect::{Outbound, OutboundView};
use crate::ircs::client::Client;
use crate::ircs::irc_server::IrcServer;
use crate::text::{clone_strings, find_string};
use vstd::prelude::*;

verus! {

/// A named group of nicknames. A nickname may stand in it more than once.
#[derive(Debug)]
pub struct Channel {
    /// The channel's name.
    pub name: String,
    /// The nicknames of the members, in the order in which they joined.
    pub clients: Vec<String>,
}

/// A [`Channel`] as a mathematical value.
#[verifier::ext_equal]
pub ghost struct ChannelView {
    pub name: Seq<char>,
    pub clients: Seq<Seq<char>>,
}

impl View for Channel {
    type V = ChannelView;

    open spec fn view(&self) -> ChannelView {
        ChannelView { name: self.name@, clients: self.clients.deep_view() }
    }
}

impl DeepView for Channel {
    type V = ChannelView;

    open spec fn deep_view(&self) -> ChannelView {
        self@
    }
}

impl Clone for Channel {
    fn clone(&self) -> (copy: Self)
        ensures
            copy@ == self@,
    {
        Channel { name: self.name.clone(), clients: clone_strings(&self.clients) }
    }
}

impl ChannelView {
    /// The channel after `nick` has joined it.
    pub open spec fn joined(self, nick: Seq<char>) -> ChannelView {
        ChannelView { name: self.name, clients: self.clients.push(nick) }
    }

    /// The channel after `nick` has left it: without the first place at
    /// which the nickname stood, and as before where it stood nowhere.
    pub open spec fn parted(self, nick: Seq<char>) -> ChannelView {
        ChannelView { name: self.name, clients: self.clients.remove_value(nick) }
    }
}

impl Channel {
    /// Adds the session's nickname to the members, at the end.
    pub fn join(&mut self, client: &Client)
        ensures
            final(self)@ == old(self)@.joined(client@.nick),
    {
        self.clients.push(client.nick.clone());
    }

    /// Takes the session's nickname out of the members, once, and tells
    /// whether it was among them.
    pub fn part(&mut self, client: &Client) -> (left: bool)
        ensures
            left == old(self)@.clients.contains(client@.nick),
            final(self)@ == old(self)@.parted(client@.nick),
    {
        let ghost before = self.clients.deep_view();
        proof {
            before.index_of_first_ensures(client@.nick);
        }
        match find_string(&self.clients, client.nick.as_str()) {
            Some(index) => {
                self.clients.remove(index);
                true
            },
            None => false,
        }
    }
}

/// The frames that carry `message` to the members `members`: one for each
/// place in the list whose nickname has a route in `routes`, in the order of
/// the list.
pub open spec fn broadcast_frames(
    members: Seq<Seq<char>>,
    message: Seq<char>,
    routes: Map<Seq<char>, Seq<char>>,
) -> Seq<OutboundView>
    decreases members.len(),
{
    if members.len() == 0 {
        Seq::empty()
    } else {
        let before = broadcast_frames(members.drop_last(), message, routes);
        if routes.contains_key(members.last()) {
            before.push(OutboundView { to: routes[members.last()], message })
        } else {
            before
        }
    }
}

impl Channel {
    /// Addresses `message` to every member that the registry `server` has a
    /// route for.
    pub fn broadcast_message(&self, message: &str, server: &IrcServer) -> (out: Vec<Outbound>)
        ensures
            out.deep_view() == broadcast_frames(self@.clients, message@, server@.routes),
    {
        let ghost members = self@.clients;
        let mut out: Vec<Outbound> = Vec::new();
        let mut i: usize = 0;
        while i < self.clients.len()
            invariant
                i <= self.clients.len(),
                members == self@.clients,
                out.deep_view() == broadcast_frames(members.take(i as int), message@, server@.routes),
            decreases self.clients.len() - i,
        {
            assert(members.take(i + 1).drop_last() =~= members.take(i as int));
            if let Some(writer) = server.find_route(self.clients[i].as_str()) {
                out.push(writer.write_message(message));
            }
            i += 1;
        }
        assert(members.take(self.clients.len() as int) =~= members);
        out
    }
}

} // verus!
