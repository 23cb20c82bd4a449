//! The state of one connection's session.

use crate::text::clone_strings;
use vstd::prelude::*;

verus! {

/// A session: what a connection has told of itself so far.
#[derive(Debug)]
pub struct Client {
    /// The nickname; empty until one was accepted.
    pub nick: String,
    /// The real name, once given.
    pub realname: Option<String>,
    /// The names of the channels of the session.
    pub channels: Vec<String>,
}

/// A [`Client`] as a mathematical value.
#[verifier::ext_equal]
pub ghost struct ClientView {
    pub nick: Seq<char>,
    pub realname: Option<Seq<char>>,
    pub channels: Seq<Seq<char>>,
}

impl ClientView {
    /// A session as it is when its connection was just accepted.
    pub open spec fn fresh() -> ClientView {
        ClientView { nick: Seq::empty(), realname: None, channels: Seq::empty() }
    }

    /// Whether the session is registered: it has both a nickname and a real
    /// name.
    pub open spec fn registered(self) -> bool {
        self.nick.len() > 0 && self.realname is Some
    }
}

impl View for Client {
    type V = ClientView;

    open spec fn view(&self) -> ClientView {
        ClientView {
            nick: self.nick@,
            realname: self.realname.deep_view(),
            channels: self.channels.deep_view(),
        }
    }
}

impl DeepView for Client {
    type V = ClientView;

    open spec fn deep_view(&self) -> ClientView {
        self@
    }
}

impl Clone for Client {
    fn clone(&self) -> (copy: Self)
        ensures
            copy@ == self@,
    {
        let realname = match &self.realname {
            Some(name) => Some(name.clone()),
            None => None,
        };
        Client { nick: self.nick.clone(), realname, channels: clone_strings(&self.channels) }
    }
}

impl Client {
    /// The session of a connection that was just accepted.
    pub fn new() -> (client: Self)
        ensures
            client@ == ClientView::fresh(),
    {
        let client = Client { nick: String::new(), realname: None, channels: Vec::new() };
        client
    }

    /// Tells whether the session is registered.
    pub fn registered(&self) -> (yes: bool)
        ensures
            yes == self@.registered(),
    {
        !self.nick.as_str().is_empty() && self.realname.is_some()
    }
}

} // verus!
