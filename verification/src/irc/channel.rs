//! The senders through which the program reaches the IRC channels it is in,
//! by server address and channel name.
use vstd::prelude::*;
use vstd::string::*;
use crate::table::NamedTable;

verus! {

/// What the program asks of the client of a server about one of its
/// channels.
#[derive(Debug, Clone, PartialEq, Eq)]
pub enum ChannelControl {
    Join { channel: String },
    Part { channel: String },
    Message { channel: String, message: String },
}

/// Server address to channel name to sender.
#[verifier::reject_recursive_types(S)]
pub struct ChannelRegistry<S> {
    servers: NamedTable<NamedTable<S>>,
}

impl<S> View for ChannelRegistry<S> {
    type V = Map<Seq<char>, Map<Seq<char>, S>>;

    closed spec fn view(&self) -> Map<Seq<char>, Map<Seq<char>, S>> {
        self.servers@.map_values(|t: NamedTable<S>| t@)
    }
}

impl<S> ChannelRegistry<S> {
    /// No server and no channel.
    pub fn new() -> (res: Self)
        ensures
            res@ == Map::<Seq<char>, Map<Seq<char>, S>>::empty(),
    {
        let res = ChannelRegistry { servers: NamedTable::new() };
        assert(res@ =~= Map::<Seq<char>, Map<Seq<char>, S>>::empty());
        res
    }

    /// The sender of `channel` on the server at `server_url`.
    pub fn sender(&self, server_url: &str, channel: &str) -> (res: Option<&S>)
        ensures
            match res {
                Some(s) => self@.contains_key(server_url@) && self@[server_url@].contains_key(
                    channel@,
                ) && *s == self@[server_url@][channel@],
                None => !(self@.contains_key(server_url@) && self@[server_url@].contains_key(
                    channel@,
                )),
            },
    {
        match self.servers.get(server_url) {
            Some(channels) => channels.get(channel),
            None => None,
        }
    }

    /// Records `sender` for `channel` on the server at `server_url`, adding
    /// the server where it is new.
    pub fn add_channel(&mut self, server_url: String, channel: String, sender: S)
        ensures
            final(self)@ == old(self)@.insert(
                server_url@,
                (if old(self)@.contains_key(server_url@) {
                    old(self)@[server_url@]
                } else {
                    Map::empty()
                }).insert(channel@, sender),
            ),
    {
        let mut channels = match self.servers.remove(server_url.as_str()) {
            Some(t) => t,
            None => NamedTable::new(),
        };
        channels.insert(channel, sender);
        self.servers.insert(server_url, channels);
        proof {
            assert(self@ =~= old(self)@.insert(
                server_url@,
                (if old(self)@.contains_key(server_url@) {
                    old(self)@[server_url@]
                } else {
                    Map::empty()
                }).insert(channel@, sender),
            ));
        }
    }

    /// Forgets `channel` on the server at `server_url`; the server stays,
    /// with its other channels.
    pub fn remove_channel(&mut self, server_url: &str, channel: &str)
        ensures
            final(self)@ == (if old(self)@.contains_key(server_url@) {
                old(self)@.insert(server_url@, old(self)@[server_url@].remove(channel@))
            } else {
                old(self)@
            }),
    {
        if let Some(mut channels) = self.servers.remove(server_url) {
            channels.remove(channel);
            self.servers.insert(String::from_str(server_url), channels);
            proof {
                assert(self@ =~= old(self)@.insert(
                    server_url@,
                    old(self)@[server_url@].remove(channel@),
                ));
            }
        }
    }

    /// The sender and the control message that say `message` in `channel`
    /// on the server at `server_url`; `None` where the registry knows no
    /// such channel, and nothing is to be sent.
    pub fn channel_message(&self, server_url: &str, channel: String, message: String) -> (res:
        Option<(&S, ChannelControl)>)
        ensures
            match res {
                Some((s, control)) => {
                    &&& self@.contains_key(server_url@)
                    &&& self@[server_url@].contains_key(channel@)
                    &&& *s == self@[server_url@][channel@]
                    &&& control == ChannelControl::Message { channel, message }
                },
                None => !(self@.contains_key(server_url@) && self@[server_url@].contains_key(
                    channel@,
                )),
            },
    {
        match self.sender(server_url, channel.as_str()) {
            Some(s) => Some((s, ChannelControl::Message { channel, message })),
            None => None,
        }
    }
}

/// After a channel is added, its sender is found under its server and name;
/// after it is removed, none is.
pub proof fn lemma_channel_read_after_write<S>(
    channels: Map<Seq<char>, Map<Seq<char>, S>>,
    server_url: Seq<char>,
    channel: Seq<char>,
    sender: S,
)
    ensures
        ({
            let added = channels.insert(
                server_url,
                (if channels.contains_key(server_url) {
                    channels[server_url]
                } else {
                    Map::empty()
                }).insert(channel, sender),
            );
            &&& added.contains_key(server_url)
            &&& added[server_url].contains_key(channel)
            &&& added[server_url][channel] == sender
            &&& {
                let removed = if added.contains_key(server_url) {
                    added.insert(server_url, added[server_url].remove(channel))
                } else {
                    added
                };
                !removed[server_url].contains_key(channel)
            }
        }),
{
}

} // verus!
