//! The users that the client has seen in the channel, by nickname, each with
//! the entity that stands for it in the world.  Entities are handed around as
//! the integers that the world gives them.
use vstd::prelude::*;
use crate::table::NamedTable;
use crate::irc::server::{IrcEvent, IrcEventView};

verus! {

/// The table of users: nickname to entity.
pub struct UserRegistry {
    table: NamedTable<u64>,
}

impl View for UserRegistry {
    type V = Map<Seq<char>, u64>;

    closed spec fn view(&self) -> Map<Seq<char>, u64> {
        self.table@
    }
}

impl UserRegistry {
    /// An empty table.
    pub fn new() -> (res: Self)
        ensures
            res@ == Map::<Seq<char>, u64>::empty(),
    {
        UserRegistry { table: NamedTable::new() }
    }

    /// The entity of `nick`, if the table knows it.
    pub fn get(&self, nick: &str) -> (res: Option<u64>)
        ensures
            res == (if self@.contains_key(nick@) {
                Some(self@[nick@])
            } else {
                None
            }),
    {
        match self.table.get(nick) {
            Some(e) => Some(*e),
            None => None,
        }
    }

    /// Whether the table knows `nick`.
    pub fn contains(&self, nick: &str) -> (res: bool)
        ensures
            res == self@.contains_key(nick@),
    {
        self.table.contains(nick)
    }

    /// Records `entity` under `nick`, in place of any entity that was there.
    pub fn insert(&mut self, nick: String, entity: u64)
        ensures
            final(self)@ == old(self)@.insert(nick@, entity),
    {
        self.table.insert(nick, entity);
    }

    /// Takes `nick` out of the table, with the entity that it had.
    pub fn remove(&mut self, nick: &str) -> (res: Option<u64>)
        ensures
            res == (if old(self)@.contains_key(nick@) {
                Some(old(self)@[nick@])
            } else {
                None
            }),
            final(self)@ == old(self)@.remove(nick@),
    {
        self.table.remove(nick)
    }
}

/// What the world does for an event of the IRC client.
#[derive(Debug, Clone, PartialEq, Eq)]
pub enum UserAction {
    /// Spawn the client's own user, named `name`, and register it as `nick`.
    SpawnPrimary { nick: String, name: String },
    /// Spawn a user and register it as `nick`; where `joined`, then announce
    /// that a user joined.
    SpawnUser { nick: String, joined: bool },
    /// Announce that a user joined.
    AnnounceJoin,
    /// Despawn the entity of a user who left.
    Despawn { entity: u64 },
    /// Hand `message` to the entity of the user who said it.
    Deliver { entity: u64, message: String },
    /// Nothing to do.
    Nothing,
}

pub enum UserActionView {
    SpawnPrimary { nick: Seq<char>, name: Seq<char> },
    SpawnUser { nick: Seq<char>, joined: bool },
    AnnounceJoin,
    Despawn { entity: u64 },
    Deliver { entity: u64, message: Seq<char> },
    Nothing,
}

impl View for UserAction {
    type V = UserActionView;

    open spec fn view(&self) -> UserActionView {
        match self {
            UserAction::SpawnPrimary { nick, name } => UserActionView::SpawnPrimary {
                nick: nick@,
                name: name@,
            },
            UserAction::SpawnUser { nick, joined } => UserActionView::SpawnUser {
                nick: nick@,
                joined: *joined,
            },
            UserAction::AnnounceJoin => UserActionView::AnnounceJoin,
            UserAction::Despawn { entity } => UserActionView::Despawn { entity: *entity },
            UserAction::Deliver { entity, message } => UserActionView::Deliver {
                entity: *entity,
                message: message@,
            },
            UserAction::Nothing => UserActionView::Nothing,
        }
    }
}

/// The table after an event, and what the world does for it.  A user who is
/// new gets an entity; a change of nickname moves the entity to the new
/// nickname; a user who leaves or quits loses it; a message goes to the
/// entity of its sender.  Events about nicknames that the table does not know
/// change nothing.
pub open spec fn users_on_event(users: Map<Seq<char>, u64>, event: IrcEventView) -> (
    Map<Seq<char>, u64>,
    UserActionView,
) {
    match event {
        IrcEventView::PrimaryUser { nick, name } => (
            users,
            UserActionView::SpawnPrimary { nick, name },
        ),
        IrcEventView::AddUser { nick } => (users, UserActionView::SpawnUser { nick, joined: false }),
        IrcEventView::ChangeName { previous_nick, nick } => if users.contains_key(previous_nick) {
            (
                users.remove(previous_nick).insert(nick, users[previous_nick]),
                UserActionView::Nothing,
            )
        } else {
            (users, UserActionView::Nothing)
        },
        IrcEventView::UserJoined { nick } => if users.contains_key(nick) {
            (users, UserActionView::AnnounceJoin)
        } else {
            (users, UserActionView::SpawnUser { nick, joined: true })
        },
        IrcEventView::Part { nick } | IrcEventView::Quit { nick } => if users.contains_key(nick) {
            (users.remove(nick), UserActionView::Despawn { entity: users[nick] })
        } else {
            (users, UserActionView::Nothing)
        },
        IrcEventView::Message { nick, message } => if users.contains_key(nick) {
            (users, UserActionView::Deliver { entity: users[nick], message })
        } else {
            (users, UserActionView::Nothing)
        },
    }
}

impl UserRegistry {
    /// Answers one event of the IRC client.  Where the answer is to spawn a
    /// user, the caller spawns it and records its entity with `insert`.
    pub fn on_event(&mut self, event: IrcEvent) -> (res: UserAction)
        ensures
            (final(self)@, res@) == users_on_event(old(self)@, event@),
    {
        match event {
            IrcEvent::PrimaryUser { nick, name } => UserAction::SpawnPrimary { nick, name },
            IrcEvent::AddUser { nick } => UserAction::SpawnUser { nick, joined: false },
            IrcEvent::ChangeName { previous_nick, nick } => {
                if let Some(entity) = self.remove(previous_nick.as_str()) {
                    self.insert(nick, entity);
                }
                UserAction::Nothing
            },
            IrcEvent::UserJoined { nick } => {
                if self.contains(nick.as_str()) {
                    UserAction::AnnounceJoin
                } else {
                    UserAction::SpawnUser { nick, joined: true }
                }
            },
            IrcEvent::Part { nick } | IrcEvent::Quit { nick } => {
                match self.get(nick.as_str()) {
                    Some(entity) => {
                        self.remove(nick.as_str());
                        UserAction::Despawn { entity }
                    },
                    None => UserAction::Nothing,
                }
            },
            IrcEvent::Message { nick, message } => match self.get(nick.as_str()) {
                Some(entity) => UserAction::Deliver { entity, message },
                None => UserAction::Nothing,
            },
        }
    }
}

/// An event never gives a nickname an entity that the table did not hold:
/// entities come only from the users that the caller spawns and records.
pub proof fn lemma_events_invent_no_entity(users: Map<Seq<char>, u64>, event: IrcEventView)
    ensures
        forall|k: Seq<char>| #[trigger]
            users_on_event(users, event).0.contains_key(k) ==> exists|j: Seq<char>|
                users.contains_key(j) && users[j] == users_on_event(users, event).0[k],
{
    let after = users_on_event(users, event).0;
    assert forall|k: Seq<char>| #[trigger] after.contains_key(k) implies exists|j: Seq<char>|
        users.contains_key(j) && users[j] == after[k] by {
        match event {
            IrcEventView::ChangeName { previous_nick, nick } => {
                if users.contains_key(previous_nick) && k == nick {
                    assert(users.contains_key(previous_nick) && users[previous_nick] == after[k]);
                } else {
                    assert(users.contains_key(k) && users[k] == after[k]);
                }
            },
            _ => {
                assert(users.contains_key(k) && users[k] == after[k]);
            },
        }
    }
}

/// A change of nickname moves the user's entity to the new nickname, and the
/// old nickname no longer names anyone, unless the two are the same.
pub proof fn lemma_rename_moves_entity(users: Map<Seq<char>, u64>, previous_nick: Seq<char>, nick: Seq<char>)
    requires
        users.contains_key(previous_nick),
    ensures
        ({
            let after = users_on_event(
                users,
                IrcEventView::ChangeName { previous_nick, nick },
            ).0;
            &&& after.contains_key(nick)
            &&& after[nick] == users[previous_nick]
            &&& previous_nick != nick ==> !after.contains_key(previous_nick)
        }),
{
}

/// A user who leaves or quits is despawned and no longer in the table.
pub proof fn lemma_leaving_user_forgotten(users: Map<Seq<char>, u64>, nick: Seq<char>)
    requires
        users.contains_key(nick),
    ensures
        users_on_event(users, IrcEventView::Part { nick }) == (
            users.remove(nick),
            UserActionView::Despawn { entity: users[nick] },
        ),
        users_on_event(users, IrcEventView::Quit { nick }) == (
            users.remove(nick),
            UserActionView::Despawn { entity: users[nick] },
        ),
{
}

/// A message reaches the entity of its sender, and the table is unchanged.
pub proof fn lemma_message_reaches_sender(users: Map<Seq<char>, u64>, nick: Seq<char>, message: Seq<char>)
    requires
        users.contains_key(nick),
    ensures
        users_on_event(users, IrcEventView::Message { nick, message }) == (
            users,
            UserActionView::Deliver { entity: users[nick], message },
        ),
{
}

} // verus!
