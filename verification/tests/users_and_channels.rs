use worldchat::irc::channel::{ChannelControl, ChannelRegistry};
use worldchat::irc::server::IrcEvent;
use worldchat::irc::users::{UserAction, UserRegistry};
use worldchat::table::NamedTable;

#[test]
fn registry_spawns_new_users_and_records_them() {
    let mut users = UserRegistry::new();
    assert_eq!(
        users.on_event(IrcEvent::PrimaryUser { nick: "me".into(), name: "Me Myself".into() }),
        UserAction::SpawnPrimary { nick: "me".into(), name: "Me Myself".into() }
    );
    users.insert("me".into(), 1);
    assert_eq!(
        users.on_event(IrcEvent::AddUser { nick: "ann".into() }),
        UserAction::SpawnUser { nick: "ann".into(), joined: false }
    );
    users.insert("ann".into(), 2);
    assert_eq!(users.get("me"), Some(1));
    assert_eq!(users.get("ann"), Some(2));
    assert_eq!(users.get("bob"), None);
}

#[test]
fn registry_joins_known_and_unknown_users() {
    let mut users = UserRegistry::new();
    users.insert("ann".into(), 7);
    assert_eq!(users.on_event(IrcEvent::UserJoined { nick: "ann".into() }), UserAction::AnnounceJoin);
    assert_eq!(
        users.on_event(IrcEvent::UserJoined { nick: "bob".into() }),
        UserAction::SpawnUser { nick: "bob".into(), joined: true }
    );
    assert!(!users.contains("bob"));
}

#[test]
fn registry_renames_move_the_entity() {
    let mut users = UserRegistry::new();
    users.insert("ann".into(), 7);
    users.insert("bob".into(), 8);
    assert_eq!(
        users.on_event(IrcEvent::ChangeName { previous_nick: "ann".into(), nick: "anna".into() }),
        UserAction::Nothing
    );
    assert_eq!(users.get("ann"), None);
    assert_eq!(users.get("anna"), Some(7));
    // Renaming onto a taken nickname replaces its entity.
    users.on_event(IrcEvent::ChangeName { previous_nick: "anna".into(), nick: "bob".into() });
    assert_eq!(users.get("bob"), Some(7));
    assert_eq!(users.get("anna"), None);
    // An unknown nickname changes nothing.
    users.on_event(IrcEvent::ChangeName { previous_nick: "zed".into(), nick: "zee".into() });
    assert_eq!(users.get("zee"), None);
}

#[test]
fn registry_forgets_users_who_leave() {
    let mut users = UserRegistry::new();
    users.insert("ann".into(), 7);
    users.insert("bob".into(), 8);
    assert_eq!(users.on_event(IrcEvent::Part { nick: "ann".into() }), UserAction::Despawn { entity: 7 });
    assert_eq!(users.on_event(IrcEvent::Quit { nick: "bob".into() }), UserAction::Despawn { entity: 8 });
    assert_eq!(users.on_event(IrcEvent::Quit { nick: "bob".into() }), UserAction::Nothing);
    assert!(!users.contains("ann") && !users.contains("bob"));
}

#[test]
fn registry_delivers_messages_to_known_senders() {
    let mut users = UserRegistry::new();
    users.insert("ann".into(), 7);
    assert_eq!(
        users.on_event(IrcEvent::Message { nick: "ann".into(), message: "hi".into() }),
        UserAction::Deliver { entity: 7, message: "hi".into() }
    );
    assert_eq!(
        users.on_event(IrcEvent::Message { nick: "who".into(), message: "hi".into() }),
        UserAction::Nothing
    );
}

#[test]
fn registry_insert_replaces_and_remove_returns() {
    let mut users = UserRegistry::new();
    users.insert("a".into(), 1);
    users.insert("a".into(), 2);
    assert_eq!(users.get("a"), Some(2));
    assert_eq!(users.remove("a"), Some(2));
    assert_eq!(users.remove("a"), None);
}

#[test]
fn named_table_holds_values_by_name() {
    let mut t: NamedTable<Vec<u8>> = NamedTable::new();
    t.insert("x".into(), vec![1]);
    t.insert("y".into(), vec![2]);
    assert_eq!(t.get("x"), Some(&vec![1]));
    assert!(t.contains("y"));
    assert_eq!(t.remove("y"), Some(vec![2]));
    assert!(!t.contains("y"));
}

#[test]
fn channel_registry_routes_messages() {
    let mut reg: ChannelRegistry<u32> = ChannelRegistry::new();
    assert!(reg.sender("wss://a", "#c").is_none());
    reg.add_channel("wss://a".into(), "#c".into(), 5);
    reg.add_channel("wss://a".into(), "#d".into(), 6);
    reg.add_channel("wss://b".into(), "#c".into(), 9);
    assert_eq!(reg.sender("wss://a", "#c"), Some(&5));
    assert_eq!(reg.sender("wss://a", "#d"), Some(&6));
    assert_eq!(reg.sender("wss://b", "#c"), Some(&9));
    let (s, control) = reg.channel_message("wss://a", "#d".into(), "hey".into()).unwrap();
    assert_eq!(*s, 6);
    assert_eq!(control, ChannelControl::Message { channel: "#d".into(), message: "hey".into() });
    reg.remove_channel("wss://a", "#c");
    assert!(reg.sender("wss://a", "#c").is_none());
    assert_eq!(reg.sender("wss://a", "#d"), Some(&6));
    assert!(reg.channel_message("wss://a", "#c".into(), "x".into()).is_none());
    reg.remove_channel("wss://zzz", "#c");
    assert_eq!(reg.sender("wss://b", "#c"), Some(&9));
}
