use worldchat::irc::message::IrcControlMessage;
use worldchat::irc::proto::{IrcCommand, IrcLine, OutCommand};
use worldchat::irc::server::{IrcEvent, Registration, Session, SessionEnd, WsInput, server_nick_for};

fn lines(cmds: Vec<OutCommand>) -> Vec<String> {
    cmds.into_iter().map(|c| c.into_line()).collect()
}

fn text(s: &str) -> WsInput {
    WsInput::Text(s.to_string())
}

#[test]
fn command_lines_follow_irc_format() {
    assert_eq!(OutCommand::CapEnd.into_line(), "CAP END");
    assert_eq!(OutCommand::Nick("ann".into()).into_line(), "NICK ann");
    assert_eq!(
        OutCommand::User("ann".into(), "0".into(), "ann".into()).into_line(),
        "USER ann 0 * ann"
    );
    assert_eq!(OutCommand::Pong("srv".into(), None).into_line(), "PONG srv");
    assert_eq!(
        OutCommand::Pong("a".into(), Some("b".into())).into_line(),
        "PONG a b"
    );
    assert_eq!(
        OutCommand::Join("#bevyworldchat".into()).into_line(),
        "JOIN #bevyworldchat"
    );
    assert_eq!(OutCommand::Part("#c".into()).into_line(), "PART #c");
    assert_eq!(
        OutCommand::PrivMsg("#c".into(), "hello there".into()).into_line(),
        "PRIVMSG #c :hello there"
    );
    assert_eq!(
        OutCommand::PrivMsg("#c".into(), ":x".into()).into_line(),
        "PRIVMSG #c ::x"
    );
    assert_eq!(OutCommand::PrivMsg("#c".into(), "".into()).into_line(), "PRIVMSG #c :");
}

#[test]
fn server_nick_drops_alphanumerics() {
    assert_eq!(server_nick_for("Bob_42!"), "_!");
    assert_eq!(server_nick_for("Alice"), "");
    assert_eq!(server_nick_for("[x]-y"), "[]-");
    assert_eq!(server_nick_for(""), "");
}

#[test]
fn registration_opens_with_cap_user_nick() {
    let (reg, sends) = Registration::new("Bob_42!".to_string());
    assert_eq!(reg.nick(), "_!");
    assert_eq!(lines(sends), vec!["CAP END", "USER _! 0 * _!", "NICK _!"]);
}

#[test]
fn registration_answers_ping_and_nick_in_use() {
    let (mut reg, _) = Registration::new("[x]".to_string());
    let step = reg.on_ws(text("PING :irc.example.net"));
    assert_eq!(lines(step.sends), vec!["PONG irc.example.net"]);
    assert!(!step.joined);

    let step = reg.on_ws(text(":irc.example.net 433 * [] :Nickname is already in use"));
    assert_eq!(reg.nick(), "[]_");
    assert_eq!(lines(step.sends), vec!["NICK []_"]);
    let step = reg.on_ws(text(":irc.example.net 433 * []_ :Nickname is already in use"));
    assert_eq!(reg.nick(), "[]__");
    assert_eq!(lines(step.sends), vec!["NICK []__"]);
    assert!(!step.joined);
}

#[test]
fn registration_ignores_other_input() {
    let (mut reg, _) = Registration::new("[x]".to_string());
    for input in [
        WsInput::Binary,
        WsInput::Close,
        WsInput::Error,
        text("not an irc line :::"),
        text(":irc.example.net NOTICE * :hello"),
        text(""),
    ] {
        let step = reg.on_ws(input);
        assert!(step.sends.is_empty());
        assert!(!step.joined);
    }
    assert_eq!(reg.nick(), "[]");
}

#[test]
fn registration_joins_channel_on_welcome() {
    let (mut reg, _) = Registration::new("Zed (z)".to_string());
    let step = reg.on_ws(text(":irc.example.net 001 ( ) :Welcome"));
    assert!(step.joined);
    assert_eq!(lines(step.sends), vec!["JOIN #bevyworldchat"]);
    let (event, session) = reg.finish();
    assert_eq!(
        event,
        IrcEvent::PrimaryUser { nick: " ()".to_string(), name: "Zed (z)".to_string() }
    );
    assert_eq!(session.server_nick(), " ()");
    assert_eq!(session.nick_prefixes(), None);
}

#[test]
fn session_answers_ping_and_ends_on_close_or_error() {
    let mut s = Session::new("me".to_string());
    let step = s.on_ws(text("PING :x y"));
    assert_eq!(lines(step.sends), vec!["PONG :x y"]);
    assert!(step.events.is_empty());
    assert!(step.end.is_none());

    let step = s.on_ws(WsInput::Binary);
    assert!(step.sends.is_empty() && step.events.is_empty() && step.end.is_none());
    assert_eq!(s.on_ws(WsInput::Close).end, Some(SessionEnd::Closed));
    assert_eq!(s.on_ws(WsInput::Error).end, Some(SessionEnd::Failed));
}

#[test]
fn session_learns_prefixes_and_reads_names() {
    let mut s = Session::new("me".to_string());
    // Before the server tells its prefixes, names are taken as they come.
    let step = s.on_ws(text(":srv 353 me = #bevyworldchat :@op me +voiced"));
    assert_eq!(
        step.events,
        vec![
            IrcEvent::AddUser { nick: "@op".into() },
            IrcEvent::AddUser { nick: "+voiced".into() },
        ]
    );
    let step = s.on_ws(text(":srv 005 me CHANTYPES=# PREFIX=(qaohv)~&@%+ NETWORK=X :are supported"));
    assert!(step.events.is_empty() && step.sends.is_empty());
    assert_eq!(s.nick_prefixes().map(|p| p.as_str()), Some("~&@%+"));

    let step = s.on_ws(text(":srv 353 me = #bevyworldchat :@op @me +voiced plain "));
    assert_eq!(
        step.events,
        vec![
            IrcEvent::AddUser { nick: "op".into() },
            IrcEvent::AddUser { nick: "voiced".into() },
            IrcEvent::AddUser { nick: "plain".into() },
            IrcEvent::AddUser { nick: "".into() },
        ]
    );
    // A names reply with another number of arguments is passed over.
    let step = s.on_ws(text(":srv 353 me #bevyworldchat :a b"));
    assert!(step.events.is_empty());
}

#[test]
fn session_prefix_token_without_paren_keeps_old_prefixes() {
    let mut s = Session::new("me".to_string());
    s.on_ws(text(":srv 005 me PREFIX=(ov)@+ :are supported"));
    assert_eq!(s.nick_prefixes().map(|p| p.as_str()), Some("@+"));
    s.on_ws(text(":srv 005 me PREFIX=broken PREFIX=(q)~ :are supported"));
    assert_eq!(s.nick_prefixes().map(|p| p.as_str()), Some("@+"));
    s.on_ws(text(":srv 005 me NICKLEN=30 :are supported"));
    assert_eq!(s.nick_prefixes().map(|p| p.as_str()), Some("@+"));
}

#[test]
fn session_reports_channel_events() {
    let mut s = Session::new("me".to_string());
    let ev = |s: &mut Session, l: &str| s.on_ws(text(l)).events;
    assert_eq!(
        ev(&mut s, ":ann!a@host JOIN #bevyworldchat"),
        vec![IrcEvent::UserJoined { nick: "ann".into() }]
    );
    assert_eq!(
        ev(&mut s, ":ann!a@host PART #bevyworldchat"),
        vec![IrcEvent::Part { nick: "ann".into() }]
    );
    assert_eq!(
        ev(&mut s, ":ann!a@host QUIT :bye"),
        vec![IrcEvent::Quit { nick: "ann".into() }]
    );
    assert_eq!(
        ev(&mut s, ":ann!a@host PRIVMSG #bevyworldchat :hi all"),
        vec![IrcEvent::Message { nick: "ann".into(), message: "hi all".into() }]
    );
    // Private messages to the client are not channel messages.
    assert!(ev(&mut s, ":ann!a@host PRIVMSG me :psst").is_empty());
    // A server as source names no user.
    assert!(ev(&mut s, ":irc.example.net JOIN #bevyworldchat").is_empty());
    assert!(ev(&mut s, "JOIN #bevyworldchat").is_empty());
}

#[test]
fn session_follows_nick_changes() {
    let mut s = Session::new("me".to_string());
    let step = s.on_ws(text(":ann!a@h NICK anna"));
    assert_eq!(
        step.events,
        vec![IrcEvent::ChangeName { previous_nick: "ann".into(), nick: "anna".into() }]
    );
    assert_eq!(s.server_nick(), "me");
    let step = s.on_ws(text(":me!u@h NICK me2"));
    assert_eq!(
        step.events,
        vec![IrcEvent::ChangeName { previous_nick: "me".into(), nick: "me2".into() }]
    );
    assert_eq!(s.server_nick(), "me2");
    // The client's new nickname is skipped in names replies.
    let step = s.on_ws(text(":srv 353 me2 = #c :me2 other"));
    assert_eq!(step.events, vec![IrcEvent::AddUser { nick: "other".into() }]);
}

#[test]
fn session_on_line_takes_parsed_lines() {
    let mut s = Session::new("me".to_string());
    let (sends, events) = s.on_line(Some(IrcLine {
        source_nick: Some("bo".into()),
        command: IrcCommand::PrivMsg("&local".into(), "yo".into()),
    }));
    assert!(sends.is_empty());
    assert_eq!(events, vec![IrcEvent::Message { nick: "bo".into(), message: "yo".into() }]);
    let (sends, events) = s.on_line(None);
    assert!(sends.is_empty() && events.is_empty());
    let (sends, events) = s.on_line(Some(IrcLine { source_nick: None, command: IrcCommand::Other }));
    assert!(sends.is_empty() && events.is_empty());
    let (_, events) = s.on_line(Some(IrcLine {
        source_nick: None,
        command: IrcCommand::Response(353, vec!["me".into(), "=".into(), "#c".into(), "x me y".into()]),
    }));
    assert_eq!(
        events,
        vec![IrcEvent::AddUser { nick: "x".into() }, IrcEvent::AddUser { nick: "y".into() }]
    );
}

#[test]
fn registration_on_line_takes_parsed_lines() {
    let (mut reg, _) = Registration::new("!".to_string());
    let step = reg.on_line(Some(IrcLine {
        source_nick: None,
        command: IrcCommand::Response(433, vec![]),
    }));
    assert_eq!(lines(step.sends), vec!["NICK !_"]);
    let step = reg.on_line(Some(IrcLine { source_nick: None, command: IrcCommand::Response(1, vec![]) }));
    assert!(step.joined);
    let step = reg.on_line(Some(IrcLine {
        source_nick: None,
        command: IrcCommand::Ping("p".into(), None),
    }));
    assert_eq!(lines(step.sends), vec!["PONG p"]);
}

#[test]
fn control_messages_go_to_the_channel() {
    let s = Session::new("me".to_string());
    assert_eq!(s.on_control(IrcControlMessage::Part).into_line(), "PART #bevyworldchat");
    assert_eq!(
        s.on_control(IrcControlMessage::Message { message: "hello world".into() }).into_line(),
        "PRIVMSG #bevyworldchat :hello world"
    );
}
