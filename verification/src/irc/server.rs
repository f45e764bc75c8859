//! The IRC client's decisions: the registration that ends when the server
//! welcomes the client into the channel, and the session that follows the
//! channel.  Each takes what the websocket delivered and answers with the
//! lines to send and the events to hand to the rest of the program; the loop
//! that reads and writes the socket stands around them.
use vstd::prelude::*;
use vstd::string::*;
use crate::text::{split_on, split_once, starts_with, str_contains_char, str_eq, str_split, str_split_once, str_starts_with};
use crate::irc::message::IrcControlMessage;
use crate::irc::proto::{
    ERR_NICKNAMEINUSE, IrcCommand, IrcCommandView, IrcLine, IrcLineView, OutCommand, OutCommandView,
    RPL_ISUPPORT, RPL_NAMREPLY, RPL_WELCOME, irc_parsed, is_channel_name, is_channel_name_spec,
    opt_line_view, parse_line, strs_view,
};

verus! {

/// The channel that the client joins.
pub open spec fn irc_channel() -> Seq<char> {
    seq!['#', 'b', 'e', 'v', 'y', 'w', 'o', 'r', 'l', 'd', 'c', 'h', 'a', 't']
}

fn channel_name() -> (res: String)
    ensures
        res@ == irc_channel(),
{
    let s = "#bevyworldchat";
    proof {
        reveal_strlit("#bevyworldchat");
    }
    assert(s@ =~= irc_channel());
    String::from_str(s)
}

/// Whether `char::is_alphanumeric` holds of a character.
pub uninterp spec fn char_is_alphanumeric(c: char) -> bool;

/// Calls `char::is_alphanumeric`, which holds of the characters that are
/// alphabetic or numeric in Unicode; among ASCII characters these are the
/// letters and the digits.
#[verifier::external_body]
fn is_alphanumeric(c: char) -> (res: bool)
    ensures
        res == char_is_alphanumeric(c),
        (c as u32) < 128 ==> (res == ((97 <= (c as u32) <= 122) || (65 <= (c as u32) <= 90) || (
        48 <= (c as u32) <= 57))),
{
    c.is_alphanumeric()
}

/// `s` with its alphanumeric characters removed.
pub open spec fn without_alphanumeric(s: Seq<char>) -> Seq<char>
    decreases s.len(),
{
    if s.len() == 0 {
        Seq::empty()
    } else {
        let r = without_alphanumeric(s.drop_last());
        if char_is_alphanumeric(s.last()) {
            r
        } else {
            r.push(s.last())
        }
    }
}

/// The nickname that the client registers with for the user name `name`:
/// the name with its alphanumeric characters removed, as
/// `String::retain(|c| !c.is_alphanumeric())` leaves it.
pub fn server_nick_for(name: &str) -> (res: String)
    ensures
        res@ == without_alphanumeric(name@),
{
    let n = name.unicode_len();
    let mut out = String::new();
    let mut i: usize = 0;
    assert(name@.take(0) =~= Seq::<char>::empty());
    while i < n
        invariant
            n == name@.len(),
            i <= n,
            out@ == without_alphanumeric(name@.take(i as int)),
        decreases n - i,
    {
        let c = name.get_char(i);
        assert(name@.take(i + 1).drop_last() =~= name@.take(i as int));
        if !is_alphanumeric(c) {
            let one = name.substring_char(i, i + 1);
            assert(one@ =~= seq![c]);
            out.append(one);
        }
        i = i + 1;
        assert(out@ =~= without_alphanumeric(name@.take(i as int)));
    }
    assert(name@.take(n as int) =~= name@);
    out
}

/// What the client tells the rest of the program about the channel.
#[derive(Debug, Clone, PartialEq, Eq)]
pub enum IrcEvent {
    /// The client is in the channel under `nick`, for the user `name`.
    PrimaryUser { nick: String, name: String },
    /// `nick` was in the channel when the client joined it.
    AddUser { nick: String },
    ChangeName { previous_nick: String, nick: String },
    UserJoined { nick: String },
    Part { nick: String },
    Quit { nick: String },
    Message { nick: String, message: String },
}

pub enum IrcEventView {
    PrimaryUser { nick: Seq<char>, name: Seq<char> },
    AddUser { nick: Seq<char> },
    ChangeName { previous_nick: Seq<char>, nick: Seq<char> },
    UserJoined { nick: Seq<char> },
    Part { nick: Seq<char> },
    Quit { nick: Seq<char> },
    Message { nick: Seq<char>, message: Seq<char> },
}

impl View for IrcEvent {
    type V = IrcEventView;

    open spec fn view(&self) -> IrcEventView {
        match self {
            IrcEvent::PrimaryUser { nick, name } => IrcEventView::PrimaryUser {
                nick: nick@,
                name: name@,
            },
            IrcEvent::AddUser { nick } => IrcEventView::AddUser { nick: nick@ },
            IrcEvent::ChangeName { previous_nick, nick } => IrcEventView::ChangeName {
                previous_nick: previous_nick@,
                nick: nick@,
            },
            IrcEvent::UserJoined { nick } => IrcEventView::UserJoined { nick: nick@ },
            IrcEvent::Part { nick } => IrcEventView::Part { nick: nick@ },
            IrcEvent::Quit { nick } => IrcEventView::Quit { nick: nick@ },
            IrcEvent::Message { nick, message } => IrcEventView::Message {
                nick: nick@,
                message: message@,
            },
        }
    }
}

pub open spec fn events_view(v: Seq<IrcEvent>) -> Seq<IrcEventView> {
    v.map_values(|e: IrcEvent| e@)
}

pub open spec fn commands_view(v: Seq<OutCommand>) -> Seq<OutCommandView> {
    v.map_values(|c: OutCommand| c@)
}

/// What the websocket delivered.
#[derive(Debug, Clone, PartialEq, Eq)]
pub enum WsInput {
    Text(String),
    Binary,
    Close,
    /// The websocket failed; the caller keeps the error.
    Error,
}

/// The registration state: the user's name and the nickname under which the
/// client asks to be known.
pub struct Registration {
    user_name: String,
    nick: String,
}

pub struct RegistrationView {
    pub user_name: Seq<char>,
    pub nick: Seq<char>,
}

impl View for Registration {
    type V = RegistrationView;

    closed spec fn view(&self) -> RegistrationView {
        RegistrationView { user_name: self.user_name@, nick: self.nick@ }
    }
}

/// The lines that open a registration under `nick`: the end of capability
/// negotiation, the user, and the nickname.
pub open spec fn registration_opening(nick: Seq<char>) -> Seq<OutCommandView> {
    seq![
        OutCommandView::CapEnd,
        OutCommandView::User(nick, seq!['0'], nick),
        OutCommandView::Nick(nick),
    ]
}

/// One received line during registration: the next state, the lines to send,
/// and whether the client is now in the channel.  A ping is answered; a
/// nickname in use takes one more `_` and is asked for again; the welcome
/// reply is answered by joining the channel, which ends the registration.
pub open spec fn registration_on_line(r: RegistrationView, line: Option<IrcLineView>) -> (
    RegistrationView,
    Seq<OutCommandView>,
    bool,
) {
    match line {
        Some(l) => match l.command {
            IrcCommandView::Ping(a, b) => (r, seq![OutCommandView::Pong(a, b)], false),
            IrcCommandView::Response(code, _) => {
                if code == ERR_NICKNAMEINUSE {
                    let nick = r.nick.push('_');
                    (RegistrationView { nick, ..r }, seq![OutCommandView::Nick(nick)], false)
                } else if code == RPL_WELCOME {
                    (r, seq![OutCommandView::Join(irc_channel())], true)
                } else {
                    (r, Seq::empty(), false)
                }
            },
            _ => (r, Seq::empty(), false),
        },
        None => (r, Seq::empty(), false),
    }
}

/// The answer to one websocket message during registration.
pub struct RegistrationStep {
    pub sends: Vec<OutCommand>,
    /// The client has joined the channel: the registration is over.
    pub joined: bool,
}

impl Registration {
    /// Starts registering for the user `user_name`: the nickname is the name
    /// without its alphanumeric characters, and the lines to send first open
    /// the registration under it.
    pub fn new(user_name: String) -> (res: (Registration, Vec<OutCommand>))
        ensures
            res.0@.user_name == user_name@,
            res.0@.nick == without_alphanumeric(user_name@),
            commands_view(res.1@) == registration_opening(res.0@.nick),
    {
        let nick = server_nick_for(user_name.as_str());
        let mode = "0";
        proof {
            reveal_strlit("0");
        }
        assert(mode@ =~= seq!['0']);
        let mut sends: Vec<OutCommand> = Vec::new();
        sends.push(OutCommand::CapEnd);
        sends.push(OutCommand::User(nick.clone(), String::from_str(mode), nick.clone()));
        sends.push(OutCommand::Nick(nick.clone()));
        assert(commands_view(sends@) =~= registration_opening(nick@));
        (Registration { user_name, nick }, sends)
    }

    /// The nickname that the client asks for now.
    pub fn nick(&self) -> (res: &String)
        ensures
            res@ == self@.nick,
    {
        &self.nick
    }

    /// Answers one received line; `None` stands for a line that does not
    /// parse.
    pub fn on_line(&mut self, line: Option<IrcLine>) -> (res: RegistrationStep)
        ensures
            (final(self)@, commands_view(res.sends@), res.joined) == registration_on_line(
                old(self)@,
                opt_line_view(line),
            ),
    {
        let mut sends: Vec<OutCommand> = Vec::new();
        let mut joined = false;
        match line {
            Some(l) => match l.command {
                IrcCommand::Ping(a, b) => {
                    sends.push(OutCommand::Pong(a, b));
                },
                IrcCommand::Response(code, _) => {
                    if code == ERR_NICKNAMEINUSE {
                        let underscore = "_";
                        proof {
                            reveal_strlit("_");
                        }
                        self.nick.append(underscore);
                        assert(self.nick@ =~= old(self)@.nick.push('_'));
                        sends.push(OutCommand::Nick(self.nick.clone()));
                    } else if code == RPL_WELCOME {
                        sends.push(OutCommand::Join(channel_name()));
                        joined = true;
                    }
                },
                _ => {},
            },
            None => {},
        }
        proof {
            assert(commands_view(sends@) =~= registration_on_line(old(self)@, opt_line_view(line)).1);
        }
        RegistrationStep { sends, joined }
    }

    /// Answers one websocket message.  Only text is read during
    /// registration: anything else is passed over.
    pub fn on_ws(&mut self, input: WsInput) -> (res: RegistrationStep)
        ensures
            match input {
                WsInput::Text(line) => (final(self)@, commands_view(res.sends@), res.joined)
                    == registration_on_line(old(self)@, irc_parsed(line@)),
                _ => final(self)@ == old(self)@ && res.sends@.len() == 0 && !res.joined,
            },
    {
        match input {
            WsInput::Text(line) => {
                let parsed = parse_line(line.as_str());
                self.on_line(parsed)
            },
            _ => RegistrationStep { sends: Vec::new(), joined: false },
        }
    }

    /// Ends the registration, which the welcome reply or the end of the
    /// websocket closes: the event that names the client's user, and the
    /// session that follows the channel under the registered nickname.
    pub fn finish(self) -> (res: (IrcEvent, Session))
        ensures
            res.0@ == (IrcEventView::PrimaryUser { nick: self@.nick, name: self@.user_name }),
            res.1@ == (SessionView { server_nick: self@.nick, nick_prefixes: None }),
    {
        let session = Session { server_nick: self.nick.clone(), nick_prefixes: None };
        (IrcEvent::PrimaryUser { nick: self.nick, name: self.user_name }, session)
    }
}

/// The session state: the client's nickname, which follows its own changes
/// of nickname, and the characters with which the server marks channel
/// modes in front of nicknames, once the server has told them.
pub struct Session {
    server_nick: String,
    nick_prefixes: Option<String>,
}

pub struct SessionView {
    pub server_nick: Seq<char>,
    pub nick_prefixes: Option<Seq<char>>,
}

impl View for Session {
    type V = SessionView;

    closed spec fn view(&self) -> SessionView {
        SessionView {
            server_nick: self.server_nick@,
            nick_prefixes: crate::irc::proto::opt_str_view(self.nick_prefixes),
        }
    }
}

/// The feature token that lists the mode prefixes, as in `PREFIX=(qaohv)~&@%+`.
pub open spec fn prefix_key() -> Seq<char> {
    seq!['P', 'R', 'E', 'F', 'I', 'X', '=']
}

/// The first argument that begins with `p`.
pub open spec fn first_starting_with(args: Seq<Seq<char>>, p: Seq<char>) -> Option<Seq<char>>
    decreases args.len(),
{
    if args.len() == 0 {
        None
    } else if starts_with(args[0], p) {
        Some(args[0])
    } else {
        first_starting_with(args.drop_first(), p)
    }
}

/// The mode prefixes after a feature reply: the text after the first `)` of
/// the first `PREFIX=` argument; the old ones where there is no such argument
/// or it holds no `)`.
pub open spec fn isupport_prefixes(args: Seq<Seq<char>>, old: Option<Seq<char>>) -> Option<
    Seq<char>,
> {
    match first_starting_with(args, prefix_key()) {
        Some(token) => match split_once(token, ')') {
            Some((_, rest)) => Some(rest),
            None => old,
        },
        None => old,
    }
}

/// A nickname of a names reply without the mode prefix in front of it.
pub open spec fn strip_mode_prefix(nick: Seq<char>, prefixes: Option<Seq<char>>) -> Seq<char> {
    match prefixes {
        Some(p) => if nick.len() > 0 && p.contains(nick[0]) {
            nick.drop_first()
        } else {
            nick
        },
        None => nick,
    }
}

/// The users that a names reply adds: each listed nickname without its mode
/// prefix, in order, but the client's own.
pub open spec fn names_events(pieces: Seq<Seq<char>>, prefixes: Option<Seq<char>>, own: Seq<char>) -> Seq<
    IrcEventView,
>
    decreases pieces.len(),
{
    if pieces.len() == 0 {
        Seq::empty()
    } else {
        let rest = names_events(pieces.drop_last(), prefixes, own);
        let nick = strip_mode_prefix(pieces.last(), prefixes);
        if nick == own {
            rest
        } else {
            rest.push(IrcEventView::AddUser { nick })
        }
    }
}

/// One received line during the session: the next state, the lines to send
/// and the events for the rest of the program.
pub open spec fn session_on_line(s: SessionView, line: Option<IrcLineView>) -> (
    SessionView,
    Seq<OutCommandView>,
    Seq<IrcEventView>,
) {
    match line {
        None => (s, Seq::empty(), Seq::empty()),
        Some(l) => match l.command {
            IrcCommandView::Ping(a, b) => (s, seq![OutCommandView::Pong(a, b)], Seq::empty()),
            IrcCommandView::Response(code, args) => {
                if code == RPL_ISUPPORT {
                    (
                        SessionView {
                            nick_prefixes: isupport_prefixes(args, s.nick_prefixes),
                            ..s
                        },
                        Seq::empty(),
                        Seq::empty(),
                    )
                } else if code == RPL_NAMREPLY && args.len() == 4 {
                    (
                        s,
                        Seq::empty(),
                        names_events(split_on(args[3], ' '), s.nick_prefixes, s.server_nick),
                    )
                } else {
                    (s, Seq::empty(), Seq::empty())
                }
            },
            IrcCommandView::Join => match l.source_nick {
                Some(nick) => (s, Seq::empty(), seq![IrcEventView::UserJoined { nick }]),
                None => (s, Seq::empty(), Seq::empty()),
            },
            IrcCommandView::Part => match l.source_nick {
                Some(nick) => (s, Seq::empty(), seq![IrcEventView::Part { nick }]),
                None => (s, Seq::empty(), Seq::empty()),
            },
            IrcCommandView::Quit => match l.source_nick {
                Some(nick) => (s, Seq::empty(), seq![IrcEventView::Quit { nick }]),
                None => (s, Seq::empty(), Seq::empty()),
            },
            IrcCommandView::Nick(nick) => match l.source_nick {
                Some(previous_nick) => (
                    if previous_nick == s.server_nick {
                        SessionView { server_nick: nick, ..s }
                    } else {
                        s
                    },
                    Seq::empty(),
                    seq![IrcEventView::ChangeName { previous_nick, nick }],
                ),
                None => (s, Seq::empty(), Seq::empty()),
            },
            IrcCommandView::PrivMsg(target, message) => match l.source_nick {
                Some(nick) => if is_channel_name_spec(target) {
                    (s, Seq::empty(), seq![IrcEventView::Message { nick, message }])
                } else {
                    (s, Seq::empty(), Seq::empty())
                },
                None => (s, Seq::empty(), Seq::empty()),
            },
            IrcCommandView::Other => (s, Seq::empty(), Seq::empty()),
        },
    }
}

/// How a session ended.
#[derive(Debug, Clone, PartialEq, Eq)]
pub enum SessionEnd {
    /// The server closed the websocket.
    Closed,
    /// The websocket failed.
    Failed,
}

/// The answer to one websocket message during the session.
pub struct SessionStep {
    pub sends: Vec<OutCommand>,
    pub events: Vec<IrcEvent>,
    /// The session is over.
    pub end: Option<SessionEnd>,
}

/// The first argument that begins with `PREFIX=`.
fn find_prefix_token(args: &Vec<String>) -> (res: Option<&String>)
    ensures
        match res {
            Some(t) => first_starting_with(strs_view(args@), prefix_key()) == Some(t@),
            None => first_starting_with(strs_view(args@), prefix_key()) is None,
        },
{
    let key = "PREFIX=";
    proof {
        reveal_strlit("PREFIX=");
    }
    assert(key@ =~= prefix_key());
    let ghost all = strs_view(args@);
    let mut i: usize = 0;
    assert(all.skip(0) =~= all);
    while i < args.len()
        invariant
            i <= args.len(),
            all == strs_view(args@),
            key@ == prefix_key(),
            first_starting_with(all, prefix_key()) == first_starting_with(
                all.skip(i as int),
                prefix_key(),
            ),
        decreases args.len() - i,
    {
        assert(all.skip(i as int)[0] == args@[i as int]@);
        if str_starts_with(args[i].as_str(), key) {
            return Some(&args[i]);
        }
        assert(all.skip(i as int).drop_first() =~= all.skip(i + 1));
        i = i + 1;
    }
    None
}

/// The mode prefixes after a feature reply.
fn prefixes_after_isupport(args: &Vec<String>, old: Option<String>) -> (res: Option<String>)
    ensures
        crate::irc::proto::opt_str_view(res) == isupport_prefixes(
            strs_view(args@),
            crate::irc::proto::opt_str_view(old),
        ),
{
    match find_prefix_token(args) {
        Some(token) => match str_split_once(token.as_str(), ')') {
            Some((_, rest)) => Some(rest),
            None => old,
        },
        None => old,
    }
}

/// A listed nickname without its mode prefix.
fn strip_mode(nick: &str, prefixes: &Option<String>) -> (res: String)
    ensures
        res@ == strip_mode_prefix(nick@, crate::irc::proto::opt_str_view(*prefixes)),
{
    match prefixes {
        Some(p) => {
            let n = nick.unicode_len();
            if n > 0 && str_contains_char(p.as_str(), nick.get_char(0)) {
                let rest = nick.substring_char(1, n);
                assert(rest@ =~= nick@.drop_first());
                String::from_str(rest)
            } else {
                String::from_str(nick)
            }
        },
        None => String::from_str(nick),
    }
}

/// The users that a names reply adds.
fn names_reply_events(list: &String, prefixes: &Option<String>, own: &String) -> (res: Vec<IrcEvent>)
    ensures
        events_view(res@) == names_events(
            split_on(list@, ' '),
            crate::irc::proto::opt_str_view(*prefixes),
            own@,
        ),
{
    let pieces = str_split(list.as_str(), ' ');
    let ghost all = split_on(list@, ' ');
    let ghost pv = crate::irc::proto::opt_str_view(*prefixes);
    let mut events: Vec<IrcEvent> = Vec::new();
    let mut i: usize = 0;
    assert(all.take(0) =~= Seq::<Seq<char>>::empty());
    while i < pieces.len()
        invariant
            i <= pieces.len(),
            pieces@.map_values(|p: String| p@) == all,
            pv == crate::irc::proto::opt_str_view(*prefixes),
            events_view(events@) == names_events(all.take(i as int), pv, own@),
        decreases pieces.len() - i,
    {
        assert(all.take(i + 1).drop_last() =~= all.take(i as int));
        assert(all.take(i + 1).last() == pieces@[i as int]@);
        let nick = strip_mode(pieces[i].as_str(), prefixes);
        if !str_eq(nick.as_str(), own.as_str()) {
            events.push(IrcEvent::AddUser { nick });
        }
        i = i + 1;
        assert(events_view(events@) =~= names_events(all.take(i as int), pv, own@));
    }
    assert(all.take(pieces.len() as int) =~= all);
    events
}

impl Session {
    /// A session under the nickname `server_nick`, before the server has
    /// told its mode prefixes.
    pub fn new(server_nick: String) -> (res: Session)
        ensures
            res@ == (SessionView { server_nick: server_nick@, nick_prefixes: None }),
    {
        Session { server_nick, nick_prefixes: None }
    }

    /// The mode prefixes that the server has told, if it has.
    pub fn nick_prefixes(&self) -> (res: Option<&String>)
        ensures
            crate::irc::proto::opt_str_view(
                match res {
                    Some(p) => Some(*p),
                    None => None,
                },
            ) == self@.nick_prefixes,
    {
        match &self.nick_prefixes {
            Some(p) => Some(p),
            None => None,
        }
    }

    /// The client's nickname now.
    pub fn server_nick(&self) -> (res: &String)
        ensures
            res@ == self@.server_nick,
    {
        &self.server_nick
    }

    /// Answers one received line; `None` stands for a line that does not
    /// parse.
    pub fn on_line(&mut self, line: Option<IrcLine>) -> (res: (Vec<OutCommand>, Vec<IrcEvent>))
        ensures
            (final(self)@, commands_view(res.0@), events_view(res.1@)) == session_on_line(
                old(self)@,
                opt_line_view(line),
            ),
    {
        let mut sends: Vec<OutCommand> = Vec::new();
        let mut events: Vec<IrcEvent> = Vec::new();
        let ghost expected = session_on_line(old(self)@, opt_line_view(line));
        match line {
            None => {},
            Some(l) => {
                let source = l.source_nick;
                match l.command {
                    IrcCommand::Ping(a, b) => {
                        sends.push(OutCommand::Pong(a, b));
                    },
                    IrcCommand::Response(code, args) => {
                        if code == RPL_ISUPPORT {
                            let old_prefixes = self.nick_prefixes.take();
                            self.nick_prefixes = prefixes_after_isupport(&args, old_prefixes);
                        } else if code == RPL_NAMREPLY && args.len() == 4 {
                            events = names_reply_events(&args[3], &self.nick_prefixes, &self.server_nick);
                        }
                    },
                    IrcCommand::Join => {
                        if let Some(nick) = source {
                            events.push(IrcEvent::UserJoined { nick });
                        }
                    },
                    IrcCommand::Part => {
                        if let Some(nick) = source {
                            events.push(IrcEvent::Part { nick });
                        }
                    },
                    IrcCommand::Quit => {
                        if let Some(nick) = source {
                            events.push(IrcEvent::Quit { nick });
                        }
                    },
                    IrcCommand::Nick(nick) => {
                        if let Some(previous_nick) = source {
                            if str_eq(previous_nick.as_str(), self.server_nick.as_str()) {
                                self.server_nick = nick.clone();
                            }
                            events.push(IrcEvent::ChangeName { previous_nick, nick });
                        }
                    },
                    IrcCommand::PrivMsg(target, message) => {
                        if let Some(nick) = source {
                            if is_channel_name(&target) {
                                events.push(IrcEvent::Message { nick, message });
                            }
                        }
                    },
                    IrcCommand::Other => {},
                }
            },
        }
        assert(commands_view(sends@) =~= expected.1);
        assert(events_view(events@) =~= expected.2);
        (sends, events)
    }

    /// Answers one websocket message: text is read as a line, binary data
    /// is passed over, and a close or a failure ends the session.
    pub fn on_ws(&mut self, input: WsInput) -> (res: SessionStep)
        ensures
            match input {
                WsInput::Text(line) => {
                    &&& (final(self)@, commands_view(res.sends@), events_view(res.events@))
                        == session_on_line(old(self)@, irc_parsed(line@))
                    &&& res.end is None
                },
                WsInput::Binary => final(self)@ == old(self)@ && res.sends@.len() == 0
                    && res.events@.len() == 0 && res.end is None,
                WsInput::Close => final(self)@ == old(self)@ && res.sends@.len() == 0
                    && res.events@.len() == 0 && res.end == Some(SessionEnd::Closed),
                WsInput::Error => final(self)@ == old(self)@ && res.sends@.len() == 0
                    && res.events@.len() == 0 && res.end == Some(SessionEnd::Failed),
            },
    {
        match input {
            WsInput::Text(line) => {
                let parsed = parse_line(line.as_str());
                let (sends, events) = self.on_line(parsed);
                SessionStep { sends, events, end: None }
            },
            WsInput::Binary => SessionStep { sends: Vec::new(), events: Vec::new(), end: None },
            WsInput::Close => SessionStep {
                sends: Vec::new(),
                events: Vec::new(),
                end: Some(SessionEnd::Closed),
            },
            WsInput::Error => SessionStep {
                sends: Vec::new(),
                events: Vec::new(),
                end: Some(SessionEnd::Failed),
            },
        }
    }

    /// The line that carries a control message to the channel: leaving it,
    /// or saying a message in it.
    pub fn on_control(&self, control: IrcControlMessage) -> (res: OutCommand)
        ensures
            res@ == (match control {
                IrcControlMessage::Part => OutCommandView::Part(irc_channel()),
                IrcControlMessage::Message { message } => OutCommandView::PrivMsg(
                    irc_channel(),
                    message@,
                ),
            }),
    {
        match control {
            IrcControlMessage::Part => OutCommand::Part(channel_name()),
            IrcControlMessage::Message { message } => OutCommand::PrivMsg(channel_name(), message),
        }
    }
}

/// The nickname under which the client registers holds no alphanumeric
/// character.
pub proof fn lemma_registered_nick_not_alphanumeric(name: Seq<char>)
    ensures
        forall|i: int|
            0 <= i < without_alphanumeric(name).len() ==> !char_is_alphanumeric(
                #[trigger] without_alphanumeric(name)[i],
            ),
    decreases name.len(),
{
    if name.len() > 0 {
        let r = without_alphanumeric(name.drop_last());
        lemma_registered_nick_not_alphanumeric(name.drop_last());
        assert forall|i: int| 0 <= i < without_alphanumeric(name).len() implies !char_is_alphanumeric(
            #[trigger] without_alphanumeric(name)[i],
        ) by {
            if !char_is_alphanumeric(name.last()) && i == r.len() {
            } else {
                assert(without_alphanumeric(name)[i] == r[i]);
            }
        }
    }
}

/// Each refusal of the nickname as in use adds one `_` to it, and the client
/// asks for the longer nickname.
pub proof fn lemma_nick_in_use_appends_underscore(r: RegistrationView, args: Seq<Seq<char>>, source: Option<Seq<char>>)
    ensures
        ({
            let line = IrcLineView {
                source_nick: source,
                command: IrcCommandView::Response(ERR_NICKNAMEINUSE, args),
            };
            let (next, sends, joined) = registration_on_line(r, Some(line));
            &&& next.nick == r.nick.push('_')
            &&& sends == seq![OutCommandView::Nick(r.nick.push('_'))]
            &&& !joined
        }),
{
}

/// Registration ends exactly on the welcome reply.
pub proof fn lemma_registration_ends_on_welcome(r: RegistrationView, line: Option<IrcLineView>)
    ensures
        registration_on_line(r, line).2 <==> (line matches Some(l) && l.command matches IrcCommandView::Response(code, _) && code == RPL_WELCOME),
{
}

/// A names reply never adds the client's own nickname as a user.
pub proof fn lemma_names_reply_skips_own_nick(
    pieces: Seq<Seq<char>>,
    prefixes: Option<Seq<char>>,
    own: Seq<char>,
)
    ensures
        forall|i: int|
            0 <= i < names_events(pieces, prefixes, own).len() ==> #[trigger] names_events(
                pieces,
                prefixes,
                own,
            )[i] != (IrcEventView::AddUser { nick: own }),
    decreases pieces.len(),
{
    if pieces.len() > 0 {
        lemma_names_reply_skips_own_nick(pieces.drop_last(), prefixes, own);
    }
}

/// During the session the client sends a line for a received line only to
/// answer a ping, and then sends exactly the matching pong.
pub proof fn lemma_session_only_answers_pings(s: SessionView, line: Option<IrcLineView>)
    ensures
        session_on_line(s, line).1.len() > 0 ==> (line matches Some(l) && l.command matches IrcCommandView::Ping(a, b) && session_on_line(s, line).1 == seq![OutCommandView::Pong(a, b)]),
{
}

/// The session follows the client's own changes of nickname and no other.
pub proof fn lemma_session_follows_own_nick(s: SessionView, line: Option<IrcLineView>)
    ensures
        session_on_line(s, line).0.server_nick == (match line {
            Some(l) => match (l.source_nick, l.command) {
                (Some(previous), IrcCommandView::Nick(nick)) => if previous == s.server_nick {
                    nick
                } else {
                    s.server_nick
                },
                _ => s.server_nick,
            },
            None => s.server_nick,
        }),
{
}


/// Every join by a user is reported, the client's own join included, and
/// changes nothing else.
pub proof fn lemma_every_join_reported(s: SessionView, nick: Seq<char>)
    ensures
        session_on_line(
            s,
            Some(IrcLineView { source_nick: Some(nick), command: IrcCommandView::Join }),
        ) == (s, Seq::<OutCommandView>::empty(), seq![IrcEventView::UserJoined { nick }]),
        session_on_line(
            s,
            Some(IrcLineView { source_nick: Some(s.server_nick), command: IrcCommandView::Join }),
        ).2 == seq![IrcEventView::UserJoined { nick: s.server_nick }],
{
}

/// The registered nickname is the user name with exactly its alphanumeric
/// characters left out: every other character stays, in order, repeated ones
/// included, so its length is the number of such characters in the name.
pub proof fn lemma_registered_nick_keeps_the_rest(name: Seq<char>)
    ensures
        without_alphanumeric(name) == name.filter(|c: char| !char_is_alphanumeric(c)),
        without_alphanumeric(name).len() == name.filter(|c: char| !char_is_alphanumeric(c)).len(),
    decreases name.len(),
{
    reveal_with_fuel(Seq::filter, 1);
    if name.len() > 0 {
        lemma_registered_nick_keeps_the_rest(name.drop_last());
    }
}

} // verus!
