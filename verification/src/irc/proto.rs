//! IRC protocol lines: what the client reads of a line it receives, and the
//! text of the commands it sends.  `irc_proto` parses and formats them.
use vstd::prelude::*;
use std::str::FromStr;
use irc_proto::{CapSubCommand, ChannelExt, Command, Message};

verus! {

/// The reply that a server sends once a client is registered.
pub const RPL_WELCOME: u16 = 1;

/// The reply that lists the features a server supports.
pub const RPL_ISUPPORT: u16 = 5;

/// The reply that lists the nicknames in a channel.
pub const RPL_NAMREPLY: u16 = 353;

/// The error reply to a nickname that someone else uses.
pub const ERR_NICKNAMEINUSE: u16 = 433;

/// The commands of a received line that the client acts on.
#[derive(Debug, Clone, PartialEq, Eq)]
pub enum IrcCommand {
    Ping(String, Option<String>),
    /// A numeric reply, by its number, with its arguments.
    Response(u16, Vec<String>),
    Join,
    Part,
    Quit,
    Nick(String),
    PrivMsg(String, String),
    /// Any other command.
    Other,
}

/// A received line: the nickname of its source, where the source is a user,
/// and its command.
#[derive(Debug, Clone, PartialEq, Eq)]
pub struct IrcLine {
    pub source_nick: Option<String>,
    pub command: IrcCommand,
}

pub enum IrcCommandView {
    Ping(Seq<char>, Option<Seq<char>>),
    Response(u16, Seq<Seq<char>>),
    Join,
    Part,
    Quit,
    Nick(Seq<char>),
    PrivMsg(Seq<char>, Seq<char>),
    Other,
}

pub struct IrcLineView {
    pub source_nick: Option<Seq<char>>,
    pub command: IrcCommandView,
}

pub open spec fn opt_str_view(o: Option<String>) -> Option<Seq<char>> {
    match o {
        Some(s) => Some(s@),
        None => None,
    }
}

pub open spec fn strs_view(v: Seq<String>) -> Seq<Seq<char>> {
    v.map_values(|s: String| s@)
}

impl View for IrcCommand {
    type V = IrcCommandView;

    open spec fn view(&self) -> IrcCommandView {
        match self {
            IrcCommand::Ping(a, b) => IrcCommandView::Ping(a@, opt_str_view(*b)),
            IrcCommand::Response(code, args) => IrcCommandView::Response(*code, strs_view(args@)),
            IrcCommand::Join => IrcCommandView::Join,
            IrcCommand::Part => IrcCommandView::Part,
            IrcCommand::Quit => IrcCommandView::Quit,
            IrcCommand::Nick(n) => IrcCommandView::Nick(n@),
            IrcCommand::PrivMsg(t, m) => IrcCommandView::PrivMsg(t@, m@),
            IrcCommand::Other => IrcCommandView::Other,
        }
    }
}

impl View for IrcLine {
    type V = IrcLineView;

    open spec fn view(&self) -> IrcLineView {
        IrcLineView { source_nick: opt_str_view(self.source_nick), command: self.command@ }
    }
}

pub open spec fn opt_line_view(o: Option<IrcLine>) -> Option<IrcLineView> {
    match o {
        Some(l) => Some(l@),
        None => None,
    }
}

/// What `irc_proto` reads of a received line: `None` where it refuses the
/// line.
pub uninterp spec fn irc_parsed(line: Seq<char>) -> Option<IrcLineView>;

/// Parses `line` with `irc_proto::Message::from_str` and keeps the source's
/// nickname (`Message::source_nickname`) and the command; the result is named
/// `irc_parsed` of the line.
#[verifier::external_body]
pub(crate) fn parse_line(line: &str) -> (res: Option<IrcLine>)
    ensures
        opt_line_view(res) == irc_parsed(line@),
{
    let m = Message::from_str(line).ok()?;
    let source_nick = m.source_nickname().map(String::from);
    let command = match m.command {
        Command::PING(a, b) => IrcCommand::Ping(a, b),
        Command::Response(r, args) => IrcCommand::Response(r as u16, args),
        Command::JOIN(..) => IrcCommand::Join,
        Command::PART(..) => IrcCommand::Part,
        Command::QUIT(_) => IrcCommand::Quit,
        Command::NICK(n) => IrcCommand::Nick(n),
        Command::PRIVMSG(t, msg) => IrcCommand::PrivMsg(t, msg),
        _ => IrcCommand::Other,
    };
    Some(IrcLine { source_nick, command })
}

/// A channel name begins with `#`, `&`, `+` or `!`.
pub open spec fn is_channel_name_spec(name: Seq<char>) -> bool {
    name.len() > 0 && (name[0] == '#' || name[0] == '&' || name[0] == '+' || name[0] == '!')
}

/// Calls `ChannelExt::is_channel_name`, which tests the first character of
/// the name against `#`, `&`, `+` and `!`.
#[verifier::external_body]
pub(crate) fn is_channel_name(name: &String) -> (res: bool)
    ensures
        res == is_channel_name_spec(name@),
{
    name.is_channel_name()
}

/// The commands that the client sends.
#[derive(Debug, Clone, PartialEq, Eq)]
pub enum OutCommand {
    CapEnd,
    /// `USER user mode * :realname`
    User(String, String, String),
    Nick(String),
    Pong(String, Option<String>),
    Join(String),
    Part(String),
    PrivMsg(String, String),
}

pub enum OutCommandView {
    CapEnd,
    User(Seq<char>, Seq<char>, Seq<char>),
    Nick(Seq<char>),
    Pong(Seq<char>, Option<Seq<char>>),
    Join(Seq<char>),
    Part(Seq<char>),
    PrivMsg(Seq<char>, Seq<char>),
}

impl View for OutCommand {
    type V = OutCommandView;

    open spec fn view(&self) -> OutCommandView {
        match self {
            OutCommand::CapEnd => OutCommandView::CapEnd,
            OutCommand::User(u, m, r) => OutCommandView::User(u@, m@, r@),
            OutCommand::Nick(n) => OutCommandView::Nick(n@),
            OutCommand::Pong(a, b) => OutCommandView::Pong(a@, opt_str_view(*b)),
            OutCommand::Join(c) => OutCommandView::Join(c@),
            OutCommand::Part(c) => OutCommandView::Part(c@),
            OutCommand::PrivMsg(t, m) => OutCommandView::PrivMsg(t@, m@),
        }
    }
}

/// The arguments joined by single spaces.
pub open spec fn join_spaced(args: Seq<Seq<char>>) -> Seq<char>
    decreases args.len(),
{
    if args.len() == 0 {
        Seq::empty()
    } else if args.len() == 1 {
        args[0]
    } else {
        join_spaced(args.drop_last()) + seq![' '] + args.last()
    }
}

/// The last argument of a command takes a colon when it is empty, holds a
/// space or begins with a colon.
pub open spec fn needs_colon(arg: Seq<char>) -> bool {
    arg.len() == 0 || arg.contains(' ') || arg[0] == ':'
}

/// The text of a command with its arguments: the command, the arguments but
/// the last joined by spaces, and the last argument, colon-prefixed where it
/// needs one.
pub open spec fn command_text(cmd: Seq<char>, args: Seq<Seq<char>>) -> Seq<char> {
    if args.len() == 0 {
        cmd
    } else {
        let init = join_spaced(args.drop_last());
        let last = args.last();
        cmd + (if init.len() == 0 {
            Seq::empty()
        } else {
            seq![' ']
        }) + init + seq![' '] + (if needs_colon(last) {
            seq![':']
        } else {
            Seq::empty()
        }) + last
    }
}

/// The text of a command that the client sends.
pub open spec fn out_command_text(c: OutCommandView) -> Seq<char> {
    match c {
        OutCommandView::CapEnd => command_text(seq!['C', 'A', 'P'], seq![seq!['E', 'N', 'D']]),
        OutCommandView::User(u, m, r) => command_text(
            seq!['U', 'S', 'E', 'R'],
            seq![u, m, seq!['*'], r],
        ),
        OutCommandView::Nick(n) => command_text(seq!['N', 'I', 'C', 'K'], seq![n]),
        OutCommandView::Pong(a, b) => command_text(
            seq!['P', 'O', 'N', 'G'],
            match b {
                Some(b) => seq![a, b],
                None => seq![a],
            },
        ),
        OutCommandView::Join(c) => command_text(seq!['J', 'O', 'I', 'N'], seq![c]),
        OutCommandView::Part(c) => command_text(seq!['P', 'A', 'R', 'T'], seq![c]),
        OutCommandView::PrivMsg(t, m) => command_text(
            seq!['P', 'R', 'I', 'V', 'M', 'S', 'G'],
            seq![t, m],
        ),
    }
}

/// Builds the `irc_proto::Command` for `cmd` and formats it with
/// `String::from(&Command)`, whose source writes exactly `out_command_text`.
#[verifier::external_body]
fn format_command(cmd: OutCommand) -> (res: String)
    ensures
        res@ == out_command_text(cmd@),
{
    let c = match cmd {
        OutCommand::CapEnd => Command::CAP(None, CapSubCommand::END, None, None),
        OutCommand::User(u, m, r) => Command::USER(u, m, r),
        OutCommand::Nick(n) => Command::NICK(n),
        OutCommand::Pong(a, b) => Command::PONG(a, b),
        OutCommand::Join(c) => Command::JOIN(c, None, None),
        OutCommand::Part(c) => Command::PART(c, None),
        OutCommand::PrivMsg(t, m) => Command::PRIVMSG(t, m),
    };
    String::from(&c)
}

impl OutCommand {
    /// The line that carries this command to the server.
    pub fn into_line(self) -> (res: String)
        ensures
            res@ == out_command_text(self@),
    {
        format_command(self)
    }
}

} // verus!
