# worldchat

WorldChat is a small multiplayer world: players log in with a name, meet in
the IRC channel `#bevyworldchat` and walk around a shared grid; their names,
positions and chat lines travel as channel messages.  A second, peer-to-peer
chat room finds its peers through DNS records published with pkarr.

The crate is a Verus library (`src/`) with a Bevy program around it (`app/`).

## Library (`src/`, verified)

- `irc::proto` — what the client reads of a received IRC line (parsed by
  `irc_proto`) and the exact text of the commands it sends.
- `irc::server` — the client's registration (nickname derived from the user
  name, `CAP END`/`USER`/`NICK`, pongs, `_` appended on a nickname in use,
  `JOIN` on the welcome reply) and its session (pongs, mode prefixes from
  `RPL_ISUPPORT`, users from names replies, joins, parts, quits, nickname
  changes and channel messages).
- `irc::users` — the table of users by nickname and what the world does for
  each client event.
- `irc::channel` — the senders of channels by server and channel name.
- `world::chat` — the message line format (Base64 data, then free text), the
  reactions to players' messages, and the move queues.
- `chat` — z-base-32 text, and the rules of the room's DNS record set: which
  records offer peers to start from, which records are carried over when the
  set is republished, and how long to wait between publications.
- `runtime` — background tasks on a Tokio runtime, collected once.
- `table`, `text` — a table of values by name, and text operations.

Each public function states its result in its `ensures`; the laws of the
library are public proof functions next to the functions they speak of.

## Program (`app/`)

The Bevy app, its scenes and systems, the websocket loop of the IRC client,
the gossip and DNS networking of chat rooms, and the serialisation of message
data with postcard.
