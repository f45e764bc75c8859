//! What players tell each other in the channel: their name and grid position
//! when someone joins, the positions they move to, and chat lines.  A message
//! line starts with the Base64 text (standard alphabet, no padding) of the
//! serialised message data, optionally followed by a space and free text.
use vstd::prelude::*;
use vstd::string::*;
use std::collections::VecDeque;
use base64::Engine;
use base64::DecodeError;
use base64::engine::general_purpose::STANDARD_NO_PAD;
use crate::text::{split_once, str_split_once};

verus! {

#[verifier::external_type_specification]
#[verifier::external_body]
pub struct ExBase64DecodeError(DecodeError);

/// The characters of the standard Base64 alphabet.
pub open spec fn is_base64_char(c: char) -> bool {
    let n = c as u32;
    (65 <= n <= 90) || (97 <= n <= 122) || (48 <= n <= 57) || c == '+' || c == '/'
}

/// The unpadded standard Base64 text of `bytes`, as `base64` encodes it.
pub uninterp spec fn base64_encoded(bytes: Seq<u8>) -> Seq<char>;

/// The bytes that `base64` decodes from unpadded standard Base64 text;
/// `None` where it refuses the text.
pub uninterp spec fn base64_decoded(text: Seq<char>) -> Option<Seq<u8>>;

/// Calls `Engine::encode` of `STANDARD_NO_PAD`.  Its result is named
/// `base64_encoded`; it is made of characters of the standard alphabet, and
/// decoding it gives the bytes back.
#[verifier::external_body]
fn encode_base64(bytes: &[u8]) -> (res: String)
    ensures
        res@ == base64_encoded(bytes@),
        forall|i: int| 0 <= i < res@.len() ==> is_base64_char(#[trigger] res@[i]),
        base64_decoded(res@) == Some(bytes@),
{
    STANDARD_NO_PAD.encode(bytes)
}

/// Calls `Engine::decode` of `STANDARD_NO_PAD`; its result is named
/// `base64_decoded`.
#[verifier::external_body]
fn decode_base64(text: &str) -> (res: Result<Vec<u8>, DecodeError>)
    ensures
        match res {
            Ok(bytes) => base64_decoded(text@) == Some(bytes@),
            Err(_) => base64_decoded(text@) is None,
        },
{
    STANDARD_NO_PAD.decode(text)
}

/// A cell of the world's grid.
#[derive(Clone, Copy, Debug, PartialEq, Eq, Structural)]
pub struct GridPosition {
    pub x: i32,
    pub y: i32,
}

/// The data at the head of a player's message line.
#[derive(Debug, Clone, PartialEq, Eq)]
pub enum UserMessageData {
    /// A player's name and position, sent when someone joins.
    Broadcast { name: String, position: GridPosition },
    /// The cell that a player moves to.
    Position(GridPosition),
    /// A chat line; its text follows the data.
    Message,
}

/// A message line: the Base64 text of the payload, and the free text after a
/// space where there is some.
pub open spec fn user_message_line(payload: Seq<u8>, text: Option<Seq<char>>) -> Seq<char> {
    match text {
        Some(t) => base64_encoded(payload) + seq![' '] + t,
        None => base64_encoded(payload),
    }
}

/// A Base64 head holds neither the space that ends it nor `=` padding.
pub proof fn lemma_base64_head_has_no_space_or_padding(c: char)
    requires
        is_base64_char(c),
    ensures
        c != ' ',
        c != '=',
{
}

/// What a message line holds: the text before the first space is the Base64
/// text of the payload, and the rest, where there is a space, is the free
/// text.  `None` where the head is no Base64 text.
pub open spec fn user_message_parts(line: Seq<char>) -> Option<(Seq<u8>, Option<Seq<char>>)> {
    match split_once(line, ' ') {
        None => match base64_decoded(line) {
            Some(bytes) => Some((bytes, None)),
            None => None,
        },
        Some((head, tail)) => match base64_decoded(head) {
            Some(bytes) => Some((bytes, Some(tail))),
            None => None,
        },
    }
}

/// A message line that cannot be read.
#[derive(Debug, Clone, PartialEq, Eq)]
pub enum UserMessageError {
    /// The head of the line is no Base64 text.
    Base64,
}

pub open spec fn opt_text_view(t: Option<&str>) -> Option<Seq<char>> {
    match t {
        Some(s) => Some(s@),
        None => None,
    }
}

/// The message line for `payload`, followed by `text` where there is one.
/// Its Base64 head is made of characters of the standard alphabet only (no
/// space and no `=` padding), and the line reads back as the payload and the
/// text.
pub fn encode_user_message(payload: &[u8], text: Option<&str>) -> (res: String)
    ensures
        res@ == user_message_line(payload@, opt_text_view(text)),
        forall|i: int|
            0 <= i < base64_encoded(payload@).len() ==> is_base64_char(
                #[trigger] base64_encoded(payload@)[i],
            ),
        user_message_parts(res@) == Some((payload@, opt_text_view(text))),
{
    let mut line = encode_base64(payload);
    let ghost head = line@;
    assert(!head.contains(' ')) by {
        if head.contains(' ') {
            let i = choose|i: int| 0 <= i < head.len() && head[i] == ' ';
            assert(is_base64_char(head[i]));
        }
    }
    match text {
        Some(t) => {
            let space = " ";
            proof {
                reveal_strlit(" ");
            }
            line.append(space);
            line.append(t);
            proof {
                let l = line@;
                let k = head.len() as int;
                assert(l == head + seq![' '] + t@);
                assert(crate::text::is_first_index(l, ' ', k));
                assert(l.contains(' '));
                let j = choose|j: int| crate::text::is_first_index(l, ' ', j);
                assert(j == k) by {
                    if j < k {
                        assert(l[j] == head[j]);
                    } else if j > k {
                        assert(l[k] == ' ');
                    }
                }
                assert(l.take(k) =~= head);
                assert(l.skip(k + 1) =~= t@);
            }
        },
        None => {
            assert(split_once(head, ' ') is None);
        },
    }
    line
}

/// Reads a message line: the payload bytes and the free text.
pub fn decode_user_message(line: &str) -> (res: Result<(Vec<u8>, Option<String>), UserMessageError>)
    ensures
        match res {
            Ok((bytes, text)) => user_message_parts(line@) == Some(
                (bytes@, crate::irc::proto::opt_str_view(text)),
            ),
            Err(_) => user_message_parts(line@) is None,
        },
{
    match str_split_once(line, ' ') {
        None => match decode_base64(line) {
            Ok(bytes) => Ok((bytes, None)),
            Err(_) => Err(UserMessageError::Base64),
        },
        Some((head, tail)) => match decode_base64(head.as_str()) {
            Ok(bytes) => Ok((bytes, Some(tail))),
            Err(_) => Err(UserMessageError::Base64),
        },
    }
}

/// What the world knows of the player who sent a message.
#[derive(Debug, Clone, Copy, PartialEq, Eq)]
pub struct UserState {
    /// The player has a name in the world already.
    pub has_name: bool,
    /// The player is the local one.
    pub is_primary: bool,
    /// The player has moves queued.
    pub has_move_queue: bool,
}

/// What the world does with a player's message.
#[derive(Debug, Clone, PartialEq, Eq)]
pub enum MessageReaction {
    /// Name the player and put it at `position` at once.
    Warp { name: String, position: GridPosition },
    /// Queue a move to `position` behind the player's other moves.
    Enqueue(GridPosition),
    /// Give the player a queue that holds the move to `position`.
    StartQueue(GridPosition),
    Nothing,
}

/// A broadcast names and places a player that has no name yet; a position
/// moves any player but the local one, queued behind its other moves; a chat
/// line changes nothing.
pub open spec fn reaction_to(data: UserMessageData, user: UserState) -> MessageReaction {
    match data {
        UserMessageData::Broadcast { name, position } => if !user.has_name {
            MessageReaction::Warp { name, position }
        } else {
            MessageReaction::Nothing
        },
        UserMessageData::Position(position) => if user.is_primary {
            MessageReaction::Nothing
        } else if user.has_move_queue {
            MessageReaction::Enqueue(position)
        } else {
            MessageReaction::StartQueue(position)
        },
        UserMessageData::Message => MessageReaction::Nothing,
    }
}

/// What the world does with the message `data` from a player in the state
/// `user`.
pub fn react_to_message(data: UserMessageData, user: UserState) -> (res: MessageReaction)
    ensures
        res == reaction_to(data, user),
{
    match data {
        UserMessageData::Broadcast { name, position } => {
            if !user.has_name {
                MessageReaction::Warp { name, position }
            } else {
                MessageReaction::Nothing
            }
        },
        UserMessageData::Position(position) => {
            if user.is_primary {
                MessageReaction::Nothing
            } else if user.has_move_queue {
                MessageReaction::Enqueue(position)
            } else {
                MessageReaction::StartQueue(position)
            }
        },
        UserMessageData::Message => MessageReaction::Nothing,
    }
}

/// The cells that a player is yet to move to, the next one first.
pub struct UserMoveQueue(pub VecDeque<GridPosition>);

impl View for UserMoveQueue {
    type V = Seq<GridPosition>;

    open spec fn view(&self) -> Seq<GridPosition> {
        self.0@
    }
}

impl UserMoveQueue {
    /// A queue that holds the move to `position`.
    pub fn new(position: GridPosition) -> (res: Self)
        ensures
            res@ == seq![position],
    {
        let mut q: VecDeque<GridPosition> = VecDeque::new();
        q.push_back(position);
        assert(q@ =~= seq![position]);
        UserMoveQueue(q)
    }

    /// The number of queued moves.
    pub fn len(&self) -> (res: usize)
        ensures
            res == self@.len(),
    {
        self.0.len()
    }

    /// The next move.
    pub fn front(&self) -> (res: Option<GridPosition>)
        ensures
            res == (if self@.len() > 0 {
                Some(self@[0])
            } else {
                None
            }),
    {
        if self.0.len() > 0 {
            Some(self.0[0])
        } else {
            None
        }
    }

    /// The last queued move.
    pub fn back(&self) -> (res: Option<GridPosition>)
        ensures
            res == (if self@.len() > 0 {
                Some(self@.last())
            } else {
                None
            }),
    {
        let n = self.0.len();
        if n > 0 {
            Some(self.0[n - 1])
        } else {
            None
        }
    }

    /// Queues a move behind the others.
    pub fn push_back(&mut self, position: GridPosition)
        ensures
            final(self)@ == old(self)@.push(position),
    {
        self.0.push_back(position);
    }

    /// Takes the next move off the queue.
    pub fn pop_front(&mut self) -> (res: Option<GridPosition>)
        ensures
            match res {
                Some(p) => old(self)@.len() > 0 && p == old(self)@[0] && final(self)@ == old(
                    self,
                )@.drop_first(),
                None => old(self)@.len() == 0 && final(self)@ == old(self)@,
            },
    {
        let r = self.0.pop_front();
        proof {
            if r.is_some() {
                assert(final(self)@ =~= old(self)@.drop_first());
            }
        }
        r
    }

    /// Queues a move to `position` unless it is the last queued move already;
    /// says whether it queued it.  No two moves next to each other in the
    /// queue are to the same cell, if there were none before.
    pub fn push_if_new(&mut self, position: GridPosition) -> (res: bool)
        ensures
            res == !(old(self)@.len() > 0 && old(self)@.last() == position),
            final(self)@ == (if res {
                old(self)@.push(position)
            } else {
                old(self)@
            }),
    {
        match self.back() {
            Some(last) => {
                if last == position {
                    return false;
                }
            },
            None => {},
        }
        self.push_back(position);
        true
    }
}

/// No two moves next to each other in the queue go to the same cell.
pub open spec fn no_repeated_moves(q: Seq<GridPosition>) -> bool {
    forall|i: int| 0 <= i < q.len() - 1 ==> #[trigger] q[i] != q[i + 1]
}

/// Queuing a move with `push_if_new` keeps a queue free of repeated moves.
pub proof fn lemma_push_if_new_no_repeats(q: Seq<GridPosition>, position: GridPosition)
    requires
        no_repeated_moves(q),
    ensures
        no_repeated_moves(if q.len() > 0 && q.last() == position {
            q
        } else {
            q.push(position)
        }),
{
    if !(q.len() > 0 && q.last() == position) {
        let r = q.push(position);
        assert forall|i: int| 0 <= i < r.len() - 1 implies #[trigger] r[i] != r[i + 1] by {
            if i < q.len() - 1 {
                assert(r[i] == q[i] && r[i + 1] == q[i + 1]);
            }
        }
    }
}


/// A position from a player other than the local one always moves it: onto
/// its queue where it has one, into a new queue where it has none, whether or
/// not the player has a name yet.  The local player's own positions are not
/// applied again.
pub proof fn lemma_position_moves_remote_players(position: GridPosition, user: UserState)
    ensures
        !user.is_primary && user.has_move_queue ==> reaction_to(
            UserMessageData::Position(position),
            user,
        ) == MessageReaction::Enqueue(position),
        !user.is_primary && !user.has_move_queue ==> reaction_to(
            UserMessageData::Position(position),
            user,
        ) == MessageReaction::StartQueue(position),
        user.is_primary ==> reaction_to(UserMessageData::Position(position), user)
            == MessageReaction::Nothing,
        reaction_to(UserMessageData::Position(position), user) == reaction_to(
            UserMessageData::Position(position),
            UserState { has_name: !user.has_name, ..user },
        ),
{
}

} // verus!
