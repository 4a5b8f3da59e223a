//! The in-memory message board: a bounded list of recent messages with a
//! one-message-per-source-address limit, enforced in one check-and-insert
//! step (the caller serializes submissions with a lock).

use vstd::prelude::*;
use crate::validate::str_eq;

verus! {

/// How many recent messages the board retains.
pub const MESSAGE_LIMIT: usize = 10;

/// Longest accepted name or message, in bytes.
pub const MESSAGE_MAX_LENGTH: usize = 1000;

/// One guestbook message, with the submitter's address as plain text.
pub struct GameMessage {
    pub name: String,
    pub content: String,
    pub ip: String,
}

#[verifier::ext_equal]
pub struct GameMessageV {
    pub name: Seq<char>,
    pub content: Seq<char>,
    pub ip: Seq<char>,
}

impl View for GameMessage {
    type V = GameMessageV;

    open spec fn view(&self) -> GameMessageV {
        GameMessageV { name: self.name@, content: self.content@, ip: self.ip@ }
    }
}

/// The view of a sequence of messages.
pub open spec fn msgs_seq(msgs: Seq<GameMessage>) -> Seq<GameMessageV> {
    msgs.map_values(|m: GameMessage| m@)
}

/// A name or message body must be 1 to `MESSAGE_MAX_LENGTH` bytes.
pub open spec fn message_ok(name: Seq<char>, content: Seq<char>) -> bool {
    &&& 1 <= vstd::utf8::encode_utf8(name).len() <= MESSAGE_MAX_LENGTH
    &&& 1 <= vstd::utf8::encode_utf8(content).len() <= MESSAGE_MAX_LENGTH
}

/// How the board answered one submission.
#[derive(Clone, Copy, Debug, PartialEq, Eq, Structural)]
pub enum PostOutcome {
    /// The message is on the board.
    Accepted,
    /// Name or message length was out of bounds; nothing changed.
    BadMessage,
    /// The address already has a message on the board; nothing changed.
    AlreadyPosted,
}

/// The board of recent messages.
pub struct MessageBoard {
    pub messages: Vec<GameMessage>,
}

impl View for MessageBoard {
    type V = Seq<GameMessageV>;

    open spec fn view(&self) -> Seq<GameMessageV> {
        msgs_seq(self.messages@)
    }
}

impl MessageBoard {
    /// The board never holds more than `MESSAGE_LIMIT` messages.
    pub open spec fn wf(self) -> bool {
        self@.len() <= MESSAGE_LIMIT
    }

    /// Whether some message on the board came from this address.
    pub open spec fn has_ip(self, ip: Seq<char>) -> bool {
        exists|i: int| 0 <= i < self@.len() && (#[trigger] self@[i]).ip == ip
    }

    /// An empty board.
    pub fn new() -> (b: MessageBoard)
        ensures
            b.wf(),
            b@ == Seq::<GameMessageV>::empty(),
    {
        let b = MessageBoard { messages: Vec::new() };
        proof {
            assert(b@ =~= Seq::<GameMessageV>::empty());
        }
        b
    }

    /// A board holding the given messages (at most the retention limit), in
    /// order.
    pub fn load(messages: Vec<GameMessage>) -> (b: MessageBoard)
        requires
            messages@.len() <= MESSAGE_LIMIT,
        ensures
            b.wf(),
            b@ == msgs_seq(messages@),
    {
        MessageBoard { messages }
    }

    /// The messages on the board, oldest first.
    pub fn messages(&self) -> (r: &Vec<GameMessage>)
        ensures
            msgs_seq(r@) == self@,
    {
        &self.messages
    }

    /// One submission: rejects out-of-range lengths; rejects a second
    /// message from the same address (the loopback address is exempt);
    /// otherwise drops the oldest message if the board is full and appends
    /// the new one.
    pub fn post(&mut self, name: String, content: String, ip: String) -> (r: PostOutcome)
        requires
            old(self).wf(),
        ensures
            final(self).wf(),
            match r {
                PostOutcome::BadMessage => {
                    &&& final(self)@ == old(self)@
                    &&& !message_ok(name@, content@)
                },
                PostOutcome::AlreadyPosted => {
                    &&& final(self)@ == old(self)@
                    &&& message_ok(name@, content@)
                    &&& ip@ != "127.0.0.1"@
                    &&& old(self).has_ip(ip@)
                },
                PostOutcome::Accepted => {
                    &&& message_ok(name@, content@)
                    &&& (ip@ == "127.0.0.1"@ || !old(self).has_ip(ip@))
                    &&& final(self)@ == (if old(self)@.len() >= MESSAGE_LIMIT {
                        old(self)@.skip(1)
                    } else {
                        old(self)@
                    }).push(GameMessageV { name: name@, content: content@, ip: ip@ })
                },
            },
    {
        let name_len = name.as_str().as_bytes().len();
        let content_len = content.as_str().as_bytes().len();
        if name_len < 1 || name_len > MESSAGE_MAX_LENGTH || content_len < 1 || content_len
            > MESSAGE_MAX_LENGTH {
            return PostOutcome::BadMessage;
        }
        if !str_eq(ip.as_str(), "127.0.0.1") {
            let mut i: usize = 0;
            while i < self.messages.len()
                invariant
                    old(self).wf(),
                    self@ == old(self)@,
                    message_ok(name@, content@),
                    ip@ != "127.0.0.1"@,
                    i <= self.messages@.len(),
                    forall|j: int| 0 <= j < i ==> (#[trigger] self@[j]).ip != ip@,
                decreases self.messages@.len() - i,
            {
                if str_eq(self.messages[i].ip.as_str(), ip.as_str()) {
                    proof {
                        assert(self@[i as int].ip == ip@);
                    }
                    return PostOutcome::AlreadyPosted;
                }
                i += 1;
            }
            proof {
                assert(!self.has_ip(ip@));
            }
        }
        let ghost orig = self@;
        while self.messages.len() + 1 > MESSAGE_LIMIT
            invariant
                orig.len() <= MESSAGE_LIMIT,
                self@ == orig || (orig.len() == MESSAGE_LIMIT && self@ == orig.skip(1)),
            decreases self.messages@.len(),
        {
            let ghost before = self@;
            self.messages.remove(0);
            proof {
                assert(self@ =~= before.skip(1));
                assert(self@ =~= orig.skip(1));
            }
        }
        let ghost trimmed = self@;
        self.messages.push(GameMessage { name, content, ip });
        proof {
            assert(self@ =~= trimmed.push(
                GameMessageV { name: name@, content: content@, ip: ip@ },
            ));
        }
        PostOutcome::Accepted
    }
}

} // verus!
