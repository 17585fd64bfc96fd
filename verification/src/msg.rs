//! Feed entries: one text message or one stored file each.

use std::time::UNIX_EPOCH;
use vstd::prelude::*;

verus! {

/// What an entry stands for.
#[derive(Clone, Copy, Debug, PartialEq, Eq, Structural)]
pub enum MsgType {
    /// A short text message; the entry's text is the message.
    Text,
    /// An uploaded or pre-existing file; the entry's text is its stored name.
    File,
}

/// The number that stands for a text entry on the wire.
pub const MSG_T_TEXT: i32 = 1;

/// The number that stands for a file entry on the wire.
pub const MSG_T_FILE: i32 = 2;

/// The longest text, in bytes of UTF-8, whose length a frame can carry.
pub const MAX_TEXT_BYTES: usize = 0x7fff_ffff;

impl MsgType {
    /// The number that stands for this kind on the wire.
    pub open spec fn spec_code(self) -> i32 {
        match self {
            MsgType::Text => MSG_T_TEXT,
            MsgType::File => MSG_T_FILE,
        }
    }

    /// The kind that `code` stands for, if any.
    pub open spec fn spec_from_code(code: i32) -> Option<MsgType> {
        if code == MSG_T_TEXT {
            Some(MsgType::Text)
        } else if code == MSG_T_FILE {
            Some(MsgType::File)
        } else {
            None
        }
    }

    /// The number that stands for this kind on the wire.
    pub fn code(self) -> (c: i32)
        ensures
            c == self.spec_code(),
    {
        match self {
            MsgType::Text => MSG_T_TEXT,
            MsgType::File => MSG_T_FILE,
        }
    }

    /// The kind that `code` stands for; `None` for any other number.
    pub fn from_code(code: i32) -> (k: Option<MsgType>)
        ensures
            k == Self::spec_from_code(code),
    {
        if code == MSG_T_TEXT {
            Some(MsgType::Text)
        } else if code == MSG_T_FILE {
            Some(MsgType::File)
        } else {
            None
        }
    }
}

/// Every kind is found again from its number.
pub proof fn lemma_code_round_trip(kind: MsgType)
    ensures
        MsgType::spec_from_code(kind.spec_code()) == Some(kind),
{
}

/// One entry of the feed. It never changes once made.
#[derive(Debug)]
pub struct Msg {
    /// The entry's identity, unique within a feed.
    pub id: i32,
    /// Whether the text is a message or a file's name.
    pub msg_type: MsgType,
    /// The message, or the stored file's name.
    pub text: String,
    /// Milliseconds since the Unix epoch at which the entry was made.
    pub create_time: u128,
}

/// What an entry is, as plain values.
pub struct MsgView {
    pub id: i32,
    pub msg_type: MsgType,
    pub text: Seq<char>,
    pub create_time: u128,
}

impl View for Msg {
    type V = MsgView;

    open spec fn view(&self) -> MsgView {
        MsgView {
            id: self.id,
            msg_type: self.msg_type,
            text: self.text@,
            create_time: self.create_time,
        }
    }
}

/// The plain values of a run of entries, in order.
pub open spec fn msg_views(entries: Seq<Msg>) -> Seq<MsgView> {
    Seq::new(entries.len(), |i: int| entries[i]@)
}

/// Whether the UTF-8 form of `text` is short enough for a frame to carry its
/// length.
pub open spec fn fits_wire(text: Seq<char>) -> bool {
    vstd::utf8::encode_utf8(text).len() <= MAX_TEXT_BYTES
}

/// `SystemTime::elapsed` on the Unix epoch, in whole milliseconds: the wall
/// clock's reading, or `None` where the clock stands before the epoch. Nothing
/// is claimed of the reading.
#[verifier::external_body]
fn clock_millis() -> (t: Option<u128>) {
    match UNIX_EPOCH.elapsed() {
        Ok(d) => Some(d.as_millis()),
        Err(_) => None,
    }
}

impl Msg {
    /// Whether a frame can carry this entry's text.
    pub open spec fn fits(&self) -> bool {
        fits_wire(self.text@)
    }

    /// An entry made at the given time.
    pub fn at(id: i32, msg_type: MsgType, text: String, create_time: u128) -> (m: Msg)
        ensures
            m@ == (MsgView { id, msg_type, text: text@, create_time }),
    {
        Msg { id, msg_type, text, create_time }
    }

    /// An entry stamped with the wall clock's reading. A clock that stands
    /// before the Unix epoch stamps it with 0.
    pub fn new(id: i32, msg_type: MsgType, text: String) -> (m: Msg)
        ensures
            m.id == id,
            m.msg_type == msg_type,
            m.text@ == text@,
    {
        let create_time: u128 = match clock_millis() {
            Some(t) => t,
            None => 0,
        };
        Msg::at(id, msg_type, text, create_time)
    }

    /// Whether the text is short enough for a frame to carry it.
    pub fn fits_frame(&self) -> (b: bool)
        ensures
            b == self.fits(),
    {
        self.text.as_str().as_bytes().len() <= MAX_TEXT_BYTES
    }
}

impl Clone for Msg {
    fn clone(&self) -> (m: Msg)
        ensures
            m == *self,
    {
        Msg {
            id: self.id,
            msg_type: self.msg_type,
            text: self.text.clone(),
            create_time: self.create_time,
        }
    }
}

} // verus!
