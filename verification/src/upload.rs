//! The rules by which an upload is taken in: how large it may be, what its
//! name may look like, and what becomes of it once its bytes are stored.

use crate::feed::{FeedStore, FeedView, Op};
use crate::msg::{Msg, MsgType, MAX_TEXT_BYTES};
use vstd::prelude::*;
use vstd::utf8::encode_utf8;

verus! {

/// The most bytes that an upload may hold: 50 MiB. One byte more is refused.
pub const MAX_UPLOAD_BYTES: usize = 52_428_800;

/// Why an upload did not become an entry of the feed.
#[derive(Clone, Copy, Debug, PartialEq, Eq, Structural)]
pub enum IngestError {
    /// The feed holds as many entries as it takes.
    FeedFull,
    /// The upload holds more bytes than an upload may.
    TooLarge,
    /// The name would not stay inside the storage directory.
    UnsafeName,
    /// The bytes could not be stored.
    Storage,
}

/// Whether a file of this name, given in UTF-8, stays inside the directory it
/// is stored in and can be shown: the name is not empty and not too long to
/// travel, is neither `.` nor `..`, and holds no slash, no backslash and no
/// zero byte.
pub open spec fn safe_name_bytes(raw: Seq<u8>) -> bool {
    &&& 0 < raw.len() <= MAX_TEXT_BYTES
    &&& raw != seq![0x2eu8]
    &&& raw != seq![0x2eu8, 0x2eu8]
    &&& forall|i: int|
        0 <= i < raw.len() ==> (#[trigger] raw[i]) != 0x2f && raw[i] != 0x5c && raw[i] != 0
}

/// Whether a file of this name stays inside the directory it is stored in.
pub open spec fn safe_name(name: Seq<char>) -> bool {
    safe_name_bytes(encode_utf8(name))
}

/// Whether an upload of this name and size is taken in by a feed in this
/// state, and if not, why not. A full feed is named first, then the size,
/// then the name.
pub open spec fn upload_verdict(feed: FeedView, name: Seq<char>, data_len: int) -> Result<
    (),
    IngestError,
> {
    if !feed.accepts() {
        Err(IngestError::FeedFull)
    } else if data_len > MAX_UPLOAD_BYTES {
        Err(IngestError::TooLarge)
    } else if !safe_name(name) {
        Err(IngestError::UnsafeName)
    } else {
        Ok(())
    }
}

/// Whether a file of this name stays inside the directory it is stored in.
pub fn is_safe_name(name: &str) -> (safe: bool)
    ensures
        safe == safe_name(name@),
{
    let raw: &[u8] = name.as_bytes();
    let n: usize = raw.len();
    if n == 0 || n > MAX_TEXT_BYTES {
        return false;
    }
    if n == 1 && raw[0] == 0x2e {
        assert(raw@ =~= seq![0x2eu8]);
        return false;
    }
    if n == 2 && raw[0] == 0x2e && raw[1] == 0x2e {
        assert(raw@ =~= seq![0x2eu8, 0x2eu8]);
        return false;
    }
    assert(raw@ != seq![0x2eu8]) by {
        if raw@ == seq![0x2eu8] {
            assert(seq![0x2eu8].len() == 1);
            assert(seq![0x2eu8][0] == 0x2e);
        }
    }
    assert(raw@ != seq![0x2eu8, 0x2eu8]) by {
        if raw@ == seq![0x2eu8, 0x2eu8] {
            assert(seq![0x2eu8, 0x2eu8].len() == 2);
            assert(seq![0x2eu8, 0x2eu8][0] == 0x2e);
            assert(seq![0x2eu8, 0x2eu8][1] == 0x2e);
        }
    }
    let mut i: usize = 0;
    while i < n
        invariant
            i <= n,
            n == raw@.len(),
            raw@ == encode_utf8(name@),
            forall|k: int|
                0 <= k < i ==> (#[trigger] raw@[k]) != 0x2f && raw@[k] != 0x5c && raw@[k] != 0,
        decreases n - i,
    {
        let b: u8 = raw[i];
        if b == 0x2f || b == 0x5c || b == 0 {
            return false;
        }
        i = i + 1;
    }
    true
}

/// Whether an upload may hold this many bytes.
pub fn size_allowed(data_len: usize) -> (ok: bool)
    ensures
        ok == (data_len <= MAX_UPLOAD_BYTES),
{
    data_len <= MAX_UPLOAD_BYTES
}

impl FeedStore {
    /// Decides, before a byte is stored, whether an upload is taken in.
    pub fn admit_upload(&self, name: &str, data_len: usize) -> (verdict: Result<(), IngestError>)
        ensures
            verdict == upload_verdict(self@, name@, data_len as int),
    {
        if self.is_full() || !self.has_free_id() {
            Err(IngestError::FeedFull)
        } else if !size_allowed(data_len) {
            Err(IngestError::TooLarge)
        } else if !is_safe_name(name) {
            Err(IngestError::UnsafeName)
        } else {
            Ok(())
        }
    }

    /// Settles an upload once the attempt to store its bytes is over. Bytes
    /// that were stored become a file entry under the upload's name, unless
    /// the feed has filled up in the meantime or the name is too long to
    /// travel; bytes that were not stored leave the feed as it was.
    pub fn complete_upload(&mut self, name: String, stored: bool) -> (outcome: Result<
        Msg,
        IngestError,
    >)
        requires
            old(self).wf(),
        ensures
            final(self).wf(),
            outcome is Ok <==> stored && old(self)@.takes(name@),
            outcome matches Err(e) ==> final(self)@ == old(self)@ && e == (if !stored {
                IngestError::Storage
            } else if !old(self)@.accepts() {
                IngestError::FeedFull
            } else {
                IngestError::UnsafeName
            }),
            outcome matches Ok(m) ==> {
                &&& m.id == old(self)@.next_id
                &&& m.msg_type == MsgType::File
                &&& m.text@ == name@
                &&& final(self)@ == old(self)@.step(
                    Op::Post {
                        msg_type: MsgType::File,
                        text: name@,
                        create_time: m.create_time,
                    },
                )
            },
    {
        if !stored {
            return Err(IngestError::Storage);
        }
        match self.append(MsgType::File, name) {
            Some(m) => Ok(m),
            None => if self.is_full() || !self.has_free_id() {
                Err(IngestError::FeedFull)
            } else {
                Err(IngestError::UnsafeName)
            },
        }
    }
}

} // verus!
