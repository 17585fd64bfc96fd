//! The frames that the server sends: the snapshot of the feed, the
//! announcement of one entry, and the announcement that one is gone.

use crate::bytebuf::{
    in_from_vec, in_get_u8, in_remaining, le32, out_new, out_put_i32_le, out_put_slice,
    out_put_u8, out_to_vec, unread, written,
};
use crate::codec::{
    lemma_read_i32_round_trip, lemma_read_text_round_trip, read_i32, read_text, take_i32,
    take_text, DecodeError, SERVER_M_ALL_MSG, SERVER_M_CREATE_MSG, SERVER_M_DELETE_MSG,
};
use crate::msg::{fits_wire, msg_views, Msg, MsgType, MsgView};
use bytes::{Bytes, BytesMut};
use vstd::prelude::*;
use vstd::utf8::encode_utf8;

verus! {

/// The length tag that stands in front of every number of an entry.
pub const NUMBER_TAG: i32 = 4;

/// What a frame carries of an entry: everything but the time it was made.
#[derive(Debug)]
pub struct WireEntry {
    pub id: i32,
    pub msg_type: MsgType,
    pub text: String,
}

/// What a frame carries of an entry, as plain values.
pub struct WireEntryView {
    pub id: i32,
    pub msg_type: MsgType,
    pub text: Seq<char>,
}

impl View for WireEntry {
    type V = WireEntryView;

    open spec fn view(&self) -> WireEntryView {
        WireEntryView { id: self.id, msg_type: self.msg_type, text: self.text@ }
    }
}

impl MsgView {
    /// The part of the entry that travels.
    pub open spec fn wire(self) -> WireEntryView {
        WireEntryView { id: self.id, msg_type: self.msg_type, text: self.text }
    }
}

/// The travelling parts of a run of entries, in order.
pub open spec fn wires(entries: Seq<MsgView>) -> Seq<WireEntryView> {
    Seq::new(entries.len(), |i: int| entries[i].wire())
}

/// One entry on the wire: the tagged identity, the tagged kind, then the text
/// behind its length.
pub open spec fn entry_bytes(e: WireEntryView) -> Seq<u8> {
    le32(NUMBER_TAG) + le32(e.id) + le32(NUMBER_TAG) + le32(e.msg_type.spec_code()) + le32(
        encode_utf8(e.text).len() as i32,
    ) + encode_utf8(e.text)
}

/// A run of entries on the wire, one behind the other.
pub open spec fn entries_bytes(es: Seq<WireEntryView>) -> Seq<u8>
    decreases es.len(),
{
    if es.len() == 0 {
        Seq::empty()
    } else {
        entry_bytes(es[0]) + entries_bytes(es.drop_first())
    }
}

/// The snapshot frame for the given entries.
pub open spec fn all_feed_bytes(es: Seq<WireEntryView>) -> Seq<u8> {
    seq![SERVER_M_ALL_MSG] + entries_bytes(es)
}

/// The announcement of an entry; of one that is no longer there, the opcode
/// alone.
pub open spec fn created_bytes(e: Option<WireEntryView>) -> Seq<u8> {
    match e {
        Some(e) => seq![SERVER_M_CREATE_MSG] + entry_bytes(e),
        None => seq![SERVER_M_CREATE_MSG],
    }
}

/// The announcement that the entry `id` is gone.
pub open spec fn deleted_bytes(id: i32) -> Seq<u8> {
    seq![SERVER_M_DELETE_MSG] + le32(NUMBER_TAG) + le32(id)
}

/// Joining three runs of bytes gives the same whichever two are joined first.
proof fn lemma_join_assoc(a: Seq<u8>, b: Seq<u8>, c: Seq<u8>)
    ensures
        a + (b + c) == (a + b) + c,
{
    assert(a + (b + c) =~= (a + b) + c);
}

/// A run of entries with one more behind it is laid out as the run, then the
/// one.
pub proof fn lemma_entries_bytes_push(es: Seq<WireEntryView>, e: WireEntryView)
    ensures
        entries_bytes(es.push(e)) == entries_bytes(es) + entry_bytes(e),
    decreases es.len(),
{
    let one = entry_bytes(e);
    if es.len() == 0 {
        assert(es.push(e).drop_first() =~= Seq::<WireEntryView>::empty());
        assert(entries_bytes(es.push(e).drop_first()) == Seq::<u8>::empty());
        assert(entries_bytes(es) == Seq::<u8>::empty());
        assert(one + Seq::<u8>::empty() =~= Seq::<u8>::empty() + one);
    } else {
        let head = entry_bytes(es[0]);
        let tail = entries_bytes(es.drop_first());
        lemma_entries_bytes_push(es.drop_first(), e);
        assert(es.push(e).drop_first() =~= es.drop_first().push(e));
        assert(es.push(e)[0] == es[0]);
        assert(entries_bytes(es.push(e)) == head + (tail + one));
        lemma_join_assoc(head, tail, one);
    }
}

/// Appends one entry to the buffer.
fn put_entry(buf: &mut BytesMut, m: &Msg)
    requires
        m.fits(),
    ensures
        written(*final(buf)) == written(*old(buf)) + entry_bytes(m@.wire()),
{
    let raw: &[u8] = m.text.as_str().as_bytes();
    out_put_i32_le(buf, NUMBER_TAG);
    out_put_i32_le(buf, m.id);
    out_put_i32_le(buf, NUMBER_TAG);
    out_put_i32_le(buf, m.msg_type.code());
    out_put_i32_le(buf, raw.len() as i32);
    out_put_slice(buf, raw);
    assert(written(*buf) =~= written(*old(buf)) + entry_bytes(m@.wire()));
}

/// The snapshot frame: the opcode, then every entry in order.
pub fn encode_all_feed(entries: &Vec<Msg>) -> (frame: Vec<u8>)
    requires
        forall|i: int| 0 <= i < entries@.len() ==> (#[trigger] entries@[i]).fits(),
    ensures
        frame@ == all_feed_bytes(wires(msg_views(entries@))),
{
    let mut buf = out_new();
    out_put_u8(&mut buf, SERVER_M_ALL_MSG);
    let mut i: usize = 0;
    while i < entries.len()
        invariant
            i <= entries@.len(),
            forall|j: int| 0 <= j < entries@.len() ==> (#[trigger] entries@[j]).fits(),
            written(buf) == all_feed_bytes(wires(msg_views(entries@)).take(i as int)),
        decreases entries@.len() - i,
    {
        put_entry(&mut buf, &entries[i]);
        proof {
            let all = wires(msg_views(entries@));
            lemma_entries_bytes_push(all.take(i as int), all[i as int]);
            assert(all.take(i as int).push(all[i as int]) =~= all.take(i + 1));
            assert(written(buf) =~= all_feed_bytes(all.take(i + 1)));
        }
        i = i + 1;
    }
    assert(wires(msg_views(entries@)).take(i as int) =~= wires(msg_views(entries@)));
    out_to_vec(&buf)
}

/// The announcement of an entry, or the bare opcode where there is none.
pub fn encode_created(entry: Option<&Msg>) -> (frame: Vec<u8>)
    requires
        entry matches Some(m) ==> m.fits(),
    ensures
        frame@ == created_bytes(
            match entry {
                Some(m) => Some(m@.wire()),
                None => None,
            },
        ),
{
    let mut buf = out_new();
    out_put_u8(&mut buf, SERVER_M_CREATE_MSG);
    match entry {
        Some(m) => {
            put_entry(&mut buf, m);
        },
        None => {},
    }
    assert(written(buf) =~= created_bytes(
        match entry {
            Some(m) => Some(m@.wire()),
            None => None,
        },
    ));
    out_to_vec(&buf)
}

/// The announcement that the entry `id` is gone.
pub fn encode_deleted(id: i32) -> (frame: Vec<u8>)
    ensures
        frame@ == deleted_bytes(id),
{
    let mut buf = out_new();
    out_put_u8(&mut buf, SERVER_M_DELETE_MSG);
    out_put_i32_le(&mut buf, NUMBER_TAG);
    out_put_i32_le(&mut buf, id);
    assert(written(buf) =~= deleted_bytes(id));
    out_to_vec(&buf)
}

/// A frame that the server sent.
#[derive(Debug)]
pub enum ServerFrame {
    /// The feed as it stood when the session began.
    AllFeed(Vec<WireEntry>),
    /// An entry to show, or nothing where it was gone before it could be sent.
    Created(Option<WireEntry>),
    /// The identity of an entry that is gone.
    Deleted(i32),
}

/// A server's frame as plain values.
pub enum ServerFrameView {
    AllFeed(Seq<WireEntryView>),
    Created(Option<WireEntryView>),
    Deleted(i32),
}

/// The plain values of a run of decoded entries, in order.
pub open spec fn entry_views(entries: Seq<WireEntry>) -> Seq<WireEntryView> {
    Seq::new(entries.len(), |i: int| entries[i]@)
}

impl View for ServerFrame {
    type V = ServerFrameView;

    open spec fn view(&self) -> ServerFrameView {
        match self {
            ServerFrame::AllFeed(entries) => ServerFrameView::AllFeed(entry_views(entries@)),
            ServerFrame::Created(entry) => ServerFrameView::Created(
                match entry {
                    Some(e) => Some(e@),
                    None => None,
                },
            ),
            ServerFrame::Deleted(id) => ServerFrameView::Deleted(*id),
        }
    }
}

/// The tagged number at the front of `b`, and what follows it.
pub open spec fn read_tagged(b: Seq<u8>) -> Result<(i32, Seq<u8>), DecodeError> {
    match read_i32(b) {
        Err(e) => Err(e),
        Ok((tag, rest)) => if tag != NUMBER_TAG {
            Err(DecodeError::BadTag)
        } else {
            read_i32(rest)
        },
    }
}

/// The entry at the front of `b`, and what follows it.
#[verifier::opaque]
pub open spec fn read_entry(b: Seq<u8>) -> Result<(WireEntryView, Seq<u8>), DecodeError> {
    match read_tagged(b) {
        Err(e) => Err(e),
        Ok((id, after_id)) => match read_tagged(after_id) {
            Err(e) => Err(e),
            Ok((code, after_kind)) => match MsgType::spec_from_code(code) {
                None => Err(DecodeError::BadKind),
                Some(msg_type) => match read_text(after_kind) {
                    Err(e) => Err(e),
                    Ok((text, rest)) => Ok((WireEntryView { id, msg_type, text }, rest)),
                },
            },
        },
    }
}

/// The entries that fill `b` to its end.
pub open spec fn read_entries(b: Seq<u8>) -> Result<Seq<WireEntryView>, DecodeError>
    decreases b.len(),
{
    if b.len() == 0 {
        Ok(Seq::empty())
    } else {
        match read_entry(b) {
            Err(e) => Err(e),
            Ok((first, rest)) => if rest.len() < b.len() {
                match read_entries(rest) {
                    Err(e) => Err(e),
                    Ok(others) => Ok(seq![first] + others),
                }
            } else {
                Err(DecodeError::Truncated)
            },
        }
    }
}

/// What a server's frame says.
pub open spec fn parse_server_frame(b: Seq<u8>) -> Result<ServerFrameView, DecodeError> {
    if b.len() < 1 {
        Err(DecodeError::Truncated)
    } else if b[0] == SERVER_M_ALL_MSG {
        match read_entries(b.skip(1)) {
            Err(e) => Err(e),
            Ok(es) => Ok(ServerFrameView::AllFeed(es)),
        }
    } else if b[0] == SERVER_M_CREATE_MSG {
        if b.len() == 1 {
            Ok(ServerFrameView::Created(None))
        } else {
            match read_entry(b.skip(1)) {
                Err(e) => Err(e),
                Ok((e, _)) => Ok(ServerFrameView::Created(Some(e))),
            }
        }
    } else if b[0] == SERVER_M_DELETE_MSG {
        match read_tagged(b.skip(1)) {
            Err(e) => Err(e),
            Ok((id, _)) => Ok(ServerFrameView::Deleted(id)),
        }
    } else {
        Err(DecodeError::BadOpcode)
    }
}

/// Takes the tagged number at the front of the buffer.
fn take_tagged(buf: &mut Bytes) -> (r: Result<i32, DecodeError>)
    ensures
        match read_tagged(unread(*old(buf))) {
            Ok((v, rest)) => r == Ok::<i32, DecodeError>(v) && unread(*final(buf)) == rest,
            Err(e) => r == Err::<i32, DecodeError>(e),
        },
{
    let tag: i32 = match take_i32(buf) {
        Ok(tag) => tag,
        Err(e) => {
            return Err(e);
        },
    };
    if tag != NUMBER_TAG {
        return Err(DecodeError::BadTag);
    }
    take_i32(buf)
}

/// Takes the entry at the front of the buffer.
fn take_entry(buf: &mut Bytes) -> (r: Result<WireEntry, DecodeError>)
    ensures
        match read_entry(unread(*old(buf))) {
            Ok((e, rest)) => r matches Ok(x) && x@ == e && unread(*final(buf)) == rest
                && rest.len() < unread(*old(buf)).len(),
            Err(e) => r matches Err(x) && x == e,
        },
{
    reveal(read_entry);
    let id: i32 = match take_tagged(buf) {
        Ok(id) => id,
        Err(e) => {
            return Err(e);
        },
    };
    let code: i32 = match take_tagged(buf) {
        Ok(code) => code,
        Err(e) => {
            return Err(e);
        },
    };
    let msg_type: MsgType = match MsgType::from_code(code) {
        Some(msg_type) => msg_type,
        None => {
            return Err(DecodeError::BadKind);
        },
    };
    match take_text(buf) {
        Ok(text) => Ok(WireEntry { id, msg_type, text }),
        Err(e) => Err(e),
    }
}

/// Reads one frame that the server sent.
pub fn decode_server_frame(data: Vec<u8>) -> (r: Result<ServerFrame, DecodeError>)
    ensures
        match parse_server_frame(data@) {
            Ok(f) => r matches Ok(g) && g@ == f,
            Err(e) => r matches Err(x) && x == e,
        },
{
    let ghost whole = data@;
    let mut buf = in_from_vec(data);
    if in_remaining(&buf) < 1 {
        return Err(DecodeError::Truncated);
    }
    let opcode: u8 = in_get_u8(&mut buf);
    if opcode == SERVER_M_ALL_MSG {
        let ghost body = unread(buf);
        let mut entries: Vec<WireEntry> = Vec::new();
        while in_remaining(&buf) > 0
            invariant
                whole == data@,
                whole.len() >= 1,
                whole[0] == SERVER_M_ALL_MSG,
                body == whole.skip(1),
                match read_entries(unread(buf)) {
                    Ok(others) => read_entries(body) == Ok::<Seq<WireEntryView>, DecodeError>(
                        entry_views(entries@) + others,
                    ),
                    Err(e) => read_entries(body) == Err::<Seq<WireEntryView>, DecodeError>(e),
                },
            decreases unread(buf).len(),
        {
            let ghost before = entry_views(entries@);
            let ghost prior = unread(buf);
            match take_entry(&mut buf) {
                Ok(entry) => {
                    entries.push(entry);
                    proof {
                        let first = entries@[entries@.len() - 1]@;
                        assert(entry_views(entries@) =~= before.push(first));
                        match read_entries(unread(buf)) {
                            Ok(others) => {
                                assert(before + (seq![first] + others) =~= before.push(first)
                                    + others);
                            },
                            Err(_) => {},
                        }
                    }
                },
                Err(e) => {
                    assert(read_entries(prior) == Err::<Seq<WireEntryView>, DecodeError>(e));
                    return Err(e);
                },
            }
        }
        assert(entry_views(entries@) + Seq::<WireEntryView>::empty() =~= entry_views(
            entries@,
        ));
        Ok(ServerFrame::AllFeed(entries))
    } else if opcode == SERVER_M_CREATE_MSG {
        if in_remaining(&buf) == 0 {
            Ok(ServerFrame::Created(None))
        } else {
            match take_entry(&mut buf) {
                Ok(entry) => Ok(ServerFrame::Created(Some(entry))),
                Err(e) => Err(e),
            }
        }
    } else if opcode == SERVER_M_DELETE_MSG {
        match take_tagged(&mut buf) {
            Ok(id) => Ok(ServerFrame::Deleted(id)),
            Err(e) => Err(e),
        }
    } else {
        Err(DecodeError::BadOpcode)
    }
}

/// Whether every entry of the run has a text that a frame can carry.
pub open spec fn all_fit(es: Seq<WireEntryView>) -> bool {
    forall|i: int| 0 <= i < es.len() ==> fits_wire((#[trigger] es[i]).text)
}

/// A tagged number is read back from its tag and its four bytes, whatever
/// follows them.
proof fn lemma_read_tagged_round_trip(v: i32, rest: Seq<u8>)
    ensures
        read_tagged(le32(NUMBER_TAG) + (le32(v) + rest)) == Ok::<(i32, Seq<u8>), DecodeError>(
            (v, rest),
        ),
{
    lemma_read_i32_round_trip(NUMBER_TAG, le32(v) + rest);
    lemma_read_i32_round_trip(v, rest);
}

/// An entry followed by more bytes is laid out as its fields, each followed
/// by all that comes behind it.
proof fn lemma_entry_bytes_nested(e: WireEntryView, rest: Seq<u8>)
    ensures
        entry_bytes(e) + rest == le32(NUMBER_TAG) + (le32(e.id) + (le32(NUMBER_TAG) + (le32(
            e.msg_type.spec_code(),
        ) + (le32(encode_utf8(e.text).len() as i32) + (encode_utf8(e.text) + rest))))),
{
    let a = le32(NUMBER_TAG);
    let b = le32(e.id);
    let c = le32(e.msg_type.spec_code());
    let d = le32(encode_utf8(e.text).len() as i32);
    let t = encode_utf8(e.text);
    assert(a + b + a + c + d + t + rest =~= a + (b + (a + (c + (d + (t + rest))))));
}

/// Decoding undoes encoding, entry by entry: an entry whose text fits is
/// read back from its bytes, field for field, and the bytes behind it are
/// left over.
pub proof fn lemma_entry_round_trip(e: WireEntryView, rest: Seq<u8>)
    requires
        fits_wire(e.text),
    ensures
        read_entry(entry_bytes(e) + rest) == Ok::<(WireEntryView, Seq<u8>), DecodeError>(
            (e, rest),
        ),
        entry_bytes(e).len() >= 20,
{
    reveal(read_entry);
    let c = le32(e.msg_type.spec_code());
    let d = le32(encode_utf8(e.text).len() as i32);
    let t = encode_utf8(e.text);
    let after_kind = d + (t + rest);
    let after_id = le32(NUMBER_TAG) + (c + after_kind);
    lemma_entry_bytes_nested(e, rest);
    lemma_read_tagged_round_trip(e.id, after_id);
    lemma_read_tagged_round_trip(e.msg_type.spec_code(), after_kind);
    lemma_read_text_round_trip(e.text, rest);
    crate::msg::lemma_code_round_trip(e.msg_type);
    crate::bytebuf::lemma_le32_round_trip(NUMBER_TAG, Seq::empty());
    crate::bytebuf::lemma_le32_round_trip(e.id, Seq::empty());
    crate::bytebuf::lemma_le32_round_trip(e.msg_type.spec_code(), Seq::empty());
    crate::bytebuf::lemma_le32_round_trip(encode_utf8(e.text).len() as i32, Seq::empty());
}

/// Decoding undoes encoding for a whole run: entries whose texts fit are read
/// back from their bytes, in order and with nothing added.
pub proof fn lemma_entries_round_trip(es: Seq<WireEntryView>)
    requires
        all_fit(es),
    ensures
        read_entries(entries_bytes(es)) == Ok::<Seq<WireEntryView>, DecodeError>(es),
    decreases es.len(),
{
    if es.len() == 0 {
        assert(es =~= Seq::<WireEntryView>::empty());
    } else {
        let tail = es.drop_first();
        assert forall|i: int| 0 <= i < tail.len() implies fits_wire((#[trigger] tail[i]).text) by {
            assert(tail[i] == es[i + 1]);
        }
        lemma_entries_round_trip(tail);
        lemma_entry_round_trip(es[0], entries_bytes(tail));
        assert(seq![es[0]] + tail =~= es);
    }
}

/// A client that decodes the announcement of an entry finds the identity, the
/// kind and the text that the server encoded; the announcement of an entry
/// that is gone decodes to an announcement of nothing.
pub proof fn lemma_created_round_trip(e: Option<WireEntryView>)
    requires
        e matches Some(x) ==> fits_wire(x.text),
    ensures
        parse_server_frame(created_bytes(e)) == Ok::<ServerFrameView, DecodeError>(
            ServerFrameView::Created(e),
        ),
{
    match e {
        Some(x) => {
            lemma_entry_round_trip(x, Seq::empty());
            assert(entry_bytes(x) + Seq::<u8>::empty() =~= entry_bytes(x));
            assert(created_bytes(e).skip(1) =~= entry_bytes(x));
        },
        None => {},
    }
}

/// A client that decodes a snapshot finds the entries that the server
/// encoded, in order.
pub proof fn lemma_all_feed_round_trip(es: Seq<WireEntryView>)
    requires
        all_fit(es),
    ensures
        parse_server_frame(all_feed_bytes(es)) == Ok::<ServerFrameView, DecodeError>(
            ServerFrameView::AllFeed(es),
        ),
{
    lemma_entries_round_trip(es);
    assert(all_feed_bytes(es).skip(1) =~= entries_bytes(es));
}

/// A client that decodes the announcement of a removal finds the identity
/// that the server encoded.
pub proof fn lemma_deleted_round_trip(id: i32)
    ensures
        parse_server_frame(deleted_bytes(id)) == Ok::<ServerFrameView, DecodeError>(
            ServerFrameView::Deleted(id),
        ),
{
    lemma_read_tagged_round_trip(id, Seq::empty());
    assert(deleted_bytes(id).skip(1) =~= le32(NUMBER_TAG) + (le32(id) + Seq::<u8>::empty()));
}

} // verus!
