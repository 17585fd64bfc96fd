//! The frames that clients send. Every integer is 32 bits wide, signed and
//! little-endian; every text is UTF-8 behind its length in bytes.

use crate::bytebuf::{
    from_le32, in_from_vec, in_get_i32_le, in_get_u8, in_remaining, in_split_to, in_to_vec, le32,
    lemma_le32_round_trip, unread,
};
use crate::msg::fits_wire;
use bytes::Bytes;
use vstd::prelude::*;
use vstd::utf8::{decode_utf8, encode_utf8, valid_utf8};

verus! {

/// Opcode of a client's request for the whole feed. Reserved: it asks for
/// nothing yet.
pub const CLIENT_M_ALL_MSG: u8 = 1;

/// Opcode of a client's request to have one entry announced again.
pub const CLIENT_M_SINGLE_MSG: u8 = 2;

/// Opcode of a client's text message.
pub const CLIENT_M_SEND_MSG: u8 = 3;

/// Opcode of a client's file upload.
pub const CLIENT_SEND_FILE: u8 = 4;

/// Opcode of the server's snapshot of the whole feed.
pub const SERVER_M_ALL_MSG: u8 = 61;

/// Opcode of the server's announcement of one entry.
pub const SERVER_M_CREATE_MSG: u8 = 62;

/// Opcode of the server's announcement that an entry is gone.
pub const SERVER_M_DELETE_MSG: u8 = 63;

/// Why a frame was refused. Each of these ends the session that sent it.
#[derive(Clone, Copy, Debug, PartialEq, Eq, Structural)]
pub enum DecodeError {
    /// The frame ends before a field that it announces.
    Truncated,
    /// A length field holds a negative number.
    NegativeLength,
    /// A text field is not well-formed UTF-8.
    InvalidText,
    /// A length tag in front of a number is not 4.
    BadTag,
    /// An entry's kind is neither text nor file.
    BadKind,
    /// The frame's opcode is none that the server sends.
    BadOpcode,
}

/// A frame that a client sent.
#[derive(Debug)]
pub enum ClientFrame {
    /// A request for the whole feed.
    QueryAll,
    /// A request to have the entry `id` announced again.
    QuerySingle { id: i32 },
    /// A text message to add to the feed.
    SendText { text: String },
    /// A file to store and add to the feed.
    SendFile { name: String, data: Vec<u8> },
    /// A frame with an opcode that stands for nothing.
    Unknown { opcode: u8 },
}

/// A client's frame as plain values.
pub enum ClientFrameView {
    QueryAll,
    QuerySingle { id: i32 },
    SendText { text: Seq<char> },
    SendFile { name: Seq<char>, data: Seq<u8> },
    Unknown { opcode: u8 },
}

impl View for ClientFrame {
    type V = ClientFrameView;

    open spec fn view(&self) -> ClientFrameView {
        match self {
            ClientFrame::QueryAll => ClientFrameView::QueryAll,
            ClientFrame::QuerySingle { id } => ClientFrameView::QuerySingle { id: *id },
            ClientFrame::SendText { text } => ClientFrameView::SendText { text: text@ },
            ClientFrame::SendFile { name, data } => ClientFrameView::SendFile {
                name: name@,
                data: data@,
            },
            ClientFrame::Unknown { opcode } => ClientFrameView::Unknown { opcode: *opcode },
        }
    }
}

impl ClientFrame {
    /// Whether the frame's text, or its file's name, is short enough for a
    /// frame to carry it. Every frame that was read from bytes is.
    pub open spec fn fits(&self) -> bool {
        match self {
            ClientFrame::SendText { text } => fits_wire(text@),
            ClientFrame::SendFile { name, .. } => fits_wire(name@),
            _ => true,
        }
    }
}

/// The integer at the front of `b`, and what follows it.
pub open spec fn read_i32(b: Seq<u8>) -> Result<(i32, Seq<u8>), DecodeError> {
    if b.len() < 4 {
        Err(DecodeError::Truncated)
    } else {
        Ok((from_le32(b), b.skip(4)))
    }
}

/// The length-prefixed run of bytes at the front of `b`, and what follows it.
/// The announced length is held against the bytes that are left.
pub open spec fn read_block(b: Seq<u8>) -> Result<(Seq<u8>, Seq<u8>), DecodeError> {
    match read_i32(b) {
        Err(e) => Err(e),
        Ok((n, rest)) => if n < 0 {
            Err(DecodeError::NegativeLength)
        } else if n > rest.len() {
            Err(DecodeError::Truncated)
        } else {
            Ok((rest.take(n as int), rest.skip(n as int)))
        },
    }
}

/// The length-prefixed text at the front of `b`, and what follows it.
pub open spec fn read_text(b: Seq<u8>) -> Result<(Seq<char>, Seq<u8>), DecodeError> {
    match read_block(b) {
        Err(e) => Err(e),
        Ok((raw, rest)) => if valid_utf8(raw) {
            Ok((decode_utf8(raw), rest))
        } else {
            Err(DecodeError::InvalidText)
        },
    }
}

/// An integer is read back from its four bytes, whatever follows them.
pub proof fn lemma_read_i32_round_trip(v: i32, rest: Seq<u8>)
    ensures
        read_i32(le32(v) + rest) == Ok::<(i32, Seq<u8>), DecodeError>((v, rest)),
{
    lemma_le32_round_trip(v, rest);
}

/// A text that fits is read back from its length and its UTF-8 form,
/// whatever follows them.
pub proof fn lemma_read_text_round_trip(text: Seq<char>, rest: Seq<u8>)
    requires
        fits_wire(text),
    ensures
        read_text(le32(encode_utf8(text).len() as i32) + (encode_utf8(text) + rest)) == Ok::<
            (Seq<char>, Seq<u8>),
            DecodeError,
        >((text, rest)),
{
    let raw = encode_utf8(text);
    let n: i32 = raw.len() as i32;
    lemma_read_i32_round_trip(n, raw + rest);
    assert((raw + rest).take(n as int) =~= raw);
    assert((raw + rest).skip(n as int) =~= rest);
    vstd::utf8::encode_utf8_valid_utf8(text);
    vstd::utf8::encode_utf8_decode_utf8(text);
}

/// What a client's frame says. Bytes behind the last field are ignored, and
/// so is the body of a frame whose opcode stands for nothing.
pub open spec fn parse_client_frame(b: Seq<u8>) -> Result<ClientFrameView, DecodeError> {
    if b.len() < 1 {
        Err(DecodeError::Truncated)
    } else if b[0] == CLIENT_M_ALL_MSG {
        Ok(ClientFrameView::QueryAll)
    } else if b[0] == CLIENT_M_SINGLE_MSG {
        match read_i32(b.skip(1)) {
            Err(e) => Err(e),
            Ok((id, _)) => Ok(ClientFrameView::QuerySingle { id }),
        }
    } else if b[0] == CLIENT_M_SEND_MSG {
        match read_text(b.skip(1)) {
            Err(e) => Err(e),
            Ok((text, _)) => Ok(ClientFrameView::SendText { text }),
        }
    } else if b[0] == CLIENT_SEND_FILE {
        match read_text(b.skip(1)) {
            Err(e) => Err(e),
            Ok((name, rest)) => match read_block(rest) {
                Err(e) => Err(e),
                Ok((data, _)) => Ok(ClientFrameView::SendFile { name, data }),
            },
        }
    } else {
        Ok(ClientFrameView::Unknown { opcode: b[0] })
    }
}

/// `String::from_utf8`: the text that the bytes spell, exactly where they are
/// well-formed UTF-8.
#[verifier::external_body]
fn text_from_utf8(raw: Vec<u8>) -> (text: Option<String>)
    ensures
        text is Some <==> valid_utf8(raw@),
        text matches Some(t) ==> t@ == decode_utf8(raw@),
{
    match String::from_utf8(raw) {
        Ok(t) => Some(t),
        Err(_) => None,
    }
}

/// Takes the integer at the front of the buffer.
pub(crate) fn take_i32(buf: &mut Bytes) -> (r: Result<i32, DecodeError>)
    ensures
        match read_i32(unread(*old(buf))) {
            Ok((v, rest)) => r == Ok::<i32, DecodeError>(v) && unread(*final(buf)) == rest,
            Err(e) => r == Err::<i32, DecodeError>(e),
        },
{
    if in_remaining(buf) < 4 {
        return Err(DecodeError::Truncated);
    }
    Ok(in_get_i32_le(buf))
}

/// Takes the length-prefixed run of bytes at the front of the buffer.
pub(crate) fn take_block(buf: &mut Bytes) -> (r: Result<Vec<u8>, DecodeError>)
    ensures
        match read_block(unread(*old(buf))) {
            Ok((raw, rest)) => r matches Ok(v) && v@ == raw && unread(*final(buf)) == rest,
            Err(e) => r matches Err(x) && x == e,
        },
{
    let n: i32 = match take_i32(buf) {
        Ok(n) => n,
        Err(e) => {
            return Err(e);
        },
    };
    if n < 0 {
        return Err(DecodeError::NegativeLength);
    }
    let len: usize = n as usize;
    if len > in_remaining(buf) {
        return Err(DecodeError::Truncated);
    }
    let head = in_split_to(buf, len);
    Ok(in_to_vec(&head))
}

/// Takes the length-prefixed text at the front of the buffer.
pub(crate) fn take_text(buf: &mut Bytes) -> (r: Result<String, DecodeError>)
    ensures
        match read_text(unread(*old(buf))) {
            Ok((text, rest)) => r matches Ok(t) && t@ == text && unread(*final(buf)) == rest,
            Err(e) => r matches Err(x) && x == e,
        },
        r matches Ok(t) ==> fits_wire(t@),
{
    let raw: Vec<u8> = match take_block(buf) {
        Ok(raw) => raw,
        Err(e) => {
            return Err(e);
        },
    };
    proof {
        if valid_utf8(raw@) {
            vstd::utf8::decode_utf8_encode_utf8(raw@);
        }
    }
    match text_from_utf8(raw) {
        Some(t) => Ok(t),
        None => Err(DecodeError::InvalidText),
    }
}

/// Reads one frame that a client sent. A frame that ends early, announces a
/// negative length or holds ill-formed text is refused; an opcode that stands
/// for nothing is not.
pub fn decode_client_frame(data: Vec<u8>) -> (r: Result<ClientFrame, DecodeError>)
    ensures
        match parse_client_frame(data@) {
            Ok(f) => r matches Ok(g) && g@ == f,
            Err(e) => r matches Err(x) && x == e,
        },
        r matches Ok(g) ==> g.fits(),
{
    let mut buf = in_from_vec(data);
    if in_remaining(&buf) < 1 {
        return Err(DecodeError::Truncated);
    }
    let opcode: u8 = in_get_u8(&mut buf);
    if opcode == CLIENT_M_ALL_MSG {
        Ok(ClientFrame::QueryAll)
    } else if opcode == CLIENT_M_SINGLE_MSG {
        match take_i32(&mut buf) {
            Ok(id) => Ok(ClientFrame::QuerySingle { id }),
            Err(e) => Err(e),
        }
    } else if opcode == CLIENT_M_SEND_MSG {
        match take_text(&mut buf) {
            Ok(text) => Ok(ClientFrame::SendText { text }),
            Err(e) => Err(e),
        }
    } else if opcode == CLIENT_SEND_FILE {
        let name: String = match take_text(&mut buf) {
            Ok(name) => name,
            Err(e) => {
                return Err(e);
            },
        };
        match take_block(&mut buf) {
            Ok(data) => Ok(ClientFrame::SendFile { name, data }),
            Err(e) => Err(e),
        }
    } else {
        Ok(ClientFrame::Unknown { opcode })
    }
}

} // verus!
