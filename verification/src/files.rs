//! Answers to requests for a stored file: where it lies below the storage
//! directory, and what is sent once it was read, or could not be.

use vstd::prelude::*;

verus! {

/// The status of an answer that carries the file.
pub const STATUS_OK: u16 = 200;

/// The status of an answer for a file that is not there.
pub const STATUS_NO_CONTENT: u16 = 204;

/// An answer to a request for a file.
#[derive(Debug)]
pub struct FileReply {
    /// The HTTP status.
    pub status: u16,
    /// The value of the content type header.
    pub content_type: String,
    /// The body.
    pub body: Vec<u8>,
}

/// The path without the slashes it begins with.
pub open spec fn trim_slashes(path: Seq<char>) -> Seq<char>
    decreases path.len(),
{
    if path.len() > 0 && path[0] == '/' {
        trim_slashes(path.drop_first())
    } else {
        path
    }
}

/// The media type that `mime_guess` has for a path: the first one it lists
/// for the path's extension, and `text/plain` where it lists none.
pub uninterp spec fn guessed_type(path: Seq<char>) -> Seq<char>;

/// `str::trim_start_matches` with a slash as the pattern: the rest of the path
/// behind every slash at its start.
#[verifier::external_body]
fn trim_leading_slashes<'a>(path: &'a str) -> (rest: &'a str)
    ensures
        rest@ == trim_slashes(path@),
{
    path.trim_start_matches('/')
}

/// `mime_guess::from_path` followed by `MimeGuess::first_or_text_plain`, as
/// text. The guess goes by the path's extension alone and reads no file, so
/// one path always gets one answer.
#[verifier::external_body]
fn guess_type(path: &str) -> (media_type: String)
    ensures
        media_type@ == guessed_type(path@),
{
    mime_guess::from_path(path).first_or_text_plain().as_ref().to_string()
}

/// Where the requested file lies below the storage directory.
pub fn relative_path(path: &str) -> (rest: &str)
    ensures
        rest@ == trim_slashes(path@),
{
    trim_leading_slashes(path)
}

/// The answer for a file of the given media type: its bytes where it was
/// read, and an empty answer without a media type where it was not.
pub fn file_reply(media_type: String, content: Option<Vec<u8>>) -> (reply: FileReply)
    ensures
        match content {
            Some(bytes) => {
                &&& reply.status == STATUS_OK
                &&& reply.content_type@ == media_type@
                &&& reply.body@ == bytes@
            },
            None => {
                &&& reply.status == STATUS_NO_CONTENT
                &&& reply.content_type@ == Seq::<char>::empty()
                &&& reply.body@ == Seq::<u8>::empty()
            },
        },
{
    match content {
        Some(bytes) => FileReply { status: STATUS_OK, content_type: media_type, body: bytes },
        None => FileReply {
            status: STATUS_NO_CONTENT,
            content_type: String::new(),
            body: Vec::new(),
        },
    }
}

/// The answer to a request for the file at `path`, given what reading it
/// below the storage directory brought.
pub fn query_file(path: &str, content: Option<Vec<u8>>) -> (reply: FileReply)
    ensures
        match content {
            Some(bytes) => {
                &&& reply.status == STATUS_OK
                &&& reply.content_type@ == guessed_type(trim_slashes(path@))
                &&& reply.body@ == bytes@
            },
            None => {
                &&& reply.status == STATUS_NO_CONTENT
                &&& reply.content_type@ == Seq::<char>::empty()
                &&& reply.body@ == Seq::<u8>::empty()
            },
        },
{
    let media_type = guess_type(relative_path(path));
    file_reply(media_type, content)
}

} // verus!
