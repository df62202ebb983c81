//! What the serving layer answers to a request, given what the store said.
//!
//! The functions here decide; they read nothing and send nothing. A request
//! to show a path takes one look at the store, a request to edit one takes up
//! to two: first whether the path can exist, then what it holds.

use vstd::prelude::*;
use vstd::utf8::{decode_utf8, encode_utf8, valid_utf8};
use crate::git::GitError;
use crate::path::{joined, split, Path};
use crate::percent::encoded;
use crate::text::{ascii_text, lossy, lossy_text};

verus! {

/// The file that a directory is shown as.
pub const INDEX_FILE: &'static str = "index.md";

/// The status of a page that was found.
pub const STATUS_OK: u16 = 200;

/// The status of a redirection.
pub const STATUS_FOUND: u16 = 302;

/// The status of a page about something that does not exist.
pub const STATUS_NOT_FOUND: u16 = 404;

/// The status of a failure inside the server.
pub const STATUS_INTERNAL_ERROR: u16 = 500;

/// A page to render, with the values that its template takes.
#[derive(Debug)]
pub enum Page {
    /// A file: template `get.html`.
    Get { path: String, content: String },
    /// Nothing exists at the path: template `get_not_found.html`.
    GetNotFound { path: String },
    /// Nothing can exist at the path: template `edit_could_not_exist.html`.
    EditCouldNotExist { path: String },
    /// The form to edit a file, with its current content where it exists:
    /// template `edit.html`.
    Edit { path: String, current: Option<String> },
}

/// The answer to a request.
#[derive(Debug)]
pub enum Reply {
    /// A page, rendered as HTML.
    Html { status: u16, page: Page },
    /// A redirection to another location, with an empty body.
    Redirect { status: u16, location: String },
    /// The store failed: an internal error.
    Failure { error: GitError },
}

/// What to do next for a request to edit.
#[derive(Debug)]
pub enum EditStep {
    /// Answer at once.
    Answer { reply: Reply },
    /// Read the item's content and go on with [`edit_reply`].
    ReadContent,
}

/// Whether `text` is how `bytes` are shown: as the text that they are read
/// as, which for valid UTF-8 is the text that they encode.
pub open spec fn shows_bytes(text: Seq<char>, bytes: Seq<u8>) -> bool {
    text == lossy(bytes) && (valid_utf8(bytes) ==> text == decode_utf8(bytes))
}

/// Whether `text` is how `path` is shown: as its byte form is.
pub open spec fn shows_path(text: Seq<char>, path: Seq<Seq<u8>>) -> bool {
    shows_bytes(text, joined(path))
}

/// Where a request for the directory `path` is sent: to the index file in
/// it, percent-encoded, from the server's root.
pub open spec fn index_location(path: Seq<Seq<u8>>) -> Seq<char> {
    "/"@ + ascii_text(encoded(joined(path + split(encode_utf8(INDEX_FILE@)))))
}

/// What a client is told of a failure inside the server.
pub fn failure_text() -> (text: String)
    ensures
        text@ == "An internal error occurred."@,
{
    "An internal error occurred.".to_owned()
}

/// The answer to a request to show `path`, given what reading its content
/// gave: a file is shown, a directory redirects to its index file, a path
/// that names nothing gets the page that says so, and any other failure is
/// an internal error.
pub fn get_reply(path: &Path, content: Result<Vec<u8>, GitError>) -> (reply: Reply)
    ensures
        match content {
            Ok(bytes) => {
                &&& reply matches Reply::Html { status, page: Page::Get { path: shown, content: text } }
                &&& status == STATUS_OK
                &&& shows_path(shown@, path@)
                &&& shows_bytes(text@, bytes@)
            },
            Err(GitError::IsDir) => {
                &&& reply matches Reply::Redirect { status, location }
                &&& status == STATUS_FOUND
                &&& location@ == index_location(path@)
            },
            Err(GitError::NotFound) => {
                &&& reply matches Reply::Html { status, page: Page::GetNotFound { path: shown } }
                &&& status == STATUS_NOT_FOUND
                &&& shows_path(shown@, path@)
            },
            Err(error) => reply == (Reply::Failure { error }),
        },
{
    match content {
        Ok(bytes) => Reply::Html {
            status: STATUS_OK,
            page: Page::Get { path: path.to_string(), content: lossy_text(bytes.as_slice()) },
        },
        Err(GitError::IsDir) => {
            let mut redirect_path = path.clone();
            redirect_path.push(INDEX_FILE.as_bytes());
            let mut location = "/".to_owned();
            location.push_str(redirect_path.percent_encode().as_str());
            Reply::Redirect { status: STATUS_FOUND, location }
        },
        Err(GitError::NotFound) => Reply::Html {
            status: STATUS_NOT_FOUND,
            page: Page::GetNotFound { path: path.to_string() },
        },
        Err(error) => Reply::Failure { error },
    }
}

/// The first step of a request to edit `path`, given whether the path can
/// exist: where it cannot, the page that says so; where the store failed, an
/// internal error; else the content is to be read.
pub fn edit_begin(path: &Path, possible: Result<bool, GitError>) -> (step: EditStep)
    ensures
        match possible {
            Ok(true) => step is ReadContent,
            Ok(false) => {
                &&& step matches EditStep::Answer {
                    reply: Reply::Html { status, page: Page::EditCouldNotExist { path: shown } },
                }
                &&& status == STATUS_NOT_FOUND
                &&& shows_path(shown@, path@)
            },
            Err(error) => step == (EditStep::Answer { reply: Reply::Failure { error } }),
        },
{
    match possible {
        Ok(true) => EditStep::ReadContent,
        Ok(false) => EditStep::Answer {
            reply: Reply::Html {
                status: STATUS_NOT_FOUND,
                page: Page::EditCouldNotExist { path: path.to_string() },
            },
        },
        Err(error) => EditStep::Answer { reply: Reply::Failure { error } },
    }
}

/// The answer to a request to edit `path`, given what reading its content
/// gave: the form with the content of a file that exists, the empty form for
/// a path that names nothing, and an internal error for any other failure.
pub fn edit_reply(path: &Path, content: Result<Vec<u8>, GitError>) -> (reply: Reply)
    ensures
        match content {
            Ok(bytes) => {
                &&& reply matches Reply::Html {
                    status,
                    page: Page::Edit { path: shown, current: Some(text) },
                }
                &&& status == STATUS_OK
                &&& shows_path(shown@, path@)
                &&& shows_bytes(text@, bytes@)
            },
            Err(GitError::NotFound) => {
                &&& reply matches Reply::Html { status, page: Page::Edit { path: shown, current: None } }
                &&& status == STATUS_OK
                &&& shows_path(shown@, path@)
            },
            Err(error) => reply == (Reply::Failure { error }),
        },
{
    match content {
        Ok(bytes) => Reply::Html {
            status: STATUS_OK,
            page: Page::Edit {
                path: path.to_string(),
                current: Some(lossy_text(bytes.as_slice())),
            },
        },
        Err(GitError::NotFound) => Reply::Html {
            status: STATUS_OK,
            page: Page::Edit { path: path.to_string(), current: None },
        },
        Err(error) => Reply::Failure { error },
    }
}

} // verus!
