//! The rules of the request handlers: what a form must hold and how its
//! fields are cut to size before they are stored.

pub mod error;
pub mod types;

use crate::db::model::{ImageNew, PostNew, ThreadNew};
use crate::handlers::error::RequestError;
use crate::handlers::types::{NewPost, NewThread};
use crate::util::multipart::SavedFile;
use vstd::prelude::*;

verus! {

/// The most characters that the title of a thread keeps.
pub const TITLE_LIMIT: usize = 100;

/// The most characters that the name of an author keeps.
pub const NAME_LIMIT: usize = 50;

/// The most characters that a message keeps.
pub const MESSAGE_LIMIT: usize = 5000;

/// The first `limit` characters of a text, or all of it when it is shorter.
pub open spec fn truncated(text: Seq<char>, limit: nat) -> Seq<char> {
    if text.len() <= limit {
        text
    } else {
        text.take(limit as int)
    }
}

/// The text of an optional field, empty when the field is absent.
pub open spec fn or_empty(text: Option<String>) -> Seq<char> {
    match text {
        Some(text) => text@,
        None => Seq::empty(),
    }
}

/// The image that comes with a form: the first upload, stored under its
/// path, which also serves as its preview.
pub open spec fn first_image(images: Seq<SavedFile>, image: Option<ImageNew>) -> bool {
    if images.len() == 0 {
        image is None
    } else {
        image matches Some(image) && image.name == images[0].name && image.path == images[0].path
            && image.preview_path == images[0].path
    }
}

/// Cuts a text to its first `limit` characters.
fn truncate(text: &str, limit: usize) -> (cut: String)
    ensures
        cut@ == truncated(text@, limit as nat),
{
    if text.unicode_len() <= limit {
        text.to_owned()
    } else {
        text.substring_char(0, limit).to_owned()
    }
}

/// Cuts the text of an optional field to its first `limit` characters.
fn truncate_optional(text: &Option<String>, limit: usize) -> (cut: String)
    ensures
        cut@ == truncated(or_empty(*text), limit as nat),
{
    match text {
        Some(text) => truncate(text.as_str(), limit),
        None => String::new(),
    }
}

/// Makes the image of a form from the first of its uploads.
fn take_image(images: Vec<SavedFile>) -> (image: Option<ImageNew>)
    ensures
        first_image(images@, image),
{
    let mut images = images;
    if images.len() > 0 {
        let first = images.remove(0);
        Some(ImageNew { name: first.name, path: first.path.clone(), preview_path: first.path })
    } else {
        None
    }
}

/// Whether `thread` is what the form `info` with the uploads `images` asks
/// to open on `board`.
pub open spec fn is_new_thread(
    thread: ThreadNew,
    board: String,
    info: NewThread,
    images: Seq<SavedFile>,
) -> bool {
    &&& thread.board == board
    &&& thread.title@ == truncated(or_empty(info.title), TITLE_LIMIT as nat)
    &&& thread.name@ == truncated(or_empty(info.name), NAME_LIMIT as nat)
    &&& thread.message@ == truncated(info.message@, MESSAGE_LIMIT as nat)
    &&& first_image(images, thread.image)
}

/// Whether `post` is what the form `info` with the uploads `images` asks to
/// add to `thread` in the name of `identity`.
pub open spec fn is_new_post(
    post: PostNew,
    identity: String,
    thread: i32,
    info: NewPost,
    images: Seq<SavedFile>,
) -> bool {
    &&& post.identity == identity
    &&& post.thread == thread
    &&& post.name@ == truncated(or_empty(info.name), NAME_LIMIT as nat)
    &&& post.message@ == truncated(info.message@, MESSAGE_LIMIT as nat)
    &&& first_image(images, post.image)
}

/// Makes the thread that a form asks for. A thread needs an image: without
/// an upload the request is a bad one.
pub fn new_thread(board: String, info: NewThread, images: Vec<SavedFile>) -> (thread: Result<
    ThreadNew,
    RequestError,
>)
    ensures
        match thread {
            Ok(thread) => images@.len() > 0 && is_new_thread(thread, board, info, images@),
            Err(error) => images@.len() == 0 && (error matches RequestError::BadRequest(reason)
                && reason@ == "Threads should have an image"@),
        },
{
    if images.len() == 0 {
        return Err(RequestError::BadRequest(String::from_str("Threads should have an image")));
    }
    let title = truncate_optional(&info.title, TITLE_LIMIT);
    let name = truncate_optional(&info.name, NAME_LIMIT);
    let message = truncate(info.message.as_str(), MESSAGE_LIMIT);
    Ok(ThreadNew { board, title, name, message, image: take_image(images) })
}

/// Makes the post that a form asks for.
pub fn new_post(identity: String, thread: i32, info: NewPost, images: Vec<SavedFile>) -> (post:
    PostNew)
    ensures
        is_new_post(post, identity, thread, info, images@),
{
    let name = truncate_optional(&info.name, NAME_LIMIT);
    let message = truncate(info.message.as_str(), MESSAGE_LIMIT);
    PostNew { thread, name, message, identity, image: take_image(images) }
}

} // verus!
