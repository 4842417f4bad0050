//! The records of the board: threads, posts and images, as they are read
//! from the database and as they are handed to it.

use vstd::prelude::*;
use vstd::std_specs::convert::FromSpecImpl;

verus! {

/// An image that is about to be stored.
pub struct ImageNew {
    pub name: String,
    pub path: String,
    pub preview_path: String,
}

/// A stored image.
pub struct Image {
    pub id: i64,
    pub name: String,
    pub path: String,
    pub preview_path: String,
}

/// A thread that is about to be opened, with what its first post holds.
pub struct ThreadNew {
    pub board: String,
    pub title: String,
    pub name: String,
    pub message: String,
    pub image: Option<ImageNew>,
}

/// A post that is about to be stored.
pub struct PostNew {
    pub thread: i32,
    pub name: String,
    pub message: String,
    pub identity: String,
    pub image: Option<ImageNew>,
}

/// A thread as the database holds it. `last_updated` is in seconds since
/// the Unix epoch.
pub struct Thread {
    pub id: i32,
    pub last_updated: i64,
    pub open: bool,
    pub board: String,
    pub title: String,
}

/// A post as clients see it. `timestamp` is in seconds since the Unix epoch.
pub struct Post {
    pub id: i64,
    pub thread: i32,
    pub name: String,
    pub timestamp: i64,
    pub message: String,
    pub image: Option<Image>,
}

/// A post as one row of the database holds it, joined with its image: the
/// four columns of the image are all null when the post has none. `date` is
/// in seconds since the Unix epoch.
pub struct PostInner {
    pub id: i64,
    pub thread: i32,
    pub name: String,
    pub date: i64,
    pub message: String,
    pub identity: String,
    pub image_id: Option<i64>,
    pub image_name: Option<String>,
    pub image_path: Option<String>,
    pub image_preview_path: Option<String>,
}

/// A thread together with its posts, oldest first.
pub struct ThreadWithPosts {
    pub id: i32,
    pub board: String,
    pub open: bool,
    pub title: String,
    pub posts: Vec<Post>,
}

impl ThreadNew {
    /// The first post of the thread, once the thread has its identifier.
    pub fn first_post(self, thread: i32, identity: String) -> (post: PostNew)
        ensures
            post == (PostNew {
                thread,
                name: self.name,
                message: self.message,
                identity,
                image: self.image,
            }),
    {
        PostNew { thread, name: self.name, message: self.message, identity, image: self.image }
    }
}

impl PostInner {
    /// Whether the row holds either no image or all of one.
    pub open spec fn complete(self) -> bool {
        self.image_id is Some ==> self.image_name is Some && self.image_path is Some
            && self.image_preview_path is Some
    }

    /// The image of the row, if it has one.
    pub open spec fn image(self) -> Option<Image> {
        match self.image_id {
            Some(id) => Some(
                Image {
                    id,
                    name: self.image_name->0,
                    path: self.image_path->0,
                    preview_path: self.image_preview_path->0,
                },
            ),
            None => None,
        }
    }

    /// Tells whether the row holds either no image or all of one.
    pub fn is_complete(&self) -> (complete: bool)
        ensures
            complete == self.complete(),
    {
        self.image_id.is_none() || (self.image_name.is_some() && self.image_path.is_some()
            && self.image_preview_path.is_some())
    }
}

impl Post {
    /// The post that a row stands for. The identity of the author stays
    /// behind.
    pub fn from(pi: PostInner) -> (post: Post)
        requires
            pi.complete(),
        ensures
            post == (Post {
                id: pi.id,
                thread: pi.thread,
                name: pi.name,
                timestamp: pi.date,
                message: pi.message,
                image: pi.image(),
            }),
    {
        let image = match pi.image_id {
            Some(id) => match (pi.image_name, pi.image_path, pi.image_preview_path) {
                (Some(name), Some(path), Some(preview_path)) => Some(
                    Image { id, name, path, preview_path },
                ),
                _ => None,
            },
            None => None,
        };
        Post {
            id: pi.id,
            thread: pi.thread,
            name: pi.name,
            timestamp: pi.date,
            message: pi.message,
            image,
        }
    }
}

impl From<(Thread, Vec<Post>)> for ThreadWithPosts {
    fn from(pair: (Thread, Vec<Post>)) -> (thread: ThreadWithPosts) {
        let (thread, posts) = pair;
        ThreadWithPosts {
            id: thread.id,
            board: thread.board,
            open: thread.open,
            title: thread.title,
            posts,
        }
    }
}

impl FromSpecImpl<(Thread, Vec<Post>)> for ThreadWithPosts {
    open spec fn obeys_from_spec() -> bool {
        true
    }

    open spec fn from_spec(pair: (Thread, Vec<Post>)) -> ThreadWithPosts {
        ThreadWithPosts {
            id: pair.0.id,
            board: pair.0.board,
            open: pair.0.open,
            title: pair.0.title,
            posts: pair.1,
        }
    }
}

} // verus!
