//! What the forms of the board hold.

use vstd::prelude::*;

verus! {

/// The payload of the form that opens a thread.
pub struct NewThread {
    pub name: Option<String>,
    pub message: String,
    pub title: Option<String>,
}

/// The payload of the form that adds a post to a thread.
pub struct NewPost {
    pub name: Option<String>,
    pub message: String,
}

} // verus!
