//! Comments on feeds. Comment storage and listing are plain CRUD handled by
//! the server around the library; only the request body type lives here.

use vstd::prelude::*;

verus! {

/// The body of a comment-creation request.
pub struct NewComment {
    pub content: String,
}

} // verus!
