//! Adding and deleting comments.

use vstd::prelude::*;
use crate::authenticate::{authenticated, is_authenticated};
use crate::cookies::{Cookies, cookie_lookup};
use crate::model::{
    AppState, Comment, CommentInput, Id, User, csrf_accepted, csrf_passes, generate_unique_id,
    get_time, is_clock_reading, is_random_uuid,
};

verus! {

/// A new comment by `username` on the post `post_id`, with a fresh
/// identifier and the current time.
pub fn construct_comment(username: &str, post_id: u128, comment_body: String) -> (c: Comment)
    ensures
        c.author@ == username@,
        c.post_id == post_id,
        c.body == comment_body,
        is_random_uuid(c.comment_id),
        is_clock_reading(c.date),
{
    Comment {
        comment_id: generate_unique_id(),
        post_id,
        author: String::from_str(username),
        body: comment_body,
        date: get_time(),
    }
}

/// Answers the form that adds a comment: for a logged-in user whose form
/// carries their CSRF token, the comment to append to the comments file; for
/// any other request, nothing.
pub fn add_comment(state: &AppState, cookie: &Cookies, users: &Vec<User>, input: CommentInput) -> (r:
    Option<Comment>)
    requires
        state.wf(),
    ensures
        r is Some <==> authenticated(state.data@, cookie@) && csrf_accepted(
            state.csrf@,
            cookie@,
            users@,
            input.csrf_token@,
        ),
        r matches Some(c) ==> {
            &&& cookie_lookup(cookie@, "username"@) == Some(c.author@)
            &&& c.post_id == input.post_id
            &&& c.body == input.body
            &&& is_random_uuid(c.comment_id)
            &&& is_clock_reading(c.date)
        },
{
    if is_authenticated(state, cookie) && csrf_passes(state, cookie, users, &input.csrf_token) {
        match cookie.get("username") {
            Some(username) => Some(construct_comment(username.as_str(), input.post_id, input.body)),
            None => {
                proof {
                    assert(false);
                }
                None
            },
        }
    } else {
        None
    }
}

/// Answers the form that deletes a comment: for a logged-in user whose form
/// carries their CSRF token, the identifier to remove from the comments file;
/// for any other request, nothing.
pub fn delete_comment(state: &AppState, cookie: &Cookies, users: &Vec<User>, comment_id: Id) -> (r:
    Option<u128>)
    requires
        state.wf(),
    ensures
        r == (if authenticated(state.data@, cookie@) && csrf_accepted(
            state.csrf@,
            cookie@,
            users@,
            comment_id.csrf_token@,
        ) {
            Some(comment_id.id)
        } else {
            None::<u128>
        }),
{
    if is_authenticated(state, cookie) && csrf_passes(state, cookie, users, &comment_id.csrf_token) {
        Some(comment_id.id)
    } else {
        None
    }
}

} // verus!
