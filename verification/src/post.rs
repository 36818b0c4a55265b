//! Adding and deleting posts.

use vstd::prelude::*;
use crate::authenticate::{authenticated, is_authenticated};
use crate::cookies::{Cookies, cookie_lookup};
use crate::model::{
    AppState, Id, Post, PostInput, User, csrf_accepted, csrf_passes, generate_unique_id, get_time,
    is_clock_reading, is_random_uuid, user_json_dir, user_json_path,
};

verus! {

/// A new post by `username`, with a fresh identifier and the current time.
pub fn construct_post(username: &str, post_title: String, post_body: String) -> (p: Post)
    ensures
        p.author@ == username@,
        p.title == post_title,
        p.body == post_body,
        is_random_uuid(p.post_id),
        is_clock_reading(p.date),
{
    Post {
        post_id: generate_unique_id(),
        title: post_title,
        author: String::from_str(username),
        body: post_body,
        date: get_time(),
    }
}

/// Answers the form that adds a post: for a logged-in user whose form
/// carries their CSRF token, the post to append to the posts file and to the
/// author's file; for any other request, nothing.
pub fn add_post(state: &AppState, cookie: &Cookies, users: &Vec<User>, input: PostInput) -> (r:
    Option<Post>)
    requires
        state.wf(),
    ensures
        r is Some <==> authenticated(state.data@, cookie@) && csrf_accepted(
            state.csrf@,
            cookie@,
            users@,
            input.csrf_token@,
        ),
        r matches Some(p) ==> {
            &&& cookie_lookup(cookie@, "username"@) == Some(p.author@)
            &&& p.title == input.title
            &&& p.body == input.body
            &&& is_random_uuid(p.post_id)
            &&& is_clock_reading(p.date)
        },
{
    if is_authenticated(state, cookie) && csrf_passes(state, cookie, users, &input.csrf_token) {
        match cookie.get("username") {
            Some(username) => Some(construct_post(username.as_str(), input.title, input.body)),
            None => {
                proof {
                    assert(false);
                }
                None
            },
        }
    } else {
        None
    }
}

/// Answers the form that deletes a post: for a logged-in user whose form
/// carries their CSRF token, the identifier to remove from the posts file and
/// the path of the user's own file, from which it is removed too; for any
/// other request, nothing.
pub fn delete_post(state: &AppState, cookie: &Cookies, users: &Vec<User>, post_id: Id) -> (r:
    Option<(u128, String)>)
    requires
        state.wf(),
        cookie_lookup(cookie@, "username"@) is Some,
    ensures
        r is Some <==> authenticated(state.data@, cookie@) && csrf_accepted(
            state.csrf@,
            cookie@,
            users@,
            post_id.csrf_token@,
        ),
        r matches Some((id, path)) ==> {
            &&& id == post_id.id
            &&& path@ == user_json_dir() + cookie_lookup(cookie@, "username"@).unwrap() + ".json"@
        },
{
    let user = match cookie.get("username") {
        Some(u) => u,
        None => {
            proof {
                assert(false);
            }
            return None;
        },
    };
    let user_json = user_json_path(user.as_str());
    if is_authenticated(state, cookie) && csrf_passes(state, cookie, users, &post_id.csrf_token) {
        Some((post_id.id, user_json))
    } else {
        None
    }
}

} // verus!
