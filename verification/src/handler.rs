//! The pages and account requests: which page a visitor is shown, deleting
//! an account, and handing out the CSRF token.

use vstd::prelude::*;
use crate::authenticate::{authenticated, is_authenticated};
use crate::cookies::{Cookies, cookie_lookup};
use crate::model::{
    AppState, User, csrf_key, get_user_id, id_text, names_known_user, user_id_lookup,
    user_json_dir, user_json_path,
};

verus! {

/// The pages that the server shows.
#[derive(PartialEq, Eq, Structural, Debug, Clone, Copy)]
pub enum Page {
    /// The home page of a logged-in user.
    Home,
    /// The page that tells a visitor to log in.
    NotAuthenticated,
    /// The page that tells a logged-in user there is nothing to do.
    AlreadyLoggedIn,
    /// The login form.
    Login,
    /// The registration form.
    Register,
}

/// The page shown at `/login`.
pub fn login(state: &AppState, cookie: &Cookies) -> (p: Page)
    requires
        state.wf(),
    ensures
        p == (if authenticated(state.data@, cookie@) {
            Page::AlreadyLoggedIn
        } else {
            Page::Login
        }),
{
    if is_authenticated(state, cookie) {
        Page::AlreadyLoggedIn
    } else {
        Page::Login
    }
}

/// The page shown at `/register`.
pub fn register(state: &AppState, cookie: &Cookies) -> (p: Page)
    requires
        state.wf(),
    ensures
        p == (if authenticated(state.data@, cookie@) {
            Page::AlreadyLoggedIn
        } else {
            Page::Register
        }),
{
    if is_authenticated(state, cookie) {
        Page::AlreadyLoggedIn
    } else {
        Page::Register
    }
}

/// The page shown at `/`.
pub fn home(state: &AppState, cookie: &Cookies) -> (p: Page)
    requires
        state.wf(),
    ensures
        p == (if authenticated(state.data@, cookie@) {
            Page::Home
        } else {
            Page::NotAuthenticated
        }),
{
    if is_authenticated(state, cookie) {
        Page::Home
    } else {
        Page::NotAuthenticated
    }
}

/// Answers a request to delete the account named in the `username` cookie:
/// for a logged-in user, the identifier of the account to remove from the
/// users file and the path of the user's own file, which is removed; for
/// anyone else, nothing.
pub fn del_user(state: &AppState, cookie: &Cookies, users: &Vec<User>) -> (r: Option<(u128, String)>)
    requires
        state.wf(),
        names_known_user(cookie@, users@),
    ensures
        r is Some <==> authenticated(state.data@, cookie@),
        r matches Some((id, path)) ==> {
            let name = cookie_lookup(cookie@, "username"@).unwrap();
            &&& Some(id) == user_id_lookup(users@, name)
            &&& path@ == user_json_dir() + name + ".json"@
        },
{
    let username = match cookie.get("username") {
        Some(u) => u,
        None => {
            proof {
                assert(false);
            }
            return None;
        },
    };
    let user_id = match get_user_id(users, username.as_str()) {
        Ok(id) => id,
        Err(_) => {
            proof {
                assert(false);
            }
            return None;
        },
    };
    if is_authenticated(state, cookie) {
        Some((user_id, user_json_path(username.as_str())))
    } else {
        None
    }
}

/// Whether the server holds a CSRF token for the request's user: under the
/// text of the identifier of the first user with the name in the `username`
/// cookie.
pub fn holds_csrf_token(state: &AppState, cookie: &Cookies, users: &Vec<User>) -> (r: bool)
    requires
        state.wf(),
        names_known_user(cookie@, users@),
    ensures
        r == state.csrf@.contains_key(csrf_key(cookie@, users@)),
{
    let username = match cookie.get("username") {
        Some(u) => u,
        None => {
            proof {
                assert(false);
            }
            return false;
        },
    };
    let user_id = match get_user_id(users, username.as_str()) {
        Ok(id) => id,
        Err(_) => {
            proof {
                assert(false);
            }
            return false;
        },
    };
    let key = id_text(user_id);
    match state.csrf.get(&key) {
        Some(_) => true,
        None => false,
    }
}

/// The CSRF token of the request's user: for a logged-in user, the CSRF token
/// that the server holds under the text of the identifier of the first user
/// with the name in the `username` cookie; `None` for a request that is not
/// authenticated.
pub fn get_csrf_token(state: &AppState, cookie: &Cookies, users: &Vec<User>) -> (r: Option<String>)
    requires
        state.wf(),
        names_known_user(cookie@, users@),
        authenticated(state.data@, cookie@) ==> state.csrf@.contains_key(csrf_key(cookie@, users@)),
    ensures
        r is Some <==> authenticated(state.data@, cookie@),
        r matches Some(t) ==> t@ == state.csrf@[csrf_key(cookie@, users@)],
{
    let username = match cookie.get("username") {
        Some(u) => u,
        None => {
            proof {
                assert(false);
            }
            return None;
        },
    };
    let user_id = match get_user_id(users, username.as_str()) {
        Ok(id) => id,
        Err(_) => {
            proof {
                assert(false);
            }
            return None;
        },
    };
    if !is_authenticated(state, cookie) {
        return None;
    }
    let key = id_text(user_id);
    match state.csrf.get(&key) {
        Some(token) => Some(token.clone()),
        None => {
            proof {
                assert(false);
            }
            None
        },
    }
}

} // verus!
