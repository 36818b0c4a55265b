//! Logging in, registering, and telling whether a request comes from a
//! logged-in user.

use vstd::prelude::*;
use vstd::utf8::encode_utf8;
use crate::cookies::{Cookies, cookie_lookup};
use crate::model::{
    AppState, User, UserInput, generate_unique_id, get_user_id, id_text, is_random_uuid,
    lemma_listed_user_found, lemma_new_user_found, name_taken, names_unique, user_id_lookup, uuid_text,
};

verus! {

/// A request is authenticated when it carries a `session_token` cookie and a
/// `username` cookie, and the server holds exactly that token for that user.
pub open spec fn authenticated(
    sessions: Map<Seq<char>, Seq<char>>,
    cookies: Seq<(Seq<char>, Seq<char>)>,
) -> bool {
    match (cookie_lookup(cookies, "session_token"@), cookie_lookup(cookies, "username"@)) {
        (Some(token), Some(user)) => sessions.contains_key(user) && sessions[user] == token,
        _ => false,
    }
}

/// Whether the request with these cookies comes from a logged-in user.
pub fn is_authenticated(state: &AppState, cookie: &Cookies) -> (r: bool)
    requires
        state.wf(),
    ensures
        r == authenticated(state.data@, cookie@),
{
    match cookie.get("session_token") {
        Some(token) => {
            match cookie.get("username") {
                Some(user) => {
                    match state.data.get(user) {
                        Some(held) => *token == *held,
                        None => false,
                    }
                },
                None => false,
            }
        },
        None => false,
    }
}

/// The answer to a login or registration form: a redirect status, the cookies
/// it sets, where it redirects to, and the text of its body.
pub struct AuthResponse {
    pub status: u16,
    pub logged_in: bool,
    pub set_cookies: Vec<String>,
    pub location: Option<String>,
    pub body: String,
}

pub struct AuthResponseView {
    pub status: u16,
    pub logged_in: bool,
    pub set_cookies: Seq<Seq<char>>,
    pub location: Option<Seq<char>>,
    pub body: Seq<char>,
}

impl View for AuthResponse {
    type V = AuthResponseView;

    open spec fn view(&self) -> AuthResponseView {
        AuthResponseView {
            status: self.status,
            logged_in: self.logged_in,
            set_cookies: self.set_cookies@.map_values(|s: String| s@),
            location: match self.location {
                Some(l) => Some(l@),
                None => None,
            },
            body: self.body@,
        }
    }
}

/// HTTP 303 See Other.
pub open spec fn see_other() -> u16 {
    303
}

/// The answer that opens a session: it sets the `authenticated`,
/// `session_token` and `username` cookies and redirects to `/`.
pub open spec fn session_opened(token: Seq<char>, username: Seq<char>, body: Seq<char>) -> AuthResponseView {
    AuthResponseView {
        status: see_other(),
        logged_in: true,
        set_cookies: seq![
            "authenticated=yes"@,
            "session_token="@ + token,
            "username="@ + username,
        ],
        location: Some("/"@),
        body: body,
    }
}

/// The answer that refuses: it sets `authenticated=no` and does not redirect.
pub open spec fn refused(body: Seq<char>) -> AuthResponseView {
    AuthResponseView {
        status: see_other(),
        logged_in: false,
        set_cookies: seq!["authenticated=no"@],
        location: None,
        body: body,
    }
}

pub open spec fn login_body() -> Seq<char> {
    "Logged in!"@
}

pub open spec fn login_refused_body() -> Seq<char> {
    "incorrect username or password!"@
}

pub open spec fn username_taken_body() -> Seq<char> {
    "username already exists! Please choose a different one."@
}

pub open spec fn registered_body() -> Seq<char> {
    "logged in with your new account! Please redirect to the homepage."@
}

fn opened_response(token: &String, username: &String, body: &str) -> (r: AuthResponse)
    ensures
        r@ == session_opened(token@, username@, body@),
{
    let mut cookies: Vec<String> = Vec::new();
    cookies.push(String::from_str("authenticated=yes"));
    let mut session = String::from_str("session_token=");
    session.append(token.as_str());
    cookies.push(session);
    let mut name = String::from_str("username=");
    name.append(username.as_str());
    cookies.push(name);
    let r = AuthResponse {
        status: 303,
        logged_in: true,
        set_cookies: cookies,
        location: Some(String::from_str("/")),
        body: String::from_str(body),
    };
    assert(r@.set_cookies =~= session_opened(token@, username@, body@).set_cookies);
    r
}

fn refused_response(body: &str) -> (r: AuthResponse)
    ensures
        r@ == refused(body@),
{
    let mut cookies: Vec<String> = Vec::new();
    cookies.push(String::from_str("authenticated=no"));
    let r = AuthResponse {
        status: 303,
        logged_in: false,
        set_cookies: cookies,
        location: None,
        body: String::from_str(body),
    };
    assert(r@.set_cookies =~= refused(body@).set_cookies);
    r
}

#[verifier::external_type_specification]
#[verifier::external_body]
pub struct ExArgon2Error(argon2::Error);

/// The encoded Argon2 hash that `argon2::hash_encoded` computes from `pwd`
/// and `salt` with the crate's default configuration.
pub uninterp spec fn argon2_encoded(pwd: Seq<u8>, salt: Seq<u8>) -> Seq<char>;

/// Calls `argon2::hash_encoded(pwd, salt, &argon2::Config::default())`.
///
/// Claimed: with the default configuration the call succeeds exactly when the
/// password is at most `u32::MAX` bytes and the salt has between 8 and
/// `u32::MAX` bytes (the checks of `Context::new` in rust-argon2); on success
/// the text is the encoded hash of these bytes, named `argon2_encoded`.
#[verifier::external_body]
fn hash_encoded(pwd: &[u8], salt: &[u8]) -> (r: Result<String, argon2::Error>)
    ensures
        r is Ok <==> (pwd@.len() <= u32::MAX && 8 <= salt@.len() <= u32::MAX),
        r matches Ok(s) ==> s@ == argon2_encoded(pwd@, salt@),
{
    argon2::hash_encoded(pwd, salt, &argon2::Config::default())
}

/// Thirty-two random bytes.
///
/// Calls `rand::random::<[u8; 32]>()`. Claimed: the result has 32 bytes;
/// nothing is claimed of their values.
#[verifier::external_body]
fn random_salt() -> (salt: Vec<u8>)
    ensures
        salt@.len() == 32,
{
    rand::random::<[u8; 32]>().to_vec()
}

/// A user name short enough to be hashed into a session token.
pub open spec fn token_input_fits(username: Seq<char>) -> bool {
    encode_utf8(username).len() <= u32::MAX
}

/// `token` is the Argon2 hash of the UTF-8 bytes of `username` under some
/// 32-byte salt.
pub open spec fn is_session_token_for(token: Seq<char>, username: Seq<char>) -> bool {
    exists|salt: Seq<u8>| salt.len() == 32 && token == argon2_encoded(encode_utf8(username), salt)
}

/// A fresh session token for `username`: its Argon2 hash under a random salt.
pub fn new_session_token(username: &String) -> (t: String)
    requires
        token_input_fits(username@),
    ensures
        is_session_token_for(t@, username@),
{
    let salt = random_salt();
    let pwd = username.as_str().as_bytes();
    match hash_encoded(pwd, salt.as_slice()) {
        Ok(t) => t,
        Err(_) => {
            proof {
                assert(false);
            }
            String::new()
        },
    }
}

/// Some user has exactly this name and password.
pub open spec fn credentials_valid(users: Seq<User>, name: Seq<char>, password: Seq<char>) -> bool {
    exists|i: int|
        0 <= i < users.len() && (#[trigger] users[i]).username@ == name && users[i].password@
            == password
}

/// Whether some user has exactly the name and password of `user`.
pub fn credentials_match(users: &Vec<User>, user: &UserInput) -> (r: bool)
    ensures
        r == credentials_valid(users@, user.username@, user.password@),
{
    let mut i: usize = 0;
    while i < users.len()
        invariant
            0 <= i <= users@.len(),
            forall|j: int|
                0 <= j < i ==> !((#[trigger] users@[j]).username@ == user.username@
                    && users@[j].password@ == user.password@),
        decreases users.len() - i,
    {
        if users[i].username == user.username && users[i].password == user.password {
            return true;
        }
        i = i + 1;
    }
    false
}

/// Whether some user already has the name `username`.
pub fn username_taken(users: &Vec<User>, username: &String) -> (r: bool)
    ensures
        r == name_taken(users@, username@),
{
    let mut i: usize = 0;
    while i < users.len()
        invariant
            0 <= i <= users@.len(),
            forall|j: int| 0 <= j < i ==> (#[trigger] users@[j]).username@ != username@,
        decreases users.len() - i,
    {
        if users[i].username == *username {
            return true;
        }
        i = i + 1;
    }
    false
}

/// A CSRF token: the text of a random version-4 identifier.
pub open spec fn is_csrf_token(c: Seq<char>) -> bool {
    exists|r: u128| is_random_uuid(r) && c == uuid_text(r)
}

/// A fresh CSRF token.
pub fn new_csrf_token() -> (c: String)
    ensures
        is_csrf_token(c@),
{
    let r = generate_unique_id();
    let c = id_text(r);
    assert(is_random_uuid(r) && c@ == uuid_text(r));
    c
}

/// A new account from the registration form, with a fresh identifier.
pub fn construct_user(input: UserInput) -> (u: User)
    ensures
        u.username == input.username,
        u.password == input.password,
        is_random_uuid(u.user_id),
{
    User { user_id: generate_unique_id(), username: input.username, password: input.password }
}

/// Opens a session for `username` with `token` after a successful login, and
/// gives the user with identifier `user_id` the CSRF token `csrf_token`.
pub fn accept_login(
    state: &mut AppState,
    username: &String,
    user_id: u128,
    token: String,
    csrf_token: String,
) -> (r: AuthResponse)
    requires
        old(state).wf(),
    ensures
        final(state).wf(),
        final(state).data@ == old(state).data@.insert(username@, token@),
        final(state).csrf@ == old(state).csrf@.insert(uuid_text(user_id), csrf_token@),
        r@ == session_opened(token@, username@, login_body()),
{
    let r = opened_response(&token, username, "Logged in!");
    state.data.insert(username.clone(), token);
    state.csrf.insert(id_text(user_id), csrf_token);
    r
}

/// Opens a session for `username` with `token` after a registration, and
/// gives the user with identifier `user_id` the CSRF token `csrf_token`.
pub fn accept_registration(
    state: &mut AppState,
    username: &String,
    user_id: u128,
    token: String,
    csrf_token: String,
) -> (r: AuthResponse)
    requires
        old(state).wf(),
    ensures
        final(state).wf(),
        final(state).data@ == old(state).data@.insert(username@, token@),
        final(state).csrf@ == old(state).csrf@.insert(uuid_text(user_id), csrf_token@),
        r@ == session_opened(token@, username@, registered_body()),
{
    let r = opened_response(
        &token,
        username,
        "logged in with your new account! Please redirect to the homepage.",
    );
    state.data.insert(username.clone(), token);
    state.csrf.insert(id_text(user_id), csrf_token);
    r
}

/// Answers a login form. When some user has exactly the submitted name and
/// password, a fresh session token is issued, recorded for that name and set
/// as a cookie, and a fresh CSRF token is recorded for the first user listed
/// under that name; otherwise nothing changes and the login is refused.
pub fn authenticate_login(state: &mut AppState, users: &Vec<User>, user: &UserInput) -> (r:
    AuthResponse)
    requires
        old(state).wf(),
        credentials_valid(users@, user.username@, user.password@) ==> token_input_fits(
            user.username@,
        ),
    ensures
        final(state).wf(),
        credentials_valid(users@, user.username@, user.password@) ==> exists|t: Seq<char>, c: Seq<char>|
            {
                &&& is_session_token_for(t, user.username@)
                &&& is_csrf_token(c)
                &&& final(state).data@ == old(state).data@.insert(user.username@, t)
                &&& final(state).csrf@ == old(state).csrf@.insert(
                    uuid_text(user_id_lookup(users@, user.username@).unwrap()),
                    c,
                )
                &&& r@ == session_opened(t, user.username@, login_body())
            },
        !credentials_valid(users@, user.username@, user.password@) ==> {
            &&& final(state).data@ == old(state).data@
            &&& final(state).csrf@ == old(state).csrf@
            &&& r@ == refused(login_refused_body())
        },
{
    if credentials_match(users, user) {
        proof {
            let i = choose|i: int|
                0 <= i < users@.len() && (#[trigger] users@[i]).username@ == user.username@
                    && users@[i].password@ == user.password@;
            assert(name_taken(users@, user.username@));
            lemma_listed_user_found(users@, user.username@);
        }
        let user_id = match get_user_id(users, user.username.as_str()) {
            Ok(id) => id,
            Err(_) => {
                proof {
                    assert(false);
                }
                return refused_response("incorrect username or password!");
            },
        };
        let token = new_session_token(&user.username);
        let csrf_token = new_csrf_token();
        let ghost t = token@;
        let ghost c = csrf_token@;
        let r = accept_login(state, &user.username, user_id, token, csrf_token);
        assert(is_session_token_for(t, user.username@));
        assert(is_csrf_token(c));
        r
    } else {
        refused_response("incorrect username or password!")
    }
}

/// Answers a registration. When the name is already taken nothing changes
/// and the registration is refused; otherwise `user` is added to `users`, a
/// session is opened for them as on login, and a fresh CSRF token is recorded
/// under the text of their identifier.
pub fn authenticate_register(state: &mut AppState, users: &mut Vec<User>, user: User) -> (r:
    AuthResponse)
    requires
        old(state).wf(),
        !name_taken(old(users)@, user.username@) ==> token_input_fits(user.username@),
    ensures
        final(state).wf(),
        names_unique(old(users)@) ==> names_unique(final(users)@),
        name_taken(old(users)@, user.username@) ==> {
            &&& final(users)@ == old(users)@
            &&& final(state).data@ == old(state).data@
            &&& final(state).csrf@ == old(state).csrf@
            &&& r@ == refused(username_taken_body())
        },
        !name_taken(old(users)@, user.username@) ==> {
            &&& final(users)@ == old(users)@.push(user)
            &&& user_id_lookup(final(users)@, user.username@) == Some(user.user_id)
            &&& exists|t: Seq<char>, c: Seq<char>|
                {
                    &&& is_session_token_for(t, user.username@)
                    &&& is_csrf_token(c)
                    &&& final(state).data@ == old(state).data@.insert(user.username@, t)
                    &&& final(state).csrf@ == old(state).csrf@.insert(uuid_text(user.user_id), c)
                    &&& r@ == session_opened(t, user.username@, registered_body())
                }
        },
{
    if username_taken(users, &user.username) {
        return refused_response("username already exists! Please choose a different one.");
    }
    proof {
        lemma_new_user_found(users@, user);
        if names_unique(users@) {
            crate::laws::registration_keeps_names_unique(users@, user);
        }
    }
    let username = user.username.clone();
    let user_id = user.user_id;
    users.push(user);
    let token = new_session_token(&username);
    let csrf_token = new_csrf_token();
    let ghost t = token@;
    let ghost c = csrf_token@;
    let r = accept_registration(state, &username, user_id, token, csrf_token);
    assert(is_session_token_for(t, username@));
    assert(is_csrf_token(c));
    r
}

} // verus!
