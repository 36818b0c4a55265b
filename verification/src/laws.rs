//! Properties that span several operations of the forum.

use vstd::prelude::*;
use crate::authenticate::{authenticated, credentials_valid, is_csrf_token};
use crate::cookies::cookie_lookup;
use crate::model::{
    ID, User, csrf_accepted, csrf_key, csrf_matches, csrf_token_text, has_id, is_first_with_id,
    is_random_uuid, lemma_uuid_text_has_no_quote, name_taken, names_known_user, names_unique, strip_ends,
    trim_end_quotes, trim_start_quotes, user_id_lookup, uuid_text,
};

verus! {

/// Once a session is opened for `user` with `token` (as login and
/// registration do), every request whose cookies carry that token and that
/// user name is authenticated.
pub proof fn login_authenticates(
    sessions: Map<Seq<char>, Seq<char>>,
    cookies: Seq<(Seq<char>, Seq<char>)>,
    user: Seq<char>,
    token: Seq<char>,
)
    requires
        cookie_lookup(cookies, "session_token"@) == Some(token),
        cookie_lookup(cookies, "username"@) == Some(user),
    ensures
        authenticated(sessions.insert(user, token), cookies),
{
}

/// Opening a new session for a user with a different token ends the old one:
/// the old token no longer authenticates that user.
pub proof fn new_session_revokes_old_token(
    sessions: Map<Seq<char>, Seq<char>>,
    cookies: Seq<(Seq<char>, Seq<char>)>,
    user: Seq<char>,
    old_token: Seq<char>,
    new_token: Seq<char>,
)
    requires
        cookie_lookup(cookies, "session_token"@) == Some(old_token),
        cookie_lookup(cookies, "username"@) == Some(user),
        old_token != new_token,
    ensures
        !authenticated(sessions.insert(user, new_token), cookies),
{
}

/// Opening a session for one user does not change whether a request that
/// names another user is authenticated.
pub proof fn other_sessions_unaffected(
    sessions: Map<Seq<char>, Seq<char>>,
    cookies: Seq<(Seq<char>, Seq<char>)>,
    user: Seq<char>,
    token: Seq<char>,
)
    requires
        cookie_lookup(cookies, "username"@) != Some(user),
    ensures
        authenticated(sessions.insert(user, token), cookies) == authenticated(sessions, cookies),
{
    match (cookie_lookup(cookies, "session_token"@), cookie_lookup(cookies, "username"@)) {
        (Some(t), Some(u)) => {
            assert(u != user);
        },
        _ => {},
    }
}

/// A request without a `session_token` cookie, or without a `username`
/// cookie, is never authenticated.
pub proof fn missing_cookie_not_authenticated(
    sessions: Map<Seq<char>, Seq<char>>,
    cookies: Seq<(Seq<char>, Seq<char>)>,
)
    requires
        cookie_lookup(cookies, "session_token"@) is None || cookie_lookup(cookies, "username"@) is None,
    ensures
        !authenticated(sessions, cookies),
{
}

/// After a user is registered, the name is taken: registering it again is
/// refused.
pub proof fn registered_name_taken(users: Seq<User>, user: User)
    ensures
        name_taken(users.push(user), user.username@),
{
    assert(users.push(user)[users.len() as int] == user);
}

/// After a user is registered, logging in with the same name and password
/// succeeds.
pub proof fn register_then_login(users: Seq<User>, user: User)
    ensures
        credentials_valid(users.push(user), user.username@, user.password@),
{
    assert(users.push(user)[users.len() as int] == user);
}

/// Registering a user keeps every name and password that could log in before.
pub proof fn registration_keeps_logins(
    users: Seq<User>,
    user: User,
    name: Seq<char>,
    password: Seq<char>,
)
    requires
        credentials_valid(users, name, password),
    ensures
        credentials_valid(users.push(user), name, password),
{
    let i = choose|i: int|
        0 <= i < users.len() && (#[trigger] users[i]).username@ == name && users[i].password@
            == password;
    assert(users.push(user)[i] == users[i]);
}

/// The token served at `/get-csrf-token`, sent back in double quotes as the
/// JSON text of a string, passes the CSRF check when it neither starts nor
/// ends with a double quote.
pub proof fn csrf_round_trip(
    csrf: Map<Seq<char>, Seq<char>>,
    cookies: Seq<(Seq<char>, Seq<char>)>,
    users: Seq<User>,
    token: Seq<char>,
)
    requires
        names_known_user(cookies, users),
        csrf.contains_key(csrf_key(cookies, users)),
        csrf[csrf_key(cookies, users)] == token,
        token.len() == 0 || (token[0] != '"' && token.last() != '"'),
    ensures
        csrf_matches(csrf, cookies, users, seq!['"'] + token + seq!['"']),
        csrf_accepted(csrf, cookies, users, seq!['"'] + token + seq!['"']),
{
    let x = seq!['"'] + token + seq!['"'];
    assert(strip_ends(x) =~= token);
    assert(trim_start_quotes(token) == token);
    assert(trim_end_quotes(token) == token);
    assert(csrf_token_text(x) == token);
}

/// When no two records share an identifier, removing the first record with
/// `id` leaves none with it.
pub proof fn removal_leaves_no_record<A: ID>(s: Seq<A>, id: u128, i: int)
    requires
        forall|a: int, b: int|
            0 <= a < s.len() && 0 <= b < s.len() && a != b ==> (#[trigger] s[a]).id_of() != (
            #[trigger] s[b]).id_of(),
        is_first_with_id(s, id, i),
    ensures
        !has_id(s.remove(i), id),
        s.remove(i).len() == s.len() - 1,
{
    let r = s.remove(i);
    assert forall|k: int| 0 <= k < r.len() implies (#[trigger] r[k]).id_of() != id by {
        if k < i {
            assert(r[k] == s[k]);
        } else {
            assert(r[k] == s[k + 1]);
        }
    }
}


/// After a login or registration of `user` (whose identifier is the one
/// listed first under the name) has recorded session token `t` and CSRF token
/// `c`, a request carrying that session token and name is authenticated and
/// is served `c` as its CSRF token.
pub proof fn login_serves_csrf_token(
    sessions: Map<Seq<char>, Seq<char>>,
    csrf: Map<Seq<char>, Seq<char>>,
    cookies: Seq<(Seq<char>, Seq<char>)>,
    users: Seq<User>,
    user: Seq<char>,
    id: u128,
    t: Seq<char>,
    c: Seq<char>,
)
    requires
        cookie_lookup(cookies, "session_token"@) == Some(t),
        cookie_lookup(cookies, "username"@) == Some(user),
        user_id_lookup(users, user) == Some(id),
    ensures
        authenticated(sessions.insert(user, t), cookies),
        names_known_user(cookies, users),
        csrf.insert(uuid_text(id), c).contains_key(csrf_key(cookies, users)),
        csrf.insert(uuid_text(id), c)[csrf_key(cookies, users)] == c,
{
}

/// A CSRF token issued at login or registration, once served and sent back
/// in double quotes as the JSON text of a string, passes the CSRF check.
pub proof fn issued_csrf_token_passes(
    csrf: Map<Seq<char>, Seq<char>>,
    cookies: Seq<(Seq<char>, Seq<char>)>,
    users: Seq<User>,
    c: Seq<char>,
)
    requires
        names_known_user(cookies, users),
        csrf.contains_key(csrf_key(cookies, users)),
        csrf[csrf_key(cookies, users)] == c,
        is_csrf_token(c),
    ensures
        csrf_accepted(csrf, cookies, users, seq!['"'] + c + seq!['"']),
{
    let r = choose|r: u128| is_random_uuid(r) && c == uuid_text(r);
    lemma_uuid_text_has_no_quote(r, 0);
    lemma_uuid_text_has_no_quote(r, 35);
    csrf_round_trip(csrf, cookies, users, c);
}

/// Registration only appends a user whose name is not taken, so it keeps the
/// names of the users unique.
pub proof fn registration_keeps_names_unique(users: Seq<User>, user: User)
    requires
        names_unique(users),
        !name_taken(users, user.username@),
    ensures
        names_unique(users.push(user)),
{
    let s = users.push(user);
    assert forall|i: int, j: int|
        0 <= i < s.len() && 0 <= j < s.len() && i != j implies (#[trigger] s[i]).username@ != (
        #[trigger] s[j]).username@ by {
        if i < users.len() && j < users.len() {
            assert(s[i] == users[i] && s[j] == users[j]);
        } else if i < users.len() {
            assert(s[i] == users[i]);
        } else {
            assert(s[j] == users[j]);
        }
    }
}

} // verus!
