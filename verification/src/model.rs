//! The forum's records, the shared state of the server, and the operations on
//! lists of records that the request handlers share.

use vstd::prelude::*;
use vstd::arithmetic::power2::pow2;
use crate::session::Sessions;
use crate::cookies::{Cookies, cookie_lookup};

verus! {

/// What the server keeps between requests: the session token of each
/// logged-in user, by user name, and the CSRF token of each logged-in user,
/// by the text of the user's identifier.
pub struct AppState {
    pub data: Sessions,
    pub csrf: Sessions,
}

impl AppState {
    /// Both tables are well formed.
    pub open spec fn wf(&self) -> bool {
        self.data.wf() && self.csrf.wf()
    }

    /// A server state with no open session and no CSRF token.
    pub fn new() -> (s: AppState)
        ensures
            s.wf(),
            s.data@ == Map::<Seq<char>, Seq<char>>::empty(),
            s.csrf@ == Map::<Seq<char>, Seq<char>>::empty(),
    {
        AppState { data: Sessions::new(), csrf: Sessions::new() }
    }
}

/// A point in time: whole seconds since the Unix epoch and the nanoseconds
/// past that second (beyond 999,999,999 only within a leap second).
#[derive(Clone, Copy, Debug)]
pub struct Timestamp {
    pub secs: i64,
    pub nanos: u32,
}

/// A registered account.
#[derive(Clone, Debug)]
pub struct User {
    pub user_id: u128,
    pub username: String,
    pub password: String,
}

/// A post, as stored in the posts file and in its author's file.
#[derive(Clone, Debug)]
pub struct Post {
    pub post_id: u128,
    pub title: String,
    pub author: String,
    pub body: String,
    pub date: Timestamp,
}

/// A comment on a post.
#[derive(Clone, Debug)]
pub struct Comment {
    pub comment_id: u128,
    pub post_id: u128,
    pub author: String,
    pub body: String,
    pub date: Timestamp,
}

/// The form that adds a post.
pub struct PostInput {
    pub title: String,
    pub body: String,
    pub csrf_token: String,
}

/// The form that adds a comment.
pub struct CommentInput {
    pub body: String,
    pub post_id: u128,
    pub csrf_token: String,
}

/// The form that logs in or registers.
pub struct UserInput {
    pub username: String,
    pub password: String,
}

/// A bare identifier.
pub struct T {
    pub id: u128,
}

/// The form that deletes a post or a comment by its identifier.
pub struct Id {
    pub id: u128,
    pub csrf_token: String,
}

/// A record that carries an identifier.
pub trait ID {
    spec fn id_of(&self) -> u128;

    fn get_id(&self) -> (r: u128)
        ensures
            r == self.id_of(),
    ;
}

impl ID for Comment {
    open spec fn id_of(&self) -> u128 {
        self.comment_id
    }

    fn get_id(&self) -> (r: u128) {
        self.comment_id
    }
}

impl ID for T {
    open spec fn id_of(&self) -> u128 {
        self.id
    }

    fn get_id(&self) -> (r: u128) {
        self.id
    }
}

impl ID for Post {
    open spec fn id_of(&self) -> u128 {
        self.post_id
    }

    fn get_id(&self) -> (r: u128) {
        self.post_id
    }
}

impl ID for User {
    open spec fn id_of(&self) -> u128 {
        self.user_id
    }

    fn get_id(&self) -> (r: u128) {
        self.user_id
    }
}

/// What every reading of the system clock satisfies: it is not before the
/// Unix epoch, and its nanoseconds are below one second.
pub open spec fn is_clock_reading(t: Timestamp) -> bool {
    t.secs >= 0 && t.nanos < 1_000_000_000
}

/// The current time.
///
/// Calls `chrono::Utc::now` and splits the result into seconds and
/// nanoseconds. Claimed: the reading is not before the Unix epoch and its
/// nanoseconds are below one second. `Utc::now` takes the `SystemTime`
/// duration since `UNIX_EPOCH` (panicking before it), and builds the
/// `DateTime` from its whole seconds and `subsec_nanos`, which is below
/// 1,000,000,000. Nothing is claimed of which time it is.
#[verifier::external_body]
pub fn get_time() -> (t: Timestamp)
    ensures
        is_clock_reading(t),
{
    let now = chrono::Utc::now();
    Timestamp { secs: now.timestamp(), nanos: now.timestamp_subsec_nanos() }
}

/// The version-4 and RFC 4122 variant bits of a 128-bit identifier are set.
pub open spec fn is_random_uuid(id: u128) -> bool {
    id & 0xF000_C000_0000_0000_0000u128 == 0x4000_8000_0000_0000_0000u128
}

/// A fresh random identifier.
///
/// Calls `uuid::Uuid::new_v4` and returns its 128-bit value. Claimed: the
/// version nibble is 4 and the variant bits are `10`, which `new_v4` sets on
/// the random bits. Nothing else is claimed of the value.
#[verifier::external_body]
pub fn generate_unique_id() -> (id: u128)
    ensures
        is_random_uuid(id),
{
    uuid::Uuid::new_v4().as_u128()
}

/// The lower-case hexadecimal digit of `n`, for `0 <= n < 16`.
pub open spec fn hex_digit(n: int) -> char {
    if n < 10 {
        (48 + n) as char
    } else {
        (87 + n) as char
    }
}

/// The `k`-th of the 32 hexadecimal digits of `id`, most significant first.
pub open spec fn uuid_nibble(id: u128, k: int) -> int {
    (id as int / pow2((4 * (31 - k)) as nat) as int) % 16
}

/// How many hyphens stand before position `i` of the hyphenated form.
pub open spec fn hyphens_before(i: int) -> int {
    if i < 8 {
        0
    } else if i < 13 {
        1
    } else if i < 18 {
        2
    } else if i < 23 {
        3
    } else {
        4
    }
}

/// The hyphenated lower-case text of an identifier, such as
/// `67e55044-10b1-426f-9247-bb680e5fe0c8`.
pub open spec fn uuid_text(id: u128) -> Seq<char> {
    Seq::new(
        36,
        |i: int|
            if i == 8 || i == 13 || i == 18 || i == 23 {
                '-'
            } else {
                hex_digit(uuid_nibble(id, i - hyphens_before(i)))
            },
    )
}

/// The text of an identifier.
///
/// Calls `to_string` on `uuid::Uuid::from_u128(id)`. Claimed: the text is
/// the hyphenated lower-case form (8-4-4-4-12 hexadecimal digits, most
/// significant first), which is how `uuid` displays a `Uuid`.
#[verifier::external_body]
pub(crate) fn id_text(id: u128) -> (s: String)
    ensures
        s@ == uuid_text(id),
{
    uuid::Uuid::from_u128(id).to_string()
}

/// `i` is the position of the first record of `s` whose identifier is `id`.
pub open spec fn is_first_with_id<A: ID>(s: Seq<A>, id: u128, i: int) -> bool {
    &&& 0 <= i < s.len()
    &&& s[i].id_of() == id
    &&& forall|j: int| 0 <= j < i ==> (#[trigger] s[j]).id_of() != id
}

/// Some record of `s` has the identifier `id`.
pub open spec fn has_id<A: ID>(s: Seq<A>, id: u128) -> bool {
    exists|i: int| 0 <= i < s.len() && (#[trigger] s[i]).id_of() == id
}

/// The position of the first record with identifier `id`, if any.
pub fn position_of_id<A: ID>(vector: &Vec<A>, id: u128) -> (r: Option<usize>)
    ensures
        match r {
            Some(i) => is_first_with_id(vector@, id, i as int),
            None => !has_id(vector@, id),
        },
{
    let mut i: usize = 0;
    while i < vector.len()
        invariant
            0 <= i <= vector@.len(),
            forall|j: int| 0 <= j < i ==> (#[trigger] vector@[j]).id_of() != id,
        decreases vector.len() - i,
    {
        if vector[i].get_id() == id {
            return Some(i);
        }
        i = i + 1;
    }
    None
}

/// Removes the first record with identifier `id`; the others keep their order.
pub fn remove_object_with_id<A: ID>(vector: &mut Vec<A>, id: u128)
    requires
        has_id(old(vector)@, id),
    ensures
        exists|i: int|
            is_first_with_id(old(vector)@, id, i) && final(vector)@ == old(vector)@.remove(i),
{
    match position_of_id(vector, id) {
        Some(index) => {
            vector.remove(index);
        },
        None => {},
    }
}

/// The identifier of the first user called `name`, if there is one.
pub open spec fn user_id_lookup(users: Seq<User>, name: Seq<char>) -> Option<u128>
    decreases users.len(),
{
    if users.len() == 0 {
        None
    } else if users[0].username@ == name {
        Some(users[0].user_id)
    } else {
        user_id_lookup(users.drop_first(), name)
    }
}

/// The identifier of the first user called `username`.
pub fn get_user_id(users: &Vec<User>, username: &str) -> (r: Result<u128, ()>)
    ensures
        match r {
            Ok(id) => user_id_lookup(users@, username@) == Some(id),
            Err(_) => user_id_lookup(users@, username@) is None,
        },
{
    let wanted = String::from_str(username);
    let mut i: usize = 0;
    proof {
        assert(users@.skip(0) =~= users@);
    }
    while i < users.len()
        invariant
            0 <= i <= users@.len(),
            wanted@ == username@,
            user_id_lookup(users@, username@) == user_id_lookup(users@.skip(i as int), username@),
        decreases users.len() - i,
    {
        proof {
            assert(users@.skip(i as int).drop_first() =~= users@.skip(i + 1));
        }
        if users[i].username == wanted {
            return Ok(users[i].get_id());
        }
        i = i + 1;
    }
    proof {
        assert(users@.skip(i as int).len() == 0);
    }
    Err(())
}

/// The directory that holds one JSON file per user.
pub open spec fn user_json_dir() -> Seq<char> {
    "assets/authenticated/static/api/json/users/"@
}

/// The path of the JSON file that lists the posts of `username`.
pub fn user_json_path(username: &str) -> (p: String)
    ensures
        p@ == user_json_dir() + username@ + ".json"@,
{
    let mut p = String::from_str("assets/authenticated/static/api/json/users/");
    p.append(username);
    p.append(".json");
    p
}


/// `s` without its first and last character (empty when `s` has fewer than
/// three characters).
pub open spec fn strip_ends(s: Seq<char>) -> Seq<char> {
    if s.len() <= 2 {
        Seq::empty()
    } else {
        s.subrange(1, s.len() - 1)
    }
}

/// `s` without the double quotes it starts with.
pub open spec fn trim_start_quotes(s: Seq<char>) -> Seq<char>
    decreases s.len(),
{
    if s.len() > 0 && s[0] == '"' {
        trim_start_quotes(s.drop_first())
    } else {
        s
    }
}

/// `s` without the double quotes it ends with.
pub open spec fn trim_end_quotes(s: Seq<char>) -> Seq<char>
    decreases s.len(),
{
    if s.len() > 0 && s.last() == '"' {
        trim_end_quotes(s.drop_last())
    } else {
        s
    }
}

/// The token that a submitted CSRF value stands for: the value without its
/// outer two characters and then without any double quotes at either end.
pub open spec fn csrf_token_text(x: Seq<char>) -> Seq<char> {
    trim_end_quotes(trim_start_quotes(strip_ends(x)))
}

/// The key under which the CSRF token of the request's user is kept: the
/// text of the identifier of the first user with the request's user name.
pub open spec fn csrf_key(cookies: Seq<(Seq<char>, Seq<char>)>, users: Seq<User>) -> Seq<char> {
    uuid_text(user_id_lookup(users, cookie_lookup(cookies, "username"@).unwrap()).unwrap())
}

/// The request names a user, and that user is listed.
pub open spec fn names_known_user(cookies: Seq<(Seq<char>, Seq<char>)>, users: Seq<User>) -> bool {
    &&& cookie_lookup(cookies, "username"@) is Some
    &&& user_id_lookup(users, cookie_lookup(cookies, "username"@).unwrap()) is Some
}

/// The submitted value `x` matches the CSRF token held under the user's key.
pub open spec fn csrf_matches(
    csrf: Map<Seq<char>, Seq<char>>,
    cookies: Seq<(Seq<char>, Seq<char>)>,
    users: Seq<User>,
    x: Seq<char>,
) -> bool {
    let key = csrf_key(cookies, users);
    csrf.contains_key(key) && csrf[key] == csrf_token_text(x)
}

/// The request names a listed user and its submitted value `x` matches that
/// user's CSRF token.
pub open spec fn csrf_accepted(
    csrf: Map<Seq<char>, Seq<char>>,
    cookies: Seq<(Seq<char>, Seq<char>)>,
    users: Seq<User>,
    x: Seq<char>,
) -> bool {
    names_known_user(cookies, users) && csrf_matches(csrf, cookies, users, x)
}

/// Some user is called `name`.
pub open spec fn name_taken(users: Seq<User>, name: Seq<char>) -> bool {
    exists|i: int| 0 <= i < users.len() && (#[trigger] users[i]).username@ == name
}

/// No two users share a name.
pub open spec fn names_unique(users: Seq<User>) -> bool {
    forall|i: int, j: int|
        0 <= i < users.len() && 0 <= j < users.len() && i != j ==> (#[trigger] users[i]).username@
            != (#[trigger] users[j]).username@
}

/// A listed name is found by `user_id_lookup`.
pub proof fn lemma_listed_user_found(users: Seq<User>, name: Seq<char>)
    requires
        name_taken(users, name),
    ensures
        user_id_lookup(users, name) is Some,
    decreases users.len(),
{
    if users[0].username@ != name {
        let i = choose|i: int| 0 <= i < users.len() && (#[trigger] users[i]).username@ == name;
        assert(users.drop_first()[i - 1] == users[i]);
        lemma_listed_user_found(users.drop_first(), name);
    }
}

/// Appending a user whose name was not listed makes that user the one found
/// under the name.
pub proof fn lemma_new_user_found(users: Seq<User>, user: User)
    requires
        !name_taken(users, user.username@),
    ensures
        user_id_lookup(users.push(user), user.username@) == Some(user.user_id),
    decreases users.len(),
{
    let s = users.push(user);
    if users.len() == 0 {
        assert(s[0] == user);
    } else {
        assert(s[0] == users[0]);
        assert(users[0].username@ != user.username@);
        assert(s.drop_first() =~= users.drop_first().push(user));
        assert forall|i: int| 0 <= i < users.drop_first().len() implies (
        #[trigger] users.drop_first()[i]).username@ != user.username@ by {
            assert(users.drop_first()[i] == users[i + 1]);
        }
        lemma_new_user_found(users.drop_first(), user);
    }
}

/// No character of the text of an identifier is a double quote.
pub proof fn lemma_uuid_text_has_no_quote(id: u128, i: int)
    requires
        0 <= i < 36,
    ensures
        uuid_text(id)[i] != '"',
{
    if !(i == 8 || i == 13 || i == 18 || i == 23) {
        let k = i - hyphens_before(i);
        let p = pow2((4 * (31 - k)) as nat);
        vstd::arithmetic::power2::lemma_pow2_pos((4 * (31 - k)) as nat);
        assert(id as int / p as int >= 0) by (nonlinear_arith)
            requires
                p > 0,
                id >= 0,
        ;
        let n = uuid_nibble(id, k);
        assert(0 <= n < 16);
    }
}

proof fn lemma_trim_start(s: Seq<char>, lo: int)
    requires
        0 <= lo <= s.len(),
        forall|j: int| 0 <= j < lo ==> s[j] == '"',
        lo == s.len() || s[lo] != '"',
    ensures
        trim_start_quotes(s) == s.subrange(lo, s.len() as int),
    decreases lo,
{
    if lo == 0 {
        assert(s.subrange(0, s.len() as int) =~= s);
    } else {
        let t = s.drop_first();
        assert forall|j: int| 0 <= j < lo - 1 implies t[j] == '"' by {
            assert(t[j] == s[j + 1]);
        }
        lemma_trim_start(t, lo - 1);
        assert(t.subrange(lo - 1, t.len() as int) =~= s.subrange(lo, s.len() as int));
    }
}

proof fn lemma_trim_end(s: Seq<char>, hi: int)
    requires
        0 <= hi <= s.len(),
        forall|j: int| hi <= j < s.len() ==> s[j] == '"',
        hi == 0 || s[hi - 1] != '"',
    ensures
        trim_end_quotes(s) == s.subrange(0, hi),
    decreases s.len() - hi,
{
    if hi == s.len() {
        assert(s.subrange(0, hi) =~= s);
    } else {
        let t = s.drop_last();
        lemma_trim_end(t, hi);
        assert(t.subrange(0, hi) =~= s.subrange(0, hi));
    }
}

/// The token that the submitted CSRF value `x` stands for.
fn csrf_token_of(x: &str) -> (t: String)
    ensures
        t@ == csrf_token_text(x@),
{
    let n = x.unicode_len();
    let inner: &str = if n <= 2 {
        x.substring_char(0, 0)
    } else {
        x.substring_char(1, n - 1)
    };
    assert(inner@ =~= strip_ends(x@));
    let m = inner.unicode_len();
    let mut lo: usize = 0;
    while lo < m && inner.get_char(lo) == '"'
        invariant
            0 <= lo <= m,
            m == inner@.len(),
            forall|j: int| 0 <= j < lo ==> inner@[j] == '"',
        decreases m - lo,
    {
        lo = lo + 1;
    }
    proof {
        lemma_trim_start(inner@, lo as int);
    }
    let start = inner.substring_char(lo, m);
    let k = start.unicode_len();
    let mut hi: usize = k;
    while hi > 0 && start.get_char(hi - 1) == '"'
        invariant
            0 <= hi <= k,
            k == start@.len(),
            forall|j: int| hi <= j < k ==> start@[j] == '"',
        decreases hi,
    {
        hi = hi - 1;
    }
    proof {
        lemma_trim_end(start@, hi as int);
    }
    String::from_str(start.substring_char(0, hi))
}

/// Whether the CSRF value submitted with a request matches the CSRF token
/// that the server holds for the request's user. The user is the first one listed
/// under the name in the `username` cookie, and the token is looked up under
/// the text of that user's identifier.
pub fn check_csrf(state: &AppState, cookie: &Cookies, users: &Vec<User>, x_csrf_token: String) -> (r:
    bool)
    requires
        state.wf(),
        names_known_user(cookie@, users@),
    ensures
        r == csrf_matches(state.csrf@, cookie@, users@, x_csrf_token@),
{
    let username = match cookie.get("username") {
        Some(u) => u,
        None => {
            proof {
                assert(false);
            }
            return false;
        },
    };
    let user_id = match get_user_id(users, username.as_str()) {
        Ok(id) => id,
        Err(_) => {
            proof {
                assert(false);
            }
            return false;
        },
    };
    let key = id_text(user_id);
    let token = csrf_token_of(x_csrf_token.as_str());
    match state.csrf.get(&key) {
        Some(held) => *held == token,
        None => false,
    }
}


/// Whether the request names a listed user and its submitted CSRF value
/// matches that user's CSRF token; false, rather than a failure, when the
/// request names no listed user.
pub fn csrf_passes(state: &AppState, cookie: &Cookies, users: &Vec<User>, x_csrf_token: &String) -> (r:
    bool)
    requires
        state.wf(),
    ensures
        r == csrf_accepted(state.csrf@, cookie@, users@, x_csrf_token@),
{
    match cookie.get("username") {
        Some(username) => {
            match get_user_id(users, username.as_str()) {
                Ok(_) => check_csrf(state, cookie, users, x_csrf_token.clone()),
                Err(_) => false,
            }
        },
        None => false,
    }
}

} // verus!
