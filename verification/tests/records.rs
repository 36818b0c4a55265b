use forum::comment::{add_comment, construct_comment, delete_comment};
use forum::cookies::Cookies;
use forum::handler::{home, login, register, Page};
use forum::model::{
    generate_unique_id, get_time, get_user_id, position_of_id, remove_object_with_id,
    user_json_path, AppState, Comment, CommentInput, Id, Post, PostInput, Timestamp, User, T, ID,
};
use forum::post::{add_post, construct_post, delete_post};

fn jar(pairs: &[(&str, &str)]) -> Cookies {
    Cookies {
        pairs: pairs.iter().map(|(k, v)| (k.to_string(), v.to_string())).collect(),
    }
}

const ALICE_ID: u128 = 0x67e5_5044_10b1_426f_9247_bb68_0e5f_e0c8;
const ALICE_CSRF: &str = "\"csrf-abc\"";

fn logged_in_state() -> AppState {
    let mut state = AppState::new();
    state.data.insert("alice".to_string(), "tok".to_string());
    state.csrf.insert("67e55044-10b1-426f-9247-bb680e5fe0c8".to_string(), "csrf-abc".to_string());
    state
}

fn users() -> Vec<User> {
    vec![User { user_id: ALICE_ID, username: "alice".to_string(), password: "pw".to_string() }]
}

fn id_form(id: u128, csrf: &str) -> Id {
    Id { id, csrf_token: csrf.to_string() }
}

fn alice() -> Cookies {
    jar(&[("session_token", "tok"), ("username", "alice")])
}

fn stranger() -> Cookies {
    jar(&[("session_token", "bad"), ("username", "alice")])
}

fn is_v4(id: u128) -> bool {
    id & 0xF000_C000_0000_0000_0000 == 0x4000_8000_0000_0000_0000
}

fn post(id: u128, author: &str) -> Post {
    Post {
        post_id: id,
        title: "t".to_string(),
        author: author.to_string(),
        body: "b".to_string(),
        date: Timestamp { secs: 0, nanos: 0 },
    }
}

#[test]
fn unique_ids_are_version_four() {
    let a = generate_unique_id();
    let b = generate_unique_id();
    assert!(is_v4(a) && is_v4(b));
    assert_ne!(a, b);
}

#[test]
fn get_time_is_recent() {
    let t = get_time();
    assert!(t.secs > 1_600_000_000);
    assert!(t.nanos < 2_000_000_000);
}

#[test]
fn construct_post_fields() {
    let p = construct_post("alice", "Title".to_string(), "Body".to_string());
    assert_eq!(p.author, "alice");
    assert_eq!(p.title, "Title");
    assert_eq!(p.body, "Body");
    assert!(is_v4(p.post_id));
}

#[test]
fn construct_comment_fields() {
    let c = construct_comment("bob", 42, "nice".to_string());
    assert_eq!(c.author, "bob");
    assert_eq!(c.post_id, 42);
    assert_eq!(c.body, "nice");
    assert!(is_v4(c.comment_id));
}

#[test]
fn add_post_when_logged_in() {
    let state = logged_in_state();
    let input = PostInput { title: "T".to_string(), body: "B".to_string(), csrf_token: ALICE_CSRF.to_string() };
    let p = add_post(&state, &alice(), &users(), input).unwrap();
    assert_eq!(p.author, "alice");
    assert_eq!(p.title, "T");
    assert_eq!(p.body, "B");
}

#[test]
fn add_post_when_not_logged_in() {
    let state = logged_in_state();
    let input = PostInput { title: "T".to_string(), body: "B".to_string(), csrf_token: ALICE_CSRF.to_string() };
    assert!(add_post(&state, &stranger(), &users(), input).is_none());
}

#[test]
fn add_post_with_wrong_csrf_token() {
    let state = logged_in_state();
    let input = PostInput { title: "T".to_string(), body: "B".to_string(), csrf_token: "\"nope\"".to_string() };
    assert!(add_post(&state, &alice(), &users(), input).is_none());
}

#[test]
fn add_post_for_unlisted_user() {
    let state = logged_in_state();
    let input = PostInput { title: "T".to_string(), body: "B".to_string(), csrf_token: ALICE_CSRF.to_string() };
    assert!(add_post(&state, &alice(), &Vec::new(), input).is_none());
}

#[test]
fn delete_post_when_logged_in() {
    let state = logged_in_state();
    let r = delete_post(&state, &alice(), &users(), id_form(5, ALICE_CSRF));
    assert_eq!(r, Some((5, "assets/authenticated/static/api/json/users/alice.json".to_string())));
    assert_eq!(delete_post(&state, &alice(), &users(), id_form(5, "\"x\"")), None);
}

#[test]
fn delete_post_when_not_logged_in() {
    let state = logged_in_state();
    assert_eq!(delete_post(&state, &stranger(), &users(), id_form(5, ALICE_CSRF)), None);
}

#[test]
fn add_comment_when_logged_in() {
    let state = logged_in_state();
    let input = CommentInput { body: "hi".to_string(), post_id: 9, csrf_token: ALICE_CSRF.to_string() };
    let c = add_comment(&state, &alice(), &users(), input).unwrap();
    assert_eq!(c.author, "alice");
    assert_eq!(c.post_id, 9);
    assert_eq!(c.body, "hi");
}

#[test]
fn add_comment_when_not_logged_in() {
    let state = logged_in_state();
    let input = CommentInput { body: "hi".to_string(), post_id: 9, csrf_token: ALICE_CSRF.to_string() };
    assert!(add_comment(&state, &jar(&[]), &users(), input).is_none());
    let input = CommentInput { body: "hi".to_string(), post_id: 9, csrf_token: "\"bad\"".to_string() };
    assert!(add_comment(&state, &alice(), &users(), input).is_none());
}

#[test]
fn delete_comment_decision() {
    let state = logged_in_state();
    assert_eq!(delete_comment(&state, &alice(), &users(), id_form(3, ALICE_CSRF)), Some(3));
    assert_eq!(delete_comment(&state, &stranger(), &users(), id_form(3, ALICE_CSRF)), None);
    assert_eq!(delete_comment(&state, &alice(), &users(), id_form(3, "\"bad\"")), None);
}

#[test]
fn pages_follow_authentication() {
    let state = logged_in_state();
    assert_eq!(login(&state, &alice()), Page::AlreadyLoggedIn);
    assert_eq!(login(&state, &stranger()), Page::Login);
    assert_eq!(register(&state, &alice()), Page::AlreadyLoggedIn);
    assert_eq!(register(&state, &stranger()), Page::Register);
    assert_eq!(home(&state, &alice()), Page::Home);
    assert_eq!(home(&state, &stranger()), Page::NotAuthenticated);
}

#[test]
fn user_json_path_text() {
    assert_eq!(user_json_path("bob"), "assets/authenticated/static/api/json/users/bob.json");
}

#[test]
fn get_user_id_first_match() {
    let users = vec![
        User { user_id: 1, username: "a".to_string(), password: "x".to_string() },
        User { user_id: 2, username: "b".to_string(), password: "y".to_string() },
        User { user_id: 3, username: "b".to_string(), password: "z".to_string() },
    ];
    assert_eq!(get_user_id(&users, "b"), Ok(2));
    assert_eq!(get_user_id(&users, "c"), Err(()));
}

#[test]
fn ids_of_records() {
    assert_eq!(post(4, "a").get_id(), 4);
    let c = Comment {
        comment_id: 6,
        post_id: 1,
        author: "a".to_string(),
        body: String::new(),
        date: Timestamp { secs: 0, nanos: 0 },
    };
    assert_eq!(c.get_id(), 6);
    assert_eq!(T { id: 8 }.get_id(), 8);
    assert_eq!(User { user_id: 9, username: String::new(), password: String::new() }.get_id(), 9);
}

#[test]
fn position_of_first_id() {
    let v = vec![post(1, "a"), post(2, "b"), post(2, "c")];
    assert_eq!(position_of_id(&v, 2), Some(1));
    assert_eq!(position_of_id(&v, 7), None);
}

#[test]
fn remove_first_record_with_id() {
    let mut v = vec![post(1, "a"), post(2, "b"), post(3, "c"), post(2, "d")];
    remove_object_with_id(&mut v, 2);
    let left: Vec<(u128, &str)> = v.iter().map(|p| (p.post_id, p.author.as_str())).collect();
    assert_eq!(left, vec![(1, "a"), (3, "c"), (2, "d")]);
}

#[test]
fn law_removal_leaves_no_record() {
    let mut v = vec![post(1, "a"), post(2, "b"), post(3, "c")];
    remove_object_with_id(&mut v, 2);
    assert_eq!(v.len(), 2);
    assert_eq!(position_of_id(&v, 2), None);
}
