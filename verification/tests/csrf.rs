use forum::cookies::Cookies;
use forum::handler::{del_user, get_csrf_token, holds_csrf_token};
use forum::model::{check_csrf, AppState, User};

const ALICE_ID: u128 = 0x67e5_5044_10b1_426f_9247_bb68_0e5f_e0c8;
const ALICE_KEY: &str = "67e55044-10b1-426f-9247-bb680e5fe0c8";

fn jar(pairs: &[(&str, &str)]) -> Cookies {
    Cookies {
        pairs: pairs.iter().map(|(k, v)| (k.to_string(), v.to_string())).collect(),
    }
}

fn users() -> Vec<User> {
    vec![
        User { user_id: 1, username: "bob".to_string(), password: "x".to_string() },
        User { user_id: ALICE_ID, username: "alice".to_string(), password: "y".to_string() },
    ]
}

fn state_with_csrf(token: &str) -> AppState {
    let mut state = AppState::new();
    state.data.insert("alice".to_string(), "session".to_string());
    state.csrf.insert(ALICE_KEY.to_string(), token.to_string());
    state
}

fn alice() -> Cookies {
    jar(&[("session_token", "session"), ("username", "alice")])
}

#[test]
fn csrf_token_is_kept_under_id_text() {
    let state = state_with_csrf("abc");
    assert_eq!(get_csrf_token(&state, &alice(), &users()), Some("abc".to_string()));
}

#[test]
fn csrf_token_only_for_logged_in_user() {
    let state = state_with_csrf("abc");
    let no_session = jar(&[("username", "alice")]);
    assert_eq!(get_csrf_token(&state, &no_session, &users()), None);
    let wrong = jar(&[("session_token", "other"), ("username", "alice")]);
    assert_eq!(get_csrf_token(&state, &wrong, &users()), None);
}

#[test]
fn csrf_token_missing() {
    let mut state = AppState::new();
    state.data.insert("alice".to_string(), "session".to_string());
    assert!(!holds_csrf_token(&state, &alice(), &users()));
    let held = state_with_csrf("abc");
    assert!(holds_csrf_token(&held, &alice(), &users()));
}

#[test]
fn csrf_token_missing_for_stranger() {
    let state = AppState::new();
    let c = jar(&[("session_token", "x"), ("username", "alice")]);
    assert_eq!(get_csrf_token(&state, &c, &users()), None);
}

#[test]
fn csrf_check_quoted_token() {
    let state = state_with_csrf("abc");
    let c = jar(&[("username", "alice")]);
    assert!(check_csrf(&state, &c, &users(), "\"abc\"".to_string()));
}

#[test]
fn csrf_check_strips_outer_chars_and_quotes() {
    let state = state_with_csrf("abc");
    let c = jar(&[("username", "alice")]);
    assert!(check_csrf(&state, &c, &users(), "x\"\"abc\"y".to_string()));
    assert!(check_csrf(&state, &c, &users(), "[abc]".to_string()));
    assert!(!check_csrf(&state, &c, &users(), "abc".to_string()));
    assert!(!check_csrf(&state, &c, &users(), "\"abd\"".to_string()));
}

#[test]
fn csrf_check_short_values() {
    let state = state_with_csrf("");
    let c = jar(&[("username", "alice")]);
    assert!(check_csrf(&state, &c, &users(), "".to_string()));
    assert!(check_csrf(&state, &c, &users(), "\"".to_string()));
    assert!(check_csrf(&state, &c, &users(), "\"\"\"\"".to_string()));
    assert!(!check_csrf(&state, &c, &users(), "\"a\"".to_string()));
}

#[test]
fn law_csrf_round_trip() {
    let state = state_with_csrf("$argon2i$v=19$m=4096");
    let c = alice();
    let served = get_csrf_token(&state, &c, &users()).unwrap();
    let json = format!("\"{}\"", served);
    assert!(check_csrf(&state, &c, &users(), json));
}

#[test]
fn del_user_when_logged_in() {
    let state = state_with_csrf("abc");
    let c = jar(&[("session_token", "session"), ("username", "alice")]);
    assert_eq!(
        del_user(&state, &c, &users()),
        Some((ALICE_ID, "assets/authenticated/static/api/json/users/alice.json".to_string()))
    );
}

#[test]
fn del_user_when_not_logged_in() {
    let state = state_with_csrf("abc");
    let c = jar(&[("session_token", "wrong"), ("username", "alice")]);
    assert_eq!(del_user(&state, &c, &users()), None);
}
