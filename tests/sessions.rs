use balloondle_lobby::player::Player;
use balloondle_lobby::session::Session;
use balloondle_lobby::session_manager::{SessionManager, TOKEN_SIZE};
use balloondle_lobby::token_generator::generate_token;

#[test]
fn session_is_renewed_only_after_its_lifespan() {
    let mut manager = SessionManager::new(240);
    let token = manager.create_session_for_player(Player::new("P1", 1), 0);
    assert_eq!(manager.use_session(&token, 100), None);
    assert!(manager.contains_session(&token));
    let renewed = manager.use_session(&token, 250).expect("a new token");
    assert_ne!(renewed, token);
    assert!(!manager.contains_session(&token));
    assert!(manager.contains_session(&renewed));
    assert_eq!(manager.use_session(&token, 260), None);
    assert_eq!(manager.use_session(&renewed, 260), None);
}

#[test]
fn session_expires_exactly_at_its_lifespan() {
    let mut manager = SessionManager::new(240);
    let token = manager.create_session_for_player(Player::new("P1", 1), 10);
    assert_eq!(manager.use_session(&token, 249), None);
    assert!(manager.use_session(&token, 250).is_some());
}

#[test]
fn unknown_token_resolves_to_nothing() {
    let mut manager = SessionManager::new(240);
    assert_eq!(manager.use_session("nope", 1000), None);
    assert!(!manager.contains_session("nope"));
}

#[test]
fn inserted_session_replaces_one_under_the_same_token() {
    let mut manager = SessionManager::new(5);
    manager.insert_session(String::from("abc"), Player::new("P1", 1), 0);
    manager.insert_session(String::from("abc"), Player::new("P2", 2), 10);
    assert_eq!(manager.use_session("abc", 14), None);
    assert!(manager.use_session("abc", 15).is_some());
    assert!(!manager.contains_session("abc"));
}

#[test]
fn tokens_are_alphanumeric_of_fixed_length() {
    let token = generate_token(TOKEN_SIZE);
    assert_eq!(token.len(), 32);
    assert!(token.chars().all(|c| c.is_ascii_alphanumeric()));
    assert_eq!(generate_token(0), "");
}

#[test]
fn session_keeps_player_and_creation_time() {
    let session = Session::new(Player::new("P1", 7), 33);
    assert_eq!(session.get_created_on(), 33);
    let player = session.expire();
    assert!(player == Player::new("P1", 7));
    assert!(!(player == Player::new("P1", 8)));
}

#[test]
fn confirming_manager_hands_a_valid_token_back() {
    let mut manager = SessionManager::new_confirming(240);
    let token = manager.create_session_for_player(Player::new("P1", 1), 0);
    assert_eq!(manager.use_session(&token, 100), Some(token.clone()));
    assert!(manager.contains_session(&token));
    assert_eq!(manager.use_session("unknown", 100), None);
    let renewed = manager.use_session(&token, 250).expect("a new token");
    assert_ne!(renewed, token);
    assert!(!manager.contains_session(&token));
    assert_eq!(manager.use_session(&renewed, 251), Some(renewed.clone()));
}
