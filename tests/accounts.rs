use balloondle_lobby::authenticator::{
    AuthenticationError, Authenticator, PostgreSQLAuthenticator, SIGNUP_ATTEMPTS,
};
use balloondle_lobby::database::Database;
use balloondle_lobby::routes::index;
use balloondle_lobby::user::User;

#[test]
fn details_valid_only_for_exactly_one_account() {
    let mut auth = PostgreSQLAuthenticator::new(Database::new());
    let name = String::from("alice");
    assert_eq!(auth.are_details_valid(&name, &5), Ok(false));
    let user = auth.create_user_with_details(&name, &5);
    assert_eq!(user.get_name(), "alice");
    assert_eq!(*user.get_code(), 5);
    assert_eq!(auth.are_details_valid(&name, &5), Ok(true));
    assert_eq!(auth.are_details_valid(&name, &6), Ok(false));
    auth.create_user_with_details(&name, &5);
    assert_eq!(
        auth.are_details_valid(&name, &5),
        Err(AuthenticationError::MultipleAccountsWithSameDetails)
    );
}

#[test]
fn user_lookup_tells_missing_from_ambiguous() {
    let mut auth = PostgreSQLAuthenticator::new(Database::new());
    let name = String::from("bob");
    assert!(matches!(
        auth.get_user_for_details(&name, &1),
        Err(AuthenticationError::FailedToAuthenticate)
    ));
    auth.create_user_with_details(&name, &1);
    let found = auth.get_user_for_details(&name, &1).ok().expect("one account");
    assert_eq!(found.get_name(), "bob");
    assert_eq!(*found.get_code(), 1);
    auth.create_user_with_details(&name, &1);
    assert!(matches!(
        auth.get_user_for_details(&name, &1),
        Err(AuthenticationError::MultipleAccountsWithSameDetails)
    ));
}

#[test]
fn user_keeps_its_details() {
    let user = User::new("carol", 9999);
    assert_eq!(user.get_name(), "carol");
    assert_eq!(*user.get_code(), 9999);
}

#[test]
fn index_greets() {
    assert_eq!(index(), "Hello, world!");
}

#[test]
fn sign_up_refuses_a_taken_code() {
    let mut auth = PostgreSQLAuthenticator::new(Database::new());
    let name = String::from("dave");
    let first = auth.try_sign_up(&name, 42).expect("free code");
    assert_eq!(*first.get_code(), 42);
    assert!(auth.try_sign_up(&name, 42).is_none());
    assert_eq!(auth.database.players.len(), 1);
    assert!(auth.try_sign_up(&String::from("erin"), 42).is_some());
}

#[test]
fn sign_up_draws_a_free_code() {
    let mut auth = PostgreSQLAuthenticator::new(Database::new());
    let name = String::from("frank");
    let user = auth.sign_up_player(&name, SIGNUP_ATTEMPTS).ok().expect("signed up");
    assert_eq!(user.get_name(), "frank");
    assert_eq!(auth.are_details_valid(&name, user.get_code()), Ok(true));
    assert!(matches!(
        auth.sign_up_player(&name, 0),
        Err(AuthenticationError::FailedToAuthenticate)
    ));
    assert_eq!(auth.database.players.len(), 1);
}
