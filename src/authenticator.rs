use vstd::prelude::*;
use crate::database::Database;
use crate::user::User;

verus! {

#[derive(PartialEq, Eq, Structural, Clone, Copy, Debug)]
pub enum AuthenticationError {
    /// No account has those details, or the store could not be read.
    FailedToAuthenticate,
    /// More than one account has the same name and code: the store is
    /// corrupt.
    MultipleAccountsWithSameDetails,
}

/// Checks and creates accounts identified by a name and a code.
pub trait Authenticator {
    fn are_details_valid(&self, name: &String, code: &u32) -> Result<bool, AuthenticationError>;

    fn get_user_for_details(&self, name: &String, code: &u32) -> Result<User, AuthenticationError>;

    fn create_user_with_details(&mut self, name: &String, code: &u32) -> User;
}

/// How many codes a sign-up draws before it gives up.
pub const SIGNUP_ATTEMPTS: u32 = 16;

/// Relies on `rand::random::<u32>`: any code, drawn afresh on each call.
#[verifier::external_body]
fn random_account_code() -> (r: u32) {
    rand::random::<u32>()
}

/// How many accounts of `players` have that name and code.
pub open spec fn account_count(players: Seq<User>, name: Seq<char>, code: u32) -> nat
    decreases players.len(),
{
    if players.len() == 0 {
        0
    } else {
        account_count(players.drop_last(), name, code) + if players.last()@ == (name, code) {
            1nat
        } else {
            0nat
        }
    }
}

/// Accounts kept in the store's player table.
pub struct PostgreSQLAuthenticator {
    pub database: Database,
}

impl PostgreSQLAuthenticator {
    pub open spec fn accounts(&self) -> Seq<User> {
        self.database.players@
    }

    pub fn new(database: Database) -> (r: PostgreSQLAuthenticator)
        ensures
            r.database == database,
    {
        PostgreSQLAuthenticator { database }
    }

    fn count_accounts(&self, name: &String, code: &u32) -> (r: usize)
        ensures
            r == account_count(self.accounts(), name@, *code),
    {
        let players = &self.database.players;
        let mut count: usize = 0;
        let mut i: usize = 0;
        while i < players.len()
            invariant
                i <= players@.len(),
                players@ == self.accounts(),
                count == account_count(players@.subrange(0, i as int), name@, *code),
                count <= i,
            decreases players.len() - i,
        {
            assert(players@.subrange(0, i + 1).drop_last() =~= players@.subrange(0, i as int));
            if players[i].name.eq(name) && players[i].code == *code {
                count = count + 1;
            }
            i = i + 1;
        }
        assert(players@.subrange(0, i as int) =~= players@);
        count
    }

    /// `Ok(true)` when exactly one account has those details, `Ok(false)`
    /// when none has; several is an error.
    pub fn check_user_validity(&self, name: &String, code: &u32) -> (r: Result<bool, AuthenticationError>)
        ensures
            r == (if account_count(self.accounts(), name@, *code) == 0 {
                Ok::<bool, AuthenticationError>(false)
            } else if account_count(self.accounts(), name@, *code) == 1 {
                Ok(true)
            } else {
                Err(AuthenticationError::MultipleAccountsWithSameDetails)
            }),
    {
        let count = self.count_accounts(name, code);
        if count == 0 {
            Ok(false)
        } else if count == 1 {
            Ok(true)
        } else {
            Err(AuthenticationError::MultipleAccountsWithSameDetails)
        }
    }

    /// The one account with those details.
    pub fn find_user(&self, name: &String, code: &u32) -> (r: Result<User, AuthenticationError>)
        ensures
            account_count(self.accounts(), name@, *code) == 0 ==> r
                == Err::<User, AuthenticationError>(AuthenticationError::FailedToAuthenticate),
            account_count(self.accounts(), name@, *code) == 1 ==> (r matches Ok(u) && u@ == (name@, *code)),
            account_count(self.accounts(), name@, *code) > 1 ==> r == Err::<User, AuthenticationError>(
                AuthenticationError::MultipleAccountsWithSameDetails,
            ),
    {
        let count = self.count_accounts(name, code);
        if count == 0 {
            Err(AuthenticationError::FailedToAuthenticate)
        } else if count == 1 {
            Ok(User::new(name.as_str(), *code))
        } else {
            Err(AuthenticationError::MultipleAccountsWithSameDetails)
        }
    }

    /// Adds an account with those details and hands it back.
    pub fn add_user(&mut self, name: &String, code: &u32) -> (r: User)
        ensures
            r@ == (name@, *code),
            final(self).accounts().len() == old(self).accounts().len() + 1,
            final(self).accounts().drop_last() == old(self).accounts(),
            final(self).accounts().last()@ == (name@, *code),
            final(self).database.search_queue == old(self).database.search_queue,
            final(self).database.game_match == old(self).database.game_match,
            final(self).database.playing_match == old(self).database.playing_match,
            final(self).database.next_match_code == old(self).database.next_match_code,
    {
        let user = User::new(name.as_str(), *code);
        self.database.players.push(User::new(name.as_str(), *code));
        assert(self.accounts().drop_last() =~= old(self).accounts());
        user
    }

    /// Adds an account with that name and code unless one already has
    /// both; `None`, with nothing changed, when the code is taken.
    pub fn try_sign_up(&mut self, name: &String, code: u32) -> (r: Option<User>)
        ensures
            r is Some <==> account_count(old(self).accounts(), name@, code) == 0,
            r matches Some(u) ==> u@ == (name@, code) && final(self).accounts() == old(self).accounts().push(
                final(self).accounts().last(),
            ) && final(self).accounts().last()@ == (name@, code),
            r is None ==> final(self).accounts() == old(self).accounts(),
            final(self).database.search_queue == old(self).database.search_queue,
            final(self).database.game_match == old(self).database.game_match,
            final(self).database.playing_match == old(self).database.playing_match,
            final(self).database.next_match_code == old(self).database.next_match_code,
    {
        if self.count_accounts(name, &code) == 0 {
            let user = self.add_user(name, &code);
            assert(self.accounts() =~= old(self).accounts().push(self.accounts().last()));
            Some(user)
        } else {
            None
        }
    }

    /// Signs up `name` under a random code, drawing a new code while the
    /// one drawn is taken, at most `max_attempts` times.
    pub fn sign_up_player(&mut self, name: &String, max_attempts: u32) -> (r: Result<User, AuthenticationError>)
        ensures
            r matches Ok(u) ==> u@.0 == name@ && account_count(old(self).accounts(), name@, u@.1) == 0
                && final(self).accounts() == old(self).accounts().push(final(self).accounts().last())
                && final(self).accounts().last()@ == u@,
            r is Err ==> final(self).accounts() == old(self).accounts() && r == Err::<User, AuthenticationError>(
                AuthenticationError::FailedToAuthenticate,
            ),
            max_attempts == 0 ==> r is Err,
            final(self).database.search_queue == old(self).database.search_queue,
            final(self).database.game_match == old(self).database.game_match,
            final(self).database.playing_match == old(self).database.playing_match,
            final(self).database.next_match_code == old(self).database.next_match_code,
    {
        let mut attempt: u32 = 0;
        while attempt < max_attempts
            invariant
                attempt <= max_attempts,
                self.accounts() == old(self).accounts(),
                self.database.search_queue == old(self).database.search_queue,
                self.database.game_match == old(self).database.game_match,
                self.database.playing_match == old(self).database.playing_match,
                self.database.next_match_code == old(self).database.next_match_code,
            decreases max_attempts - attempt,
        {
            let code = random_account_code();
            match self.try_sign_up(name, code) {
                Some(user) => {
                    return Ok(user);
                },
                None => {},
            }
            attempt = attempt + 1;
        }
        Err(AuthenticationError::FailedToAuthenticate)
    }
}

impl Authenticator for PostgreSQLAuthenticator {
    fn are_details_valid(&self, name: &String, code: &u32) -> Result<bool, AuthenticationError> {
        self.check_user_validity(name, code)
    }

    fn get_user_for_details(&self, name: &String, code: &u32) -> Result<User, AuthenticationError> {
        self.find_user(name, code)
    }

    fn create_user_with_details(&mut self, name: &String, code: &u32) -> User {
        self.add_user(name, code)
    }
}

} // verus!
