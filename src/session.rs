use vstd::prelude::*;
use crate::player::Player;

verus! {

/// A login session: who holds it and when it was issued. Instants are
/// whole seconds on a clock that the caller supplies.
pub struct Session {
    pub player: Player,
    pub created_on: u64,
}

impl Session {
    pub fn new(player: Player, created_on: u64) -> (r: Session)
        ensures
            r.player@ == player@,
            r.created_on == created_on,
    {
        Session { player, created_on }
    }

    pub fn get_created_on(&self) -> (r: u64)
        ensures
            r == self.created_on,
    {
        self.created_on
    }

    /// Ends the session, handing back the player it belonged to.
    pub fn expire(self) -> (r: Player)
        ensures
            r@ == self.player@,
    {
        self.player
    }
}

} // verus!
