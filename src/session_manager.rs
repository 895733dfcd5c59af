use vstd::prelude::*;
use crate::player::Player;
use crate::session::Session;
use crate::token_generator::{generate_token, is_alphanumeric};

verus! {

/// Length of every session token.
pub const TOKEN_SIZE: usize = 32;

/// What a stored session is: its player and the instant it was created.
pub type SessionView = ((Seq<char>, u32), u64);

pub open spec fn elapsed(created_on: u64, now: u64) -> int {
    if now >= created_on {
        now - created_on
    } else {
        0
    }
}

/// A session created at `created_on` is due for renewal at `now` once its
/// lifespan has fully elapsed.
pub open spec fn is_expired(created_on: u64, now: u64, lifespan: u64) -> bool {
    lifespan <= elapsed(created_on, now)
}

/// The sessions after `token`'s session was replaced at `now` by one for
/// the same player under `fresh`.
pub open spec fn renewed(
    sessions: Map<Seq<char>, SessionView>,
    token: Seq<char>,
    fresh: Seq<char>,
    now: u64,
) -> Map<Seq<char>, SessionView> {
    sessions.remove(token).insert(fresh, (sessions[token].0, now))
}

/// A session used before its lifespan has elapsed since creation is still
/// valid; used once it has, it is due. Renewing it makes the new token
/// resolve to the same player, created at that instant, and the old token
/// resolve to nothing.
pub proof fn lemma_session_lifecycle(
    sessions: Map<Seq<char>, SessionView>,
    token: Seq<char>,
    fresh: Seq<char>,
    lifespan: u64,
    now: u64,
)
    requires
        sessions.contains_key(token),
        fresh != token,
    ensures
        sessions[token].1 <= now < sessions[token].1 + lifespan ==> !is_expired(sessions[token].1, now, lifespan),
        now >= sessions[token].1 + lifespan ==> is_expired(sessions[token].1, now, lifespan),
        renewed(sessions, token, fresh, now).contains_key(fresh),
        renewed(sessions, token, fresh, now)[fresh] == (sessions[token].0, now),
        !renewed(sessions, token, fresh, now).contains_key(token),
{
}

pub open spec fn is_token(t: Seq<char>) -> bool {
    t.len() == TOKEN_SIZE && forall|i: int| 0 <= i < t.len() ==> is_alphanumeric(#[trigger] t[i])
}

/// Login sessions keyed by token, each replaced by a fresh one the first
/// time it is presented after its lifespan.
pub struct SessionManager {
    session_lifespan: u64,
    confirm_valid: bool,
    stored_sessions: Vec<(String, Session)>,
    sessions: Ghost<Map<Seq<char>, SessionView>>,
}

impl SessionManager {
    /// The stored sessions by token.
    pub closed spec fn view_sessions(&self) -> Map<Seq<char>, SessionView> {
        self.sessions@
    }

    pub closed spec fn lifespan(&self) -> u64 {
        self.session_lifespan
    }

    /// Whether a still-valid token is confirmed by handing it back.
    pub closed spec fn confirms(&self) -> bool {
        self.confirm_valid
    }

    /// Each stored entry is in the map under its token, the map holds no
    /// other token, and no token is stored twice.
    pub closed spec fn wf(&self) -> bool {
        let e = self.stored_sessions@;
        &&& forall|i: int|
            0 <= i < e.len() ==> self.sessions@.contains_key(#[trigger] e[i].0@)
                && self.sessions@[e[i].0@] == (e[i].1.player@, e[i].1.created_on)
        &&& forall|k: Seq<char>|
            self.sessions@.contains_key(k) ==> exists|i: int| 0 <= i < e.len() && #[trigger] e[i].0@ == k
        &&& forall|i: int, j: int| 0 <= i < j < e.len() ==> e[i].0@ != e[j].0@
    }

    /// A manager whose `use_session` answers a still-valid token with `None`.
    pub fn new(session_lifespan: u64) -> (r: SessionManager)
        ensures
            r.wf(),
            r.view_sessions() == Map::<Seq<char>, SessionView>::empty(),
            r.lifespan() == session_lifespan,
            !r.confirms(),
    {
        SessionManager {
            session_lifespan,
            confirm_valid: false,
            stored_sessions: Vec::new(),
            sessions: Ghost(Map::empty()),
        }
    }

    /// A manager whose `use_session` answers a still-valid token by handing
    /// the same token back, so that callers can tell it from an unknown one.
    pub fn new_confirming(session_lifespan: u64) -> (r: SessionManager)
        ensures
            r.wf(),
            r.view_sessions() == Map::<Seq<char>, SessionView>::empty(),
            r.lifespan() == session_lifespan,
            r.confirms(),
    {
        SessionManager {
            session_lifespan,
            confirm_valid: true,
            stored_sessions: Vec::new(),
            sessions: Ghost(Map::empty()),
        }
    }

    fn find(&self, token: &str) -> (r: Option<usize>)
        requires
            self.wf(),
        ensures
            r is None <==> !self.view_sessions().contains_key(token@),
            r matches Some(i) ==> i < self.stored_sessions@.len() && self.stored_sessions@[i as int].0@
                == token@,
    {
        let wanted = token.to_owned();
        let mut i: usize = 0;
        while i < self.stored_sessions.len()
            invariant
                self.wf(),
                wanted@ == token@,
                i <= self.stored_sessions@.len(),
                forall|j: int| 0 <= j < i ==> #[trigger] self.stored_sessions@[j].0@ != token@,
            decreases self.stored_sessions.len() - i,
        {
            if self.stored_sessions[i].0.eq(&wanted) {
                return Some(i);
            }
            i = i + 1;
        }
        None
    }

    /// Whether `token` names a stored session.
    pub fn contains_session(&self, token: &str) -> (r: bool)
        requires
            self.wf(),
        ensures
            r == self.view_sessions().contains_key(token@),
    {
        self.find(token).is_some()
    }

    /// Stores a session for `player` created at `now` under `token`,
    /// replacing any session stored under that token.
    pub fn insert_session(&mut self, token: String, player: Player, now: u64)
        requires
            old(self).wf(),
        ensures
            final(self).wf(),
            final(self).view_sessions() == old(self).view_sessions().insert(token@, (player@, now)),
            final(self).lifespan() == old(self).lifespan(),
            final(self).confirms() == old(self).confirms(),
    {
        let ghost key = token@;
        let ghost pv = player@;
        let found = self.find(token.as_str());
        let entry = (token, Session::new(player, now));
        match found {
            Some(i) => {
                self.stored_sessions.set(i, entry);
            },
            None => {
                self.stored_sessions.push(entry);
            },
        }
        self.sessions = Ghost(self.sessions@.insert(key, (pv, now)));
        proof {
            let e = self.stored_sessions@;
            assert forall|k: Seq<char>| self.sessions@.contains_key(k) implies exists|i: int|
                0 <= i < e.len() && #[trigger] e[i].0@ == k by {
                if k != key {
                    let i0 = choose|i: int| 0 <= i < old(self).stored_sessions@.len() && #[trigger] old(self).stored_sessions@[i].0@ == k;
                    assert(e[i0].0@ == k);
                } else {
                    match found {
                        Some(i) => assert(e[i as int].0@ == k),
                        None => assert(e[e.len() - 1].0@ == k),
                    }
                }
            }
        }
    }

    /// Issues a fresh token for `player`, storing a session created at `now`.
    pub fn create_session_for_player(&mut self, player: Player, now: u64) -> (r: String)
        requires
            old(self).wf(),
        ensures
            final(self).wf(),
            is_token(r@),
            final(self).view_sessions() == old(self).view_sessions().insert(r@, (player@, now)),
            final(self).lifespan() == old(self).lifespan(),
            final(self).confirms() == old(self).confirms(),
    {
        let session_token = generate_token(TOKEN_SIZE);
        self.insert_session(session_token.clone(), player, now);
        session_token
    }

    /// Drops the session stored at index `i` and hands it back.
    fn take_session(&mut self, i: usize) -> (r: Session)
        requires
            old(self).wf(),
            i < old(self).stored_sessions@.len(),
        ensures
            final(self).wf(),
            old(self).view_sessions().contains_key(old(self).stored_sessions@[i as int].0@),
            (r.player@, r.created_on) == old(self).view_sessions()[old(self).stored_sessions@[i as int].0@],
            final(self).view_sessions() == old(self).view_sessions().remove(old(self).stored_sessions@[i as int].0@),
            final(self).lifespan() == old(self).lifespan(),
            final(self).confirms() == old(self).confirms(),
    {
        let ghost key = self.stored_sessions@[i as int].0@;
        let (_, session) = self.stored_sessions.remove(i);
        self.sessions = Ghost(self.sessions@.remove(key));
        proof {
            let e = self.stored_sessions@;
            let e0 = old(self).stored_sessions@;
            assert forall|j: int| 0 <= j < e.len() implies self.sessions@.contains_key(#[trigger] e[j].0@)
                && self.sessions@[e[j].0@] == (e[j].1.player@, e[j].1.created_on) by {
                if j < i {
                    assert(e[j] == e0[j]);
                } else {
                    assert(e[j] == e0[j + 1]);
                }
            }
            assert forall|k: Seq<char>| self.sessions@.contains_key(k) implies exists|j: int|
                0 <= j < e.len() && #[trigger] e[j].0@ == k by {
                let j0 = choose|j: int| 0 <= j < e0.len() && #[trigger] e0[j].0@ == k;
                if j0 < i {
                    assert(e[j0].0@ == k);
                } else {
                    assert(e[j0 - 1].0@ == k);
                }
            }
        }
        session
    }

    /// Presents `token` at `now`. An unknown token gives `None`. A session
    /// that has not yet outlived its lifespan is left as it is and gives
    /// `None`, or the same token back when the manager confirms valid
    /// tokens. An expired session is replaced by a new one for the same
    /// player, created at `now`, whose token is handed back.
    pub fn use_session(&mut self, session_token: &str, now: u64) -> (r: Option<String>)
        requires
            old(self).wf(),
        ensures
            final(self).wf(),
            final(self).lifespan() == old(self).lifespan(),
            final(self).confirms() == old(self).confirms(),
            !old(self).view_sessions().contains_key(session_token@) ==> r is None
                && final(self).view_sessions() == old(self).view_sessions(),
            old(self).view_sessions().contains_key(session_token@) && !is_expired(
                old(self).view_sessions()[session_token@].1,
                now,
                old(self).lifespan(),
            ) ==> final(self).view_sessions() == old(self).view_sessions() && (if old(self).confirms() {
                r matches Some(t) && t@ == session_token@
            } else {
                r is None
            }),
            old(self).view_sessions().contains_key(session_token@) && is_expired(
                old(self).view_sessions()[session_token@].1,
                now,
                old(self).lifespan(),
            ) ==> (r matches Some(t) && is_token(t@) && final(self).view_sessions() == renewed(
                old(self).view_sessions(),
                session_token@,
                t@,
                now,
            )),
    {
        match self.find(session_token) {
            None => None,
            Some(i) => {
                let created_on = self.stored_sessions[i].1.get_created_on();
                let elapsed: u64 = if now >= created_on {
                    now - created_on
                } else {
                    0
                };
                if self.session_lifespan <= elapsed {
                    let session = self.take_session(i);
                    Some(self.create_session_for_player(session.expire(), now))
                } else if self.confirm_valid {
                    Some(session_token.to_owned())
                } else {
                    None
                }
            },
        }
    }
}

} // verus!
