use vstd::prelude::*;
use crate::user::User;

verus! {

/// Lifecycle of a match: `Starting` until its server reports ready,
/// `Running` until it reports a stop, then `Ended` for good.
#[derive(PartialEq, Eq, Structural, Clone, Copy, Debug)]
pub enum MatchState {
    Starting,
    Running,
    Ended,
}

/// A pending search: who is searching, for which map and gamemode, and
/// when it last pinged.
pub struct SearchRow {
    pub player_name: String,
    pub player_code: u32,
    pub map_name: String,
    pub gamemode_name: String,
    pub alive_time: u64,
}

/// A game-server instance and the state it is in.
pub struct MatchRow {
    pub code: i64,
    pub map_name: String,
    pub gamemode_name: String,
    pub server_ip: String,
    pub server_port: String,
    pub state: MatchState,
}

/// A player occupying a match.
pub struct PlayingRow {
    pub player_name: String,
    pub player_code: u32,
    pub match_map: String,
    pub match_gamemode: String,
    pub match_code: i64,
}

/// The assignment `p` is to the match `m`.
pub open spec fn names_match(m: MatchRow, p: PlayingRow) -> bool {
    m.code == p.match_code && m.map_name@ == p.match_map@ && m.gamemode_name@ == p.match_gamemode@
}

/// `p` is an assignment to one of the matches `ms`.
pub open spec fn is_assigned(ms: Seq<MatchRow>, p: PlayingRow) -> bool {
    exists|i: int| 0 <= i < ms.len() && names_match(ms[i], p)
}

/// The relational store the lobby keeps its state in: registered accounts,
/// the search queue, the game matches and who plays on which match, with
/// the counter that hands out match codes.
pub struct Database {
    pub players: Vec<User>,
    pub search_queue: Vec<SearchRow>,
    pub game_match: Vec<MatchRow>,
    pub playing_match: Vec<PlayingRow>,
    pub next_match_code: i64,
}

impl Database {
    /// What the store guarantees of its matches: codes are below the next
    /// code to hand out and pairwise distinct, for a given map and gamemode
    /// at most one match is `Starting`, and every player on a match names a
    /// match of the store by its code, map and gamemode.
    pub open spec fn wf(&self) -> bool {
        let ms = self.game_match@;
        let ps = self.playing_match@;
        &&& 1 <= self.next_match_code
        &&& forall|i: int| 0 <= i < ms.len() ==> ms[i].code < self.next_match_code
        &&& forall|i: int, j: int| 0 <= i < j < ms.len() ==> ms[i].code != ms[j].code
        &&& forall|i: int, j: int|
            0 <= i < ms.len() && 0 <= j < ms.len() && i != j && ms[i].state == MatchState::Starting
                && ms[j].state == MatchState::Starting && ms[i].map_name@ == ms[j].map_name@
                ==> ms[i].gamemode_name@ != ms[j].gamemode_name@
        &&& forall|k: int| 0 <= k < ps.len() ==> #[trigger] is_assigned(ms, ps[k])
    }

    /// An empty store whose first match gets code 1.
    pub fn new() -> (r: Database)
        ensures
            r.players@.len() == 0,
            r.search_queue@.len() == 0,
            r.game_match@.len() == 0,
            r.playing_match@.len() == 0,
            r.next_match_code == 1,
            r.wf(),
    {
        Database {
            players: Vec::new(),
            search_queue: Vec::new(),
            game_match: Vec::new(),
            playing_match: Vec::new(),
            next_match_code: 1,
        }
    }
}

} // verus!
