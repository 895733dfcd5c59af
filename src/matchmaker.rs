use vstd::prelude::*;
use crate::database::{is_assigned, names_match, Database, MatchRow, MatchState, PlayingRow, SearchRow};
use crate::match_server_details::MatchServerDetails;
use crate::rows::{lemma_filter_congruent, lemma_filter_keeps_all, remove_where};
use crate::port_assigner::{
    decimal, get_free_random_port_for_gameserver, in_gameserver_range, port_text, PORT_ATTEMPTS,
};

verus! {

pub open spec fn is_search_of(r: SearchRow, name: Seq<char>, code: u32) -> bool {
    r.player_name@ == name && r.player_code == code
}

pub open spec fn keeps_others_searches(name: Seq<char>, code: u32) -> spec_fn(SearchRow) -> bool {
    |r: SearchRow| !is_search_of(r, name, code)
}

pub open spec fn is_searching(q: Seq<SearchRow>, name: Seq<char>, code: u32) -> bool {
    exists|i: int| 0 <= i < q.len() && is_search_of(q[i], name, code)
}

/// `i` is the earliest queued search of the player.
pub open spec fn is_first_search(q: Seq<SearchRow>, i: int, name: Seq<char>, code: u32) -> bool {
    &&& 0 <= i < q.len()
    &&& is_search_of(q[i], name, code)
    &&& forall|j: int| 0 <= j < i ==> !is_search_of(#[trigger] q[j], name, code)
}

pub open spec fn is_match_of(m: MatchRow, map: Seq<char>, gamemode: Seq<char>, state: MatchState) -> bool {
    m.map_name@ == map && m.gamemode_name@ == gamemode && m.state == state
}

pub open spec fn has_match(
    ms: Seq<MatchRow>,
    map: Seq<char>,
    gamemode: Seq<char>,
    state: MatchState,
) -> bool {
    exists|i: int| 0 <= i < ms.len() && is_match_of(ms[i], map, gamemode, state)
}

/// `i` is the earliest match of that map and gamemode in that state.
pub open spec fn is_first_match(
    ms: Seq<MatchRow>,
    i: int,
    map: Seq<char>,
    gamemode: Seq<char>,
    state: MatchState,
) -> bool {
    &&& 0 <= i < ms.len()
    &&& is_match_of(ms[i], map, gamemode, state)
    &&& forall|j: int| 0 <= j < i ==> !is_match_of(#[trigger] ms[j], map, gamemode, state)
}

pub open spec fn is_playing_of(r: PlayingRow, name: Seq<char>, code: u32) -> bool {
    r.player_name@ == name && r.player_code == code
}

pub open spec fn keeps_others_playing(name: Seq<char>, code: u32) -> spec_fn(PlayingRow) -> bool {
    |r: PlayingRow| !is_playing_of(r, name, code)
}

pub open spec fn is_playing_on(r: PlayingRow, map: Seq<char>, gamemode: Seq<char>, match_code: i64) -> bool {
    r.match_map@ == map && r.match_gamemode@ == gamemode && r.match_code == match_code
}

pub open spec fn keeps_playing_elsewhere(
    map: Seq<char>,
    gamemode: Seq<char>,
    match_code: i64,
) -> spec_fn(PlayingRow) -> bool {
    |r: PlayingRow| !is_playing_on(r, map, gamemode, match_code)
}

pub open spec fn keeps_playing_off_code(match_code: i64) -> spec_fn(PlayingRow) -> bool {
    |r: PlayingRow| r.match_code != match_code
}

/// The row as an alive ping of the player leaves it.
pub open spec fn touched(r: SearchRow, name: Seq<char>, code: u32, now: u64) -> SearchRow {
    if is_search_of(r, name, code) {
        SearchRow {
            player_name: r.player_name,
            player_code: r.player_code,
            map_name: r.map_name,
            gamemode_name: r.gamemode_name,
            alive_time: now,
        }
    } else {
        r
    }
}

pub open spec fn with_state(m: MatchRow, state: MatchState) -> MatchRow {
    MatchRow {
        code: m.code,
        map_name: m.map_name,
        gamemode_name: m.gamemode_name,
        server_ip: m.server_ip,
        server_port: m.server_port,
        state,
    }
}

pub open spec fn state_rank(s: MatchState) -> int {
    match s {
        MatchState::Starting => 0,
        MatchState::Running => 1,
        MatchState::Ended => 2,
    }
}

/// Matches are never dropped or rewritten, and each one's state only moves
/// forward along Starting, Running, Ended.
pub open spec fn states_advance(before: Seq<MatchRow>, after: Seq<MatchRow>) -> bool {
    &&& before.len() <= after.len()
    &&& forall|i: int|
        0 <= i < before.len() ==> {
            &&& (#[trigger] after[i]).code == before[i].code
            &&& after[i].map_name == before[i].map_name
            &&& after[i].gamemode_name == before[i].gamemode_name
            &&& after[i].server_ip == before[i].server_ip
            &&& after[i].server_port == before[i].server_port
            &&& state_rank(before[i].state) <= state_rank(after[i].state)
        }
}

/// `i` is the match with that code, of that map and gamemode, in that state.
pub open spec fn is_match_with_code(
    ms: Seq<MatchRow>,
    i: int,
    map: Seq<char>,
    gamemode: Seq<char>,
    code: i64,
    state: MatchState,
) -> bool {
    0 <= i < ms.len() && is_match_of(ms[i], map, gamemode, state) && ms[i].code == code
}

pub open spec fn has_match_with_code(
    ms: Seq<MatchRow>,
    map: Seq<char>,
    gamemode: Seq<char>,
    code: i64,
    state: MatchState,
) -> bool {
    exists|i: int| is_match_with_code(ms, i, map, gamemode, code, state)
}

/// For any map and gamemode, a well-formed store holds at most one
/// starting match; every operation of the matchmaker keeps the store well
/// formed, so no sequence of searches and pings ever starts a second one.
pub proof fn lemma_at_most_one_starting(db: Database, i: int, j: int)
    requires
        db.wf(),
        0 <= i < db.game_match@.len(),
        0 <= j < db.game_match@.len(),
        db.game_match@[i].state == MatchState::Starting,
        db.game_match@[j].state == MatchState::Starting,
        db.game_match@[i].map_name@ == db.game_match@[j].map_name@,
        db.game_match@[i].gamemode_name@ == db.game_match@[j].gamemode_name@,
    ensures
        i == j,
{
}

/// A match's state only moves forward, Starting then Running then Ended,
/// over any number of operations: an ended match stays ended and a running
/// one never starts again.
pub proof fn lemma_states_only_move_forward(a: Seq<MatchRow>, b: Seq<MatchRow>, c: Seq<MatchRow>, i: int)
    requires
        states_advance(a, b),
        states_advance(b, c),
        0 <= i < a.len(),
    ensures
        states_advance(a, c),
        a[i].state == MatchState::Ended ==> c[i].state == MatchState::Ended,
        a[i].state == MatchState::Running ==> c[i].state != MatchState::Starting,
{
    assert forall|k: int| 0 <= k < a.len() implies state_rank(a[k].state) <= state_rank(#[trigger] c[k].state) by {
        assert(state_rank(a[k].state) <= state_rank(b[k].state));
    }
    assert(state_rank(a[i].state) <= state_rank(b[i].state));
}

/// Dropping assignments keeps the store well formed.
proof fn lemma_wf_after_dropping_assignments(before: Database, after: Database, keep: spec_fn(PlayingRow) -> bool)
    requires
        before.wf(),
        after.game_match@ == before.game_match@,
        after.next_match_code == before.next_match_code,
        after.playing_match@ == before.playing_match@.filter(keep),
    ensures
        after.wf(),
{
    let ps = after.playing_match@;
    let ms = after.game_match@;
    assert forall|k: int| 0 <= k < ps.len() implies #[trigger] is_assigned(ms, ps[k]) by {
        assert(before.playing_match@.filter(keep).contains(ps[k]));
        before.playing_match@.lemma_filter_contains_rev(keep, ps[k]);
        let j = choose|j: int| 0 <= j < before.playing_match@.len() && before.playing_match@[j] == ps[k];
        let p = before.playing_match@[j];
        assert(is_assigned(ms, p));
        let i = choose|i: int| 0 <= i < ms.len() && names_match(ms[i], p);
        assert(names_match(ms[i], ps[k]));
    }
}

/// Moving one match to a state other than `Starting` keeps the store well
/// formed.
proof fn lemma_wf_after_state_change(before: Database, after: Database, i: int, state: MatchState)
    requires
        before.wf(),
        0 <= i < before.game_match@.len(),
        state != MatchState::Starting,
        after.game_match@ == before.game_match@.update(i, with_state(before.game_match@[i], state)),
        after.next_match_code == before.next_match_code,
        after.playing_match@ == before.playing_match@,
    ensures
        after.wf(),
{
    let ps = after.playing_match@;
    let ms = after.game_match@;
    let ms0 = before.game_match@;
    assert forall|k: int| 0 <= k < ps.len() implies #[trigger] is_assigned(ms, ps[k]) by {
        assert(is_assigned(ms0, before.playing_match@[k]));
        let j = choose|j: int| 0 <= j < ms0.len() && names_match(ms0[j], ps[k]);
        assert(names_match(ms[j], ps[k]));
    }
    assert forall|a: int, b: int|
        0 <= a < ms.len() && 0 <= b < ms.len() && a != b && ms[a].state == MatchState::Starting
            && ms[b].state == MatchState::Starting && ms[a].map_name@ == ms[b].map_name@
            implies ms[a].gamemode_name@ != ms[b].gamemode_name@ by {
        assert(ms[a] == ms0[a] && ms[b] == ms0[b]);
    }
    assert forall|a: int, b: int| 0 <= a < b < ms.len() implies ms[a].code != ms[b].code by {
        assert(ms[a].code == ms0[a].code && ms[b].code == ms0[b].code);
    }
    assert forall|a: int| 0 <= a < ms.len() implies ms[a].code < after.next_match_code by {
        assert(ms[a].code == ms0[a].code);
    }
}

/// Address that every game server is started on.
pub const GAMESERVER_IP_HOST: &'static str = "127.0.0.1";

/// The row that registering a match of that map, gamemode and address
/// under `code` adds.
pub open spec fn registered_row(
    code: i64,
    map: String,
    gamemode: String,
    server_ip: String,
    server_port: String,
) -> MatchRow {
    MatchRow { code, map_name: map, gamemode_name: gamemode, server_ip, server_port, state: MatchState::Starting }
}

/// The matches went from `before` to `after` by registering the match
/// that `launch` asks to start.
pub open spec fn registers(before: Database, after: Database, launch: LaunchRequest) -> bool {
    &&& launch.code == before.next_match_code
    &&& after.game_match@ == before.game_match@.push(
        registered_row(launch.code, launch.map, launch.gamemode, launch.server_ip, launch.server_port),
    )
    &&& after.next_match_code == before.next_match_code + 1
}

/// `launch` starts a server for that map and gamemode on the game-server
/// host, on a port of the game-server range written in decimal.
pub open spec fn launches_on_host(launch: LaunchRequest, map: String, gamemode: String) -> bool {
    &&& launch.map == map
    &&& launch.gamemode == gamemode
    &&& launch.server_ip@ == GAMESERVER_IP_HOST@
    &&& exists|port: u16| in_gameserver_range(port) && launch.server_port@ == decimal(port as nat)
}

/// The queue as an alive ping of the player at `now` leaves it.
pub open spec fn refreshed_queue(q: Seq<SearchRow>, name: Seq<char>, code: u32, now: u64) -> Seq<SearchRow> {
    Seq::new(q.len(), |i: int| touched(q[i], name, code, now))
}

pub open spec fn search_row(name: String, code: u32, map: String, gamemode: String, now: u64) -> SearchRow {
    SearchRow { player_name: name, player_code: code, map_name: map, gamemode_name: gamemode, alive_time: now }
}

pub open spec fn playing_row(name: String, code: u32, map: String, gamemode: String, match_code: i64) -> PlayingRow {
    PlayingRow {
        player_name: name,
        player_code: code,
        match_map: map,
        match_gamemode: gamemode,
        match_code,
    }
}

/// What an alive ping of a player whose earliest search is for `map` and
/// `gamemode` does to the store and hands back.
pub open spec fn alive_ping_outcome(
    before: Database,
    after: Database,
    r: (Option<MatchServerDetails>, Option<LaunchRequest>),
    name: String,
    code: u32,
    now: u64,
    map: String,
    gamemode: String,
) -> bool {
    let ms = before.game_match@;
    let refreshed = refreshed_queue(before.search_queue@, name@, code, now);
    if has_match(ms, map@, gamemode@, MatchState::Running) {
        exists|k: int|
            #![trigger ms[k]]
            is_first_match(ms, k, map@, gamemode@, MatchState::Running) && {
                &&& r.1 is None
                &&& match r.0 {
                    Some(d) => d.map == map && d.gamemode == gamemode && d.server_ip == ms[k].server_ip
                        && d.server_port == ms[k].server_port,
                    None => false,
                }
                &&& after.playing_match@ == before.playing_match@.push(
                    playing_row(name, code, map, gamemode, ms[k].code),
                )
                &&& after.search_queue@ == refreshed.filter(keeps_others_searches(name@, code))
                &&& after.game_match@ == ms
                &&& after.next_match_code == before.next_match_code
            }
    } else {
        &&& after.search_queue@ == refreshed
        &&& after.playing_match@ == before.playing_match@
        &&& if r.1 is None {
            &&& r.0 is None
            &&& after.game_match@ == ms
            &&& after.next_match_code == before.next_match_code
        } else {
            &&& !has_match(ms, map@, gamemode@, MatchState::Starting)
            &&& match (r.0, r.1) {
                (Some(d), Some(l)) => {
                    &&& registers(before, after, l)
                    &&& launches_on_host(l, map, gamemode)
                    &&& d.map == map && d.gamemode == gamemode
                    &&& d.server_ip == l.server_ip && d.server_port == l.server_port
                },
                _ => false,
            }
        }
    }
}

/// A request to start a game-server process for a newly registered match.
pub struct LaunchRequest {
    pub code: i64,
    pub map: String,
    pub gamemode: String,
    pub server_ip: String,
    pub server_port: String,
}

/// The matchmaker over the store's search queue, matches and players on
/// matches. Every operation takes `&mut self`, so the decision to launch
/// a match and its registration happen as one step.
pub struct PostgreSQLMatchMaker {
    pub database: Database,
}

impl PostgreSQLMatchMaker {
    pub open spec fn wf(&self) -> bool {
        self.database.wf()
    }

    pub open spec fn queue(&self) -> Seq<SearchRow> {
        self.database.search_queue@
    }

    pub open spec fn matches(&self) -> Seq<MatchRow> {
        self.database.game_match@
    }

    pub open spec fn playing(&self) -> Seq<PlayingRow> {
        self.database.playing_match@
    }

    pub fn new(database: Database) -> (r: PostgreSQLMatchMaker)
        requires
            database.wf(),
        ensures
            r.database == database,
            r.wf(),
    {
        PostgreSQLMatchMaker { database }
    }

    pub fn player_is_searching(&self, name: &String, code: &u32) -> (r: bool)
        ensures
            r == is_searching(self.queue(), name@, *code),
    {
        let q = &self.database.search_queue;
        let mut i: usize = 0;
        while i < q.len()
            invariant
                i <= q@.len(),
                q@ == self.queue(),
                forall|j: int| 0 <= j < i ==> !is_search_of(#[trigger] q@[j], name@, *code),
            decreases q.len() - i,
        {
            if q[i].player_name.eq(name) && q[i].player_code == *code {
                assert(is_search_of(q@[i as int], name@, *code));
                return true;
            }
            i = i + 1;
        }
        false
    }

    /// Removes every queued search of the player; nothing else changes.
    pub fn player_stop_search(&mut self, name: &String, code: &u32)
        ensures
            final(self).queue() == old(self).queue().filter(keeps_others_searches(name@, *code)),
            final(self).matches() == old(self).matches(),
            final(self).playing() == old(self).playing(),
            final(self).database.players == old(self).database.players,
            final(self).database.next_match_code == old(self).database.next_match_code,
            !is_searching(old(self).queue(), name@, *code) ==> final(self).queue() == old(self).queue(),
    {
        let ghost keep = keeps_others_searches(name@, *code);
        let picks = (|r: &SearchRow| -> (b: bool)
                ensures
                    b == is_search_of(*r, name@, *code),
                { r.player_name.eq(name) && r.player_code == *code });
        remove_where(&mut self.database.search_queue, picks, Ghost(keep));
        proof {
            if !is_searching(old(self).queue(), name@, *code) {
                assert forall|k: int| 0 <= k < old(self).queue().len() implies keep(
                    #[trigger] old(self).queue()[k],
                ) by {}
                lemma_filter_keeps_all(old(self).queue(), keep);
            }
        }
    }

    /// The map and gamemode of the player's earliest queued search.
    pub fn player_get_search_details(&self, name: &String, code: &u32) -> (r: Option<(String, String)>)
        ensures
            r is None <==> !is_searching(self.queue(), name@, *code),
            r matches Some(d) ==> exists|i: int|
                is_first_search(self.queue(), i, name@, *code) && d.0 == self.queue()[i].map_name
                    && d.1 == self.queue()[i].gamemode_name,
    {
        let q = &self.database.search_queue;
        let mut i: usize = 0;
        while i < q.len()
            invariant
                i <= q@.len(),
                q@ == self.queue(),
                forall|j: int| 0 <= j < i ==> !is_search_of(#[trigger] q@[j], name@, *code),
            decreases q.len() - i,
        {
            if q[i].player_name.eq(name) && q[i].player_code == *code {
                assert(is_first_search(self.queue(), i as int, name@, *code));
                return Some((q[i].map_name.clone(), q[i].gamemode_name.clone()));
            }
            i = i + 1;
        }
        None
    }

    /// Index of the earliest match of that map and gamemode in that state.
    fn find_match(&self, map: &String, gamemode: &String, state: MatchState) -> (r: Option<usize>)
        ensures
            r is None <==> !has_match(self.matches(), map@, gamemode@, state),
            r matches Some(i) ==> is_first_match(self.matches(), i as int, map@, gamemode@, state),
    {
        let ms = &self.database.game_match;
        let mut i: usize = 0;
        while i < ms.len()
            invariant
                i <= ms@.len(),
                ms@ == self.matches(),
                forall|j: int| 0 <= j < i ==> !is_match_of(#[trigger] ms@[j], map@, gamemode@, state),
            decreases ms.len() - i,
        {
            if ms[i].map_name.eq(map) && ms[i].gamemode_name.eq(gamemode) && ms[i].state == state {
                return Some(i);
            }
            i = i + 1;
        }
        None
    }

    /// Code, server address and server port of the earliest running match
    /// of that map and gamemode.
    pub fn get_available_match_details_for(&self, map: &String, gamemode: &String) -> (r: Option<
        (i64, String, String),
    >)
        ensures
            r is None <==> !has_match(self.matches(), map@, gamemode@, MatchState::Running),
            r matches Some(d) ==> exists|i: int|
                is_first_match(self.matches(), i, map@, gamemode@, MatchState::Running) && d.0
                    == self.matches()[i].code && d.1 == self.matches()[i].server_ip && d.2
                    == self.matches()[i].server_port,
    {
        match self.find_match(map, gamemode, MatchState::Running) {
            Some(i) => {
                let m = &self.database.game_match[i];
                Some((m.code, m.server_ip.clone(), m.server_port.clone()))
            },
            None => None,
        }
    }

    pub fn is_match_available(&self, map: &String, gamemode: &String) -> (r: bool)
        ensures
            r == has_match(self.matches(), map@, gamemode@, MatchState::Running),
    {
        self.find_match(map, gamemode, MatchState::Running).is_some()
    }

    pub fn is_any_match_starting(&self, map: &String, gamemode: &String) -> (r: bool)
        ensures
            r == has_match(self.matches(), map@, gamemode@, MatchState::Starting),
    {
        self.find_match(map, gamemode, MatchState::Starting).is_some()
    }

    /// Sets the alive time of every queued search of the player to `now`.
    fn refresh_search(&mut self, name: &String, code: &u32, now: u64)
        ensures
            final(self).queue().len() == old(self).queue().len(),
            forall|i: int|
                0 <= i < old(self).queue().len() ==> #[trigger] final(self).queue()[i] == touched(
                    old(self).queue()[i],
                    name@,
                    *code,
                    now,
                ),
            final(self).matches() == old(self).matches(),
            final(self).playing() == old(self).playing(),
            final(self).database.players == old(self).database.players,
            final(self).database.next_match_code == old(self).database.next_match_code,
    {
        let ghost before = self.database.search_queue@;
        let mut i: usize = 0;
        while i < self.database.search_queue.len()
            invariant
                before == old(self).queue(),
                i <= before.len(),
                self.database.search_queue@.len() == before.len(),
                forall|k: int| 0 <= k < i ==> #[trigger] self.database.search_queue@[k] == touched(before[k], name@, *code, now),
                forall|k: int| i <= k < before.len() ==> #[trigger] self.database.search_queue@[k] == before[k],
                self.database.game_match == old(self).database.game_match,
                self.database.playing_match == old(self).database.playing_match,
                self.database.players == old(self).database.players,
                self.database.next_match_code == old(self).database.next_match_code,
            decreases self.database.search_queue.len() - i,
        {
            if self.database.search_queue[i].player_name.eq(name)
                && self.database.search_queue[i].player_code == *code {
                let mut row = self.database.search_queue.remove(i);
                row.alive_time = now;
                self.database.search_queue.insert(i, row);
            }
            i = i + 1;
        }
    }

    /// Index of the match with that code, map, gamemode and state.
    fn find_match_with_code(&self, map: &String, gamemode: &String, code: &i64, state: MatchState) -> (r:
        Option<usize>)
        ensures
            r is None <==> !has_match_with_code(self.matches(), map@, gamemode@, *code, state),
            r matches Some(i) ==> is_match_with_code(self.matches(), i as int, map@, gamemode@, *code, state),
    {
        let ms = &self.database.game_match;
        let mut i: usize = 0;
        while i < ms.len()
            invariant
                i <= ms@.len(),
                ms@ == self.matches(),
                forall|j: int| 0 <= j < i ==> !is_match_with_code(ms@, j, map@, gamemode@, *code, state),
            decreases ms.len() - i,
        {
            if ms[i].code == *code && ms[i].map_name.eq(map) && ms[i].gamemode_name.eq(gamemode)
                && ms[i].state == state {
                assert(is_match_with_code(self.matches(), i as int, map@, gamemode@, *code, state));
                return Some(i);
            }
            i = i + 1;
        }
        None
    }

    fn set_match_state(&mut self, i: usize, state: MatchState)
        requires
            i < old(self).matches().len(),
        ensures
            final(self).matches() == old(self).matches().update(i as int, with_state(old(self).matches()[i as int], state)),
            final(self).queue() == old(self).queue(),
            final(self).playing() == old(self).playing(),
            final(self).database.players == old(self).database.players,
            final(self).database.next_match_code == old(self).database.next_match_code,
    {
        let mut row = self.database.game_match.remove(i);
        row.state = state;
        self.database.game_match.insert(i, row);
        assert(self.matches() =~= old(self).matches().update(i as int, with_state(old(self).matches()[i as int], state)));
    }

    /// The server of a starting match reports that it is ready: the match
    /// becomes `Running`. Refused, with nothing changed, unless exactly one
    /// `Starting` match has that map, gamemode and code.
    pub fn server_ready(&mut self, map: &String, gamemode: &String, code: &i64) -> (r: bool)
        requires
            old(self).wf(),
        ensures
            final(self).wf(),
            r == has_match_with_code(old(self).matches(), map@, gamemode@, *code, MatchState::Starting),
            r ==> exists|i: int|
                is_match_with_code(old(self).matches(), i, map@, gamemode@, *code, MatchState::Starting)
                    && final(self).matches() == old(self).matches().update(i, with_state(old(self).matches()[i], MatchState::Running)),
            !r ==> final(self).matches() == old(self).matches(),
            states_advance(old(self).matches(), final(self).matches()),
            final(self).queue() == old(self).queue(),
            final(self).playing() == old(self).playing(),
            final(self).database.players == old(self).database.players,
            final(self).database.next_match_code == old(self).database.next_match_code,
    {
        match self.find_match_with_code(map, gamemode, code, MatchState::Starting) {
            Some(i) => {
                let ghost before = self.database;
                self.set_match_state(i, MatchState::Running);
                proof {
                    lemma_wf_after_state_change(before, self.database, i as int, MatchState::Running);
                }
                true
            },
            None => false,
        }
    }

    /// Takes the player off every match; true when there was one to leave.
    pub fn player_stop_playing_on_match(&mut self, name: &String, code: &u32) -> (r: bool)
        requires
            old(self).wf(),
        ensures
            final(self).wf(),
            r == exists|i: int| 0 <= i < old(self).playing().len() && is_playing_of(old(self).playing()[i], name@, *code),
            final(self).playing() == old(self).playing().filter(keeps_others_playing(name@, *code)),
            final(self).queue() == old(self).queue(),
            final(self).matches() == old(self).matches(),
            final(self).database.players == old(self).database.players,
            final(self).database.next_match_code == old(self).database.next_match_code,
    {
        let picks = (|r: &PlayingRow| -> (b: bool)
                ensures
                    b == is_playing_of(*r, name@, *code),
                { r.player_name.eq(name) && r.player_code == *code });
        let ghost keep = keeps_others_playing(name@, *code);
        let removed = remove_where(&mut self.database.playing_match, picks, Ghost(keep));
        proof {
            lemma_wf_after_dropping_assignments(old(self).database, self.database, keep);
            let p = old(self).playing();
            if removed {
                let i = choose|i: int| 0 <= i < p.len() && !keep(#[trigger] p[i]);
                assert(is_playing_of(p[i], name@, *code));
            } else {
                assert forall|i: int| 0 <= i < p.len() implies !is_playing_of(#[trigger] p[i], name@, *code) by {
                    assert(keep(p[i]));
                }
            }
        }
        removed
    }

    /// Takes every player off the match with that map, gamemode and code.
    /// The in-memory store cannot fail a delete, so this always reports
    /// success, also when no player was on that match.
    pub fn players_stop_playing_on_match(&mut self, map: &String, gamemode: &String, match_code: &i64) -> (r: bool)
        requires
            old(self).wf(),
        ensures
            final(self).wf(),
            r == true,
            final(self).playing() == old(self).playing().filter(keeps_playing_elsewhere(map@, gamemode@, *match_code)),
            final(self).queue() == old(self).queue(),
            final(self).matches() == old(self).matches(),
            final(self).database.players == old(self).database.players,
            final(self).database.next_match_code == old(self).database.next_match_code,
    {
        let picks = (|r: &PlayingRow| -> (b: bool)
                ensures
                    b == is_playing_on(*r, map@, gamemode@, *match_code),
                {
                    r.match_code == *match_code && r.match_map.eq(map) && r.match_gamemode.eq(
                        gamemode,
                    )
                });
        let ghost keep = keeps_playing_elsewhere(map@, gamemode@, *match_code);
        remove_where(&mut self.database.playing_match, picks, Ghost(keep));
        proof {
            lemma_wf_after_dropping_assignments(old(self).database, self.database, keep);
        }
        true
    }

    /// The server of a running match reports that it stopped: the match
    /// becomes `Ended`, which is refused unless exactly one `Running` match
    /// has that map, gamemode and code. Whatever the outcome, every player
    /// on a match of that map, gamemode and code is taken off it.
    pub fn server_stop(&mut self, map: &String, gamemode: &String, code: &i64) -> (r: bool)
        requires
            old(self).wf(),
        ensures
            final(self).wf(),
            r == has_match_with_code(old(self).matches(), map@, gamemode@, *code, MatchState::Running),
            r ==> exists|i: int|
                is_match_with_code(old(self).matches(), i, map@, gamemode@, *code, MatchState::Running)
                    && final(self).matches() == old(self).matches().update(i, with_state(old(self).matches()[i], MatchState::Ended)),
            !r ==> final(self).matches() == old(self).matches(),
            states_advance(old(self).matches(), final(self).matches()),
            r ==> final(self).playing() == old(self).playing().filter(keeps_playing_off_code(*code)),
            final(self).playing() == old(self).playing().filter(keeps_playing_elsewhere(map@, gamemode@, *code)),
            final(self).queue() == old(self).queue(),
            final(self).database.players == old(self).database.players,
            final(self).database.next_match_code == old(self).database.next_match_code,
    {
        let r = match self.find_match_with_code(map, gamemode, code, MatchState::Running) {
            Some(i) => {
                let ghost before = self.database;
                self.set_match_state(i, MatchState::Ended);
                proof {
                    lemma_wf_after_state_change(before, self.database, i as int, MatchState::Ended);
                }
                true
            },
            None => false,
        };
        let ghost mid = self.database;
        self.players_stop_playing_on_match(map, gamemode, code);
        proof {
            if r {
                let ms = mid.game_match@;
                let ps = mid.playing_match@;
                let i0 = choose|i: int|
                    is_match_with_code(old(self).matches(), i, map@, gamemode@, *code, MatchState::Running);
                assert forall|k: int| 0 <= k < ps.len() implies keeps_playing_elsewhere(map@, gamemode@, *code)(
                    #[trigger] ps[k],
                ) == keeps_playing_off_code(*code)(ps[k]) by {
                    assert(is_assigned(ms, ps[k]));
                    let j = choose|j: int| 0 <= j < ms.len() && names_match(ms[j], ps[k]);
                    if ps[k].match_code == *code {
                        assert(ms[i0].code == *code);
                        assert(j == i0);
                    }
                }
                lemma_filter_congruent(ps, keeps_playing_elsewhere(map@, gamemode@, *code), keeps_playing_off_code(*code));
            }
        }
        r
    }

    /// Registers a new `Starting` match of that map and gamemode on that
    /// address under the next free code, and hands back the request to
    /// launch its server. The check and the registration are one step: it
    /// is refused, with nothing changed, while a match of that map and
    /// gamemode is running or starting, and once codes are exhausted.
    pub fn match_register(
        &mut self,
        map: &String,
        gamemode: &String,
        gameserver_ip: &String,
        gameserver_port: &String,
    ) -> (r: Option<LaunchRequest>)
        requires
            old(self).wf(),
        ensures
            final(self).wf(),
            r is Some <==> (!has_match(old(self).matches(), map@, gamemode@, MatchState::Running)
                && !has_match(old(self).matches(), map@, gamemode@, MatchState::Starting)
                && old(self).database.next_match_code < i64::MAX),
            r matches Some(l) ==> registers(old(self).database, final(self).database, l)
                && final(self).queue() == old(self).queue() && final(self).playing() == old(
                self,
            ).playing() && final(self).database.players == old(self).database.players && l.map
                == *map && l.gamemode == *gamemode && l.server_ip == *gameserver_ip
                && l.server_port == *gameserver_port,
            r is None ==> *final(self) == *old(self),
            states_advance(old(self).matches(), final(self).matches()),
    {
        if self.is_match_available(map, gamemode) || self.is_any_match_starting(map, gamemode)
            || self.database.next_match_code == i64::MAX {
            return None;
        }
        let code = self.database.next_match_code;
        let row = MatchRow {
            code,
            map_name: map.clone(),
            gamemode_name: gamemode.clone(),
            server_ip: gameserver_ip.clone(),
            server_port: gameserver_port.clone(),
            state: MatchState::Starting,
        };
        self.database.game_match.push(row);
        self.database.next_match_code = code + 1;
        proof {
            let ms = self.matches();
            let n = ms.len() - 1;
            let ps = self.playing();
            assert forall|k: int| 0 <= k < ps.len() implies #[trigger] is_assigned(ms, ps[k]) by {
                assert(is_assigned(old(self).matches(), ps[k]));
                let j = choose|j: int| 0 <= j < old(self).matches().len() && names_match(old(self).matches()[j], ps[k]);
                assert(names_match(ms[j], ps[k]));
            }
            assert forall|i: int, j: int|
                0 <= i < ms.len() && 0 <= j < ms.len() && i != j && ms[i].state == MatchState::Starting
                    && ms[j].state == MatchState::Starting && ms[i].map_name@ == ms[j].map_name@
                    implies ms[i].gamemode_name@ != ms[j].gamemode_name@ by {
                if i == n {
                    assert(!is_match_of(old(self).matches()[j], map@, gamemode@, MatchState::Starting));
                } else if j == n {
                    assert(!is_match_of(old(self).matches()[i], map@, gamemode@, MatchState::Starting));
                } else {
                    assert(ms[i] == old(self).matches()[i] && ms[j] == old(self).matches()[j]);
                }
            }
        }
        Some(LaunchRequest {
            code,
            map: map.clone(),
            gamemode: gamemode.clone(),
            server_ip: gameserver_ip.clone(),
            server_port: gameserver_port.clone(),
        })
    }

    /// Puts the player on the running match of that map, gamemode and code,
    /// and takes the player out of the search queue whether or not that
    /// succeeded. An assignment must name a match of the store (see
    /// `Database::wf`), and only a running match takes players: when there
    /// is no such match the write is refused, the store's not-found case.
    pub fn player_start_playing_on_match(
        &mut self,
        player_name: &String,
        player_code: &u32,
        map: &String,
        gamemode: &String,
        match_code: &i64,
    ) -> (r: bool)
        requires
            old(self).wf(),
        ensures
            final(self).wf(),
            r == has_match_with_code(old(self).matches(), map@, gamemode@, *match_code, MatchState::Running),
            final(self).playing() == if r {
                old(self).playing().push(playing_row(*player_name, *player_code, *map, *gamemode, *match_code))
            } else {
                old(self).playing()
            },
            final(self).queue() == old(self).queue().filter(keeps_others_searches(player_name@, *player_code)),
            final(self).matches() == old(self).matches(),
            final(self).database.players == old(self).database.players,
            final(self).database.next_match_code == old(self).database.next_match_code,
    {
        let r = match self.find_match_with_code(map, gamemode, match_code, MatchState::Running) {
            Some(i) => {
                let ghost before = self.database;
                self.database.playing_match.push(
                    PlayingRow {
                        player_name: player_name.clone(),
                        player_code: *player_code,
                        match_map: map.clone(),
                        match_gamemode: gamemode.clone(),
                        match_code: *match_code,
                    },
                );
                proof {
                    let ms = self.matches();
                    let ps = self.playing();
                    assert forall|k: int| 0 <= k < ps.len() implies #[trigger] is_assigned(ms, ps[k]) by {
                        if k == ps.len() - 1 {
                            assert(names_match(ms[i as int], ps[k]));
                        } else {
                            assert(ps[k] == before.playing_match@[k]);
                        }
                    }
                }
                true
            },
            None => false,
        };
        self.player_stop_search(player_name, player_code);
        r
    }

    /// Picks a free port on the game-server host and registers a match
    /// there. Nothing changes when no port could be had.
    fn launch_match_for(&mut self, map: &String, gamemode: &String) -> (r: Option<LaunchRequest>)
        requires
            old(self).wf(),
        ensures
            final(self).wf(),
            states_advance(old(self).matches(), final(self).matches()),
            r is None ==> *final(self) == *old(self),
            r matches Some(l) ==> {
                &&& !has_match(old(self).matches(), map@, gamemode@, MatchState::Running)
                &&& !has_match(old(self).matches(), map@, gamemode@, MatchState::Starting)
                &&& registers(old(self).database, final(self).database, l)
                &&& launches_on_host(l, *map, *gamemode)
                &&& final(self).queue() == old(self).queue()
                &&& final(self).playing() == old(self).playing()
                &&& final(self).database.players == old(self).database.players
            },
    {
        match get_free_random_port_for_gameserver(PORT_ATTEMPTS) {
            Ok(port) => self.register_on_port(map, gamemode, port),
            Err(_) => None,
        }
    }

    /// Registers a `Starting` match of that map and gamemode on `port` of
    /// the game-server host, exactly as `match_register` does with the
    /// host's address and the port's decimal text.
    pub fn register_on_port(&mut self, map: &String, gamemode: &String, port: u16) -> (r: Option<LaunchRequest>)
        requires
            old(self).wf(),
        ensures
            final(self).wf(),
            states_advance(old(self).matches(), final(self).matches()),
            r is Some <==> (!has_match(old(self).matches(), map@, gamemode@, MatchState::Running)
                && !has_match(old(self).matches(), map@, gamemode@, MatchState::Starting)
                && old(self).database.next_match_code < i64::MAX),
            r is None ==> *final(self) == *old(self),
            r matches Some(l) ==> {
                &&& registers(old(self).database, final(self).database, l)
                &&& l.map == *map && l.gamemode == *gamemode
                &&& l.server_ip@ == GAMESERVER_IP_HOST@
                &&& l.server_port@ == decimal(port as nat)
                &&& final(self).queue() == old(self).queue()
                &&& final(self).playing() == old(self).playing()
                &&& final(self).database.players == old(self).database.players
            },
    {
        let ip = GAMESERVER_IP_HOST.to_owned();
        let port_string = port_text(port);
        self.match_register(map, gamemode, &ip, &port_string)
    }

    /// Queues a search of the player for that map and gamemode. When no
    /// match of that map and gamemode is running or starting, registers
    /// one on a free port and hands back the request to launch it.
    pub fn player_start_search(
        &mut self,
        name: &String,
        code: &u32,
        map: &String,
        gamemode: &String,
        now: u64,
    ) -> (r: Option<LaunchRequest>)
        requires
            old(self).wf(),
        ensures
            final(self).wf(),
            states_advance(old(self).matches(), final(self).matches()),
            final(self).queue() == old(self).queue().push(search_row(*name, *code, *map, *gamemode, now)),
            final(self).playing() == old(self).playing(),
            final(self).database.players == old(self).database.players,
            (has_match(old(self).matches(), map@, gamemode@, MatchState::Running) || has_match(
                old(self).matches(),
                map@,
                gamemode@,
                MatchState::Starting,
            )) ==> r is None,
            r is None ==> final(self).matches() == old(self).matches()
                && final(self).database.next_match_code == old(self).database.next_match_code,
            r matches Some(l) ==> registers(old(self).database, final(self).database, l)
                && launches_on_host(l, *map, *gamemode),
    {
        self.database.search_queue.push(
            SearchRow {
                player_name: name.clone(),
                player_code: *code,
                map_name: map.clone(),
                gamemode_name: gamemode.clone(),
                alive_time: now,
            },
        );
        if !self.is_match_available(map, gamemode) && !self.is_any_match_starting(map, gamemode) {
            self.launch_match_for(map, gamemode)
        } else {
            None
        }
    }

    /// A searching player's periodic ping: refreshes the alive time of the
    /// player's searches, then, for the map and gamemode of the earliest
    /// one, puts the player on a running match, or registers a match when
    /// none is starting and hands out its address ahead of time, or hands
    /// back nothing so that the player pings again.
    pub fn player_search_alive_ping(&mut self, name: &String, code: &u32, now: u64) -> (r: (
        Option<MatchServerDetails>,
        Option<LaunchRequest>,
    ))
        requires
            old(self).wf(),
        ensures
            final(self).wf(),
            states_advance(old(self).matches(), final(self).matches()),
            final(self).database.players == old(self).database.players,
            !is_searching(old(self).queue(), name@, *code) ==> {
                &&& r.0 is None && r.1 is None
                &&& final(self).queue() == old(self).queue()
                &&& final(self).matches() == old(self).matches()
                &&& final(self).playing() == old(self).playing()
                &&& final(self).database.next_match_code == old(self).database.next_match_code
            },
            is_searching(old(self).queue(), name@, *code) ==> exists|i: int|
                is_first_search(old(self).queue(), i, name@, *code) && alive_ping_outcome(
                    old(self).database,
                    final(self).database,
                    r,
                    *name,
                    *code,
                    now,
                    old(self).queue()[i].map_name,
                    old(self).queue()[i].gamemode_name,
                ),
    {
        let ghost q0 = self.queue();
        let ghost db0 = self.database;
        self.refresh_search(name, code, now);
        proof {
            assert(self.queue() =~= refreshed_queue(q0, name@, *code, now));
            if !is_searching(q0, name@, *code) {
                assert(self.queue() =~= q0);
            }
        }
        match self.player_get_search_details(name, code) {
            None => {
                proof {
                    if is_searching(q0, name@, *code) {
                        let k = choose|k: int| 0 <= k < q0.len() && is_search_of(q0[k], name@, *code);
                        assert(is_search_of(self.queue()[k], name@, *code));
                    }
                }
                (None, None)
            },
            Some((map, gamemode)) => {
                let ghost i = choose|i: int|
                    is_first_search(self.queue(), i, name@, *code) && map == self.queue()[i].map_name
                        && gamemode == self.queue()[i].gamemode_name;
                proof {
                    assert(is_first_search(q0, i, name@, *code)) by {
                        assert forall|j: int| 0 <= j < i implies !is_search_of(#[trigger] q0[j], name@, *code) by {
                            assert(!is_search_of(self.queue()[j], name@, *code));
                        }
                    }
                    assert(map == q0[i].map_name && gamemode == q0[i].gamemode_name);
                }
                match self.get_available_match_details_for(&map, &gamemode) {
                    Some((match_code, server_ip, server_port)) => {
                        let ghost k = choose|k: int|
                            is_first_match(db0.game_match@, k, map@, gamemode@, MatchState::Running)
                                && match_code == db0.game_match@[k].code && server_ip
                                == db0.game_match@[k].server_ip && server_port
                                == db0.game_match@[k].server_port;
                        assert(is_match_with_code(self.matches(), k, map@, gamemode@, match_code, MatchState::Running));
                        self.player_start_playing_on_match(name, code, &map, &gamemode, &match_code);
                        let r = (Some(MatchServerDetails::new(map, gamemode, server_ip, server_port)), None);
                        assert(is_first_match(db0.game_match@, k, map@, gamemode@, MatchState::Running));
                        r
                    },
                    None => {
                        if self.is_any_match_starting(&map, &gamemode) {
                            (None, None)
                        } else {
                            match self.launch_match_for(&map, &gamemode) {
                                Some(launch) => {
                                    let details = MatchServerDetails::new(
                                        map,
                                        gamemode,
                                        launch.server_ip.clone(),
                                        launch.server_port.clone(),
                                    );
                                    (Some(details), Some(launch))
                                },
                                None => (None, None),
                            }
                        }
                    },
                }
            },
        }
    }
}

/// The matchmaker's operations, independent of the store behind them.
/// Each one keeps the implementation's well-formedness, so that for any
/// map and gamemode at most one match is ever starting.
pub trait MatchMaker {
    spec fn well_formed(&self) -> bool;

    fn player_start_search(&mut self, name: &String, code: &u32, map: &String, gamemode: &String, now: u64) -> (r:
        Option<LaunchRequest>)
        requires
            old(self).well_formed(),
        ensures
            final(self).well_formed(),
    ;

    fn player_stop_search(&mut self, name: &String, code: &u32)
        requires
            old(self).well_formed(),
        ensures
            final(self).well_formed(),
    ;

    fn player_is_searching(&self, name: &String, code: &u32) -> bool;

    fn player_search_alive_ping(&mut self, name: &String, code: &u32, now: u64) -> (r: (
        Option<MatchServerDetails>,
        Option<LaunchRequest>,
    ))
        requires
            old(self).well_formed(),
        ensures
            final(self).well_formed(),
    ;

    fn player_stop_playing_on_match(&mut self, name: &String, code: &u32) -> (r: bool)
        requires
            old(self).well_formed(),
        ensures
            final(self).well_formed(),
    ;

    fn server_ready(&mut self, map: &String, gamemode: &String, code: &i64) -> (r: bool)
        requires
            old(self).well_formed(),
        ensures
            final(self).well_formed(),
    ;

    fn server_stop(&mut self, map: &String, gamemode: &String, code: &i64) -> (r: bool)
        requires
            old(self).well_formed(),
        ensures
            final(self).well_formed(),
    ;
}

impl MatchMaker for PostgreSQLMatchMaker {
    open spec fn well_formed(&self) -> bool {
        self.wf()
    }

    fn player_start_search(&mut self, name: &String, code: &u32, map: &String, gamemode: &String, now: u64) -> (r:
        Option<LaunchRequest>) {
        PostgreSQLMatchMaker::player_start_search(self, name, code, map, gamemode, now)
    }

    fn player_stop_search(&mut self, name: &String, code: &u32) {
        PostgreSQLMatchMaker::player_stop_search(self, name, code)
    }

    fn player_is_searching(&self, name: &String, code: &u32) -> bool {
        PostgreSQLMatchMaker::player_is_searching(self, name, code)
    }

    fn player_search_alive_ping(&mut self, name: &String, code: &u32, now: u64) -> (r: (
        Option<MatchServerDetails>,
        Option<LaunchRequest>,
    )) {
        PostgreSQLMatchMaker::player_search_alive_ping(self, name, code, now)
    }

    fn player_stop_playing_on_match(&mut self, name: &String, code: &u32) -> (r: bool) {
        PostgreSQLMatchMaker::player_stop_playing_on_match(self, name, code)
    }

    fn server_ready(&mut self, map: &String, gamemode: &String, code: &i64) -> (r: bool) {
        PostgreSQLMatchMaker::server_ready(self, map, gamemode, code)
    }

    fn server_stop(&mut self, map: &String, gamemode: &String, code: &i64) -> (r: bool) {
        PostgreSQLMatchMaker::server_stop(self, map, gamemode, code)
    }
}

} // verus!
