use vstd::prelude::*;

verus! {

/// Where a player goes to play: the match's map and gamemode and the
/// server's address, all as text.
pub struct MatchServerDetails {
    pub map: String,
    pub gamemode: String,
    pub server_ip: String,
    pub server_port: String,
}

impl MatchServerDetails {
    pub fn new(map: String, gamemode: String, server_ip: String, server_port: String) -> (r:
        MatchServerDetails)
        ensures
            r.map == map,
            r.gamemode == gamemode,
            r.server_ip == server_ip,
            r.server_port == server_port,
    {
        MatchServerDetails { map, gamemode, server_ip, server_port }
    }
}

} // verus!
