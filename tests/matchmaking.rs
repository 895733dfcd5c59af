use balloondle_lobby::database::{Database, MatchState};
use balloondle_lobby::matchmaker::{MatchMaker, PostgreSQLMatchMaker};
use balloondle_lobby::port_assigner::{
    get_free_random_port_for_gameserver, port_step, port_text, PortError, PortStep, MAX_GAMESERVER_PORT, MIN_GAMESERVER_PORT,
    PORT_ATTEMPTS,
};

fn s(text: &str) -> String {
    String::from(text)
}

fn fresh_matchmaker() -> PostgreSQLMatchMaker {
    PostgreSQLMatchMaker::new(Database::new())
}

#[test]
fn first_search_registers_and_launches_a_starting_match() {
    let mut mm = fresh_matchmaker();
    let launch = mm
        .player_start_search(&s("P1"), &1, &s("arena"), &s("ffa"), 10)
        .expect("a launch is requested");
    assert_eq!(launch.map, "arena");
    assert_eq!(launch.gamemode, "ffa");
    assert_eq!(launch.server_ip, "127.0.0.1");
    let port: u16 = launch.server_port.parse().expect("decimal port");
    assert!(port >= MIN_GAMESERVER_PORT && port < MAX_GAMESERVER_PORT);
    assert_eq!(launch.code, 1);
    assert_eq!(mm.database.game_match.len(), 1);
    let m = &mm.database.game_match[0];
    assert_eq!(m.state, MatchState::Starting);
    assert_eq!(m.code, launch.code);
    assert_eq!(m.server_port, launch.server_port);
    assert!(mm.player_is_searching(&s("P1"), &1));
    assert_eq!(mm.database.search_queue[0].alive_time, 10);
}

#[test]
fn second_search_while_starting_requests_no_launch() {
    let mut mm = fresh_matchmaker();
    assert!(mm.player_start_search(&s("P1"), &1, &s("arena"), &s("ffa"), 0).is_some());
    let second = mm.player_start_search(&s("P2"), &2, &s("arena"), &s("ffa"), 1);
    assert!(second.is_none());
    assert_eq!(mm.database.game_match.len(), 1);
    assert_eq!(mm.database.search_queue.len(), 2);
    assert!(mm.player_is_searching(&s("P2"), &2));
}

#[test]
fn ready_match_is_assigned_on_next_ping() {
    let mut mm = fresh_matchmaker();
    let launch = mm.player_start_search(&s("P1"), &1, &s("arena"), &s("ffa"), 0).unwrap();
    assert!(mm.server_ready(&s("arena"), &s("ffa"), &launch.code));
    assert_eq!(mm.database.game_match[0].state, MatchState::Running);
    let (details, relaunch) = mm.player_search_alive_ping(&s("P1"), &1, 5);
    assert!(relaunch.is_none());
    let details = details.expect("an assignment");
    assert_eq!(details.map, "arena");
    assert_eq!(details.gamemode, "ffa");
    assert_eq!(details.server_ip, "127.0.0.1");
    assert_eq!(details.server_port, launch.server_port);
    assert!(!mm.player_is_searching(&s("P1"), &1));
    assert_eq!(mm.database.playing_match.len(), 1);
    assert_eq!(mm.database.playing_match[0].player_name, "P1");
    assert_eq!(mm.database.playing_match[0].match_code, launch.code);
}

#[test]
fn stopped_match_ends_and_releases_its_players() {
    let mut mm = fresh_matchmaker();
    let launch = mm.player_start_search(&s("P1"), &1, &s("arena"), &s("ffa"), 0).unwrap();
    mm.player_start_search(&s("P2"), &2, &s("arena"), &s("ffa"), 0);
    assert!(mm.server_ready(&s("arena"), &s("ffa"), &launch.code));
    assert!(mm.player_search_alive_ping(&s("P1"), &1, 1).0.is_some());
    assert!(mm.player_search_alive_ping(&s("P2"), &2, 1).0.is_some());
    assert_eq!(mm.database.playing_match.len(), 2);
    assert!(mm.server_stop(&s("arena"), &s("ffa"), &launch.code));
    assert_eq!(mm.database.game_match[0].state, MatchState::Ended);
    assert_eq!(mm.database.playing_match.len(), 0);
}

#[test]
fn ready_and_stop_are_refused_out_of_order() {
    let mut mm = fresh_matchmaker();
    let launch = mm.player_start_search(&s("P1"), &1, &s("arena"), &s("ffa"), 0).unwrap();
    assert!(!mm.server_stop(&s("arena"), &s("ffa"), &launch.code));
    assert_eq!(mm.database.game_match[0].state, MatchState::Starting);
    assert!(mm.server_ready(&s("arena"), &s("ffa"), &launch.code));
    assert!(!mm.server_ready(&s("arena"), &s("ffa"), &launch.code));
    assert!(mm.server_stop(&s("arena"), &s("ffa"), &launch.code));
    assert!(!mm.server_ready(&s("arena"), &s("ffa"), &launch.code));
    assert!(!mm.server_stop(&s("arena"), &s("ffa"), &launch.code));
    assert_eq!(mm.database.game_match[0].state, MatchState::Ended);
}

#[test]
fn ready_with_wrong_map_or_code_is_refused() {
    let mut mm = fresh_matchmaker();
    let launch = mm.player_start_search(&s("P1"), &1, &s("arena"), &s("ffa"), 0).unwrap();
    assert!(!mm.server_ready(&s("dunes"), &s("ffa"), &launch.code));
    assert!(!mm.server_ready(&s("arena"), &s("ffa"), &(launch.code + 1)));
    assert_eq!(mm.database.game_match[0].state, MatchState::Starting);
}

#[test]
fn stop_search_without_search_changes_nothing() {
    let mut mm = fresh_matchmaker();
    mm.player_start_search(&s("P1"), &1, &s("arena"), &s("ffa"), 0);
    mm.player_stop_search(&s("P9"), &9);
    assert_eq!(mm.database.search_queue.len(), 1);
    mm.player_stop_search(&s("P1"), &1);
    assert!(!mm.player_is_searching(&s("P1"), &1));
    mm.player_stop_search(&s("P1"), &1);
    assert_eq!(mm.database.search_queue.len(), 0);
}

#[test]
fn duplicate_search_rows_are_all_removed() {
    let mut mm = fresh_matchmaker();
    mm.player_start_search(&s("P1"), &1, &s("arena"), &s("ffa"), 0);
    mm.player_start_search(&s("P1"), &1, &s("arena"), &s("ffa"), 0);
    mm.player_start_search(&s("P2"), &2, &s("arena"), &s("ffa"), 0);
    assert_eq!(mm.database.search_queue.len(), 3);
    mm.player_stop_search(&s("P1"), &1);
    assert_eq!(mm.database.search_queue.len(), 1);
    assert_eq!(mm.database.search_queue[0].player_name, "P2");
}

#[test]
fn ping_without_search_gives_nothing() {
    let mut mm = fresh_matchmaker();
    let (details, launch) = mm.player_search_alive_ping(&s("P1"), &1, 3);
    assert!(details.is_none() && launch.is_none());
    assert_eq!(mm.database.game_match.len(), 0);
}

#[test]
fn ping_while_starting_refreshes_and_waits() {
    let mut mm = fresh_matchmaker();
    mm.player_start_search(&s("P1"), &1, &s("arena"), &s("ffa"), 0);
    let (details, launch) = mm.player_search_alive_ping(&s("P1"), &1, 42);
    assert!(details.is_none() && launch.is_none());
    assert_eq!(mm.database.search_queue[0].alive_time, 42);
    assert!(mm.player_is_searching(&s("P1"), &1));
}

#[test]
fn ping_with_no_match_registers_one_provisionally() {
    let mut mm = fresh_matchmaker();
    let first = mm.player_start_search(&s("P1"), &1, &s("arena"), &s("ffa"), 0).unwrap();
    assert!(mm.server_ready(&s("arena"), &s("ffa"), &first.code));
    assert!(mm.server_stop(&s("arena"), &s("ffa"), &first.code));
    mm.database.search_queue.clear();
    mm.player_start_search(&s("P2"), &2, &s("arena"), &s("ffa"), 0);
    let newest = mm.database.game_match.len();
    assert_eq!(newest, 2);
    mm.database.game_match[1].state = MatchState::Ended;
    let (details, launch) = mm.player_search_alive_ping(&s("P2"), &2, 7);
    let launch = launch.expect("a launch");
    let details = details.expect("a provisional address");
    assert_eq!(launch.code, 3);
    assert_eq!(details.server_port, launch.server_port);
    assert_eq!(details.server_ip, "127.0.0.1");
    assert_eq!(mm.database.game_match[2].state, MatchState::Starting);
    assert!(mm.player_is_searching(&s("P2"), &2));
}

#[test]
fn register_is_refused_while_a_match_is_starting_or_running() {
    let mut mm = fresh_matchmaker();
    let ip = s("127.0.0.1");
    let l = mm.match_register(&s("arena"), &s("ffa"), &ip, &s("2000")).unwrap();
    assert_eq!(l.server_port, "2000");
    assert!(mm.match_register(&s("arena"), &s("ffa"), &ip, &s("2001")).is_none());
    assert!(mm.server_ready(&s("arena"), &s("ffa"), &l.code));
    assert!(mm.match_register(&s("arena"), &s("ffa"), &ip, &s("2001")).is_none());
    assert!(mm.match_register(&s("arena"), &s("duel"), &ip, &s("2001")).is_some());
    assert_eq!(mm.database.game_match.len(), 2);
}

#[test]
fn start_playing_needs_a_running_match_but_always_ends_the_search() {
    let mut mm = fresh_matchmaker();
    let l = mm.player_start_search(&s("P1"), &1, &s("arena"), &s("ffa"), 0).unwrap();
    assert!(!mm.player_start_playing_on_match(&s("P1"), &1, &s("arena"), &s("ffa"), &l.code));
    assert!(!mm.player_is_searching(&s("P1"), &1));
    assert_eq!(mm.database.playing_match.len(), 0);
    assert!(mm.server_ready(&s("arena"), &s("ffa"), &l.code));
    assert!(mm.player_start_playing_on_match(&s("P1"), &1, &s("arena"), &s("ffa"), &l.code));
    assert!(mm.player_stop_playing_on_match(&s("P1"), &1));
    assert!(!mm.player_stop_playing_on_match(&s("P1"), &1));
}

#[test]
fn queries_report_running_and_starting_matches() {
    let mut mm = fresh_matchmaker();
    let l = mm.player_start_search(&s("P1"), &1, &s("arena"), &s("ffa"), 0).unwrap();
    assert!(mm.is_any_match_starting(&s("arena"), &s("ffa")));
    assert!(!mm.is_match_available(&s("arena"), &s("ffa")));
    assert!(mm.get_available_match_details_for(&s("arena"), &s("ffa")).is_none());
    mm.server_ready(&s("arena"), &s("ffa"), &l.code);
    assert!(!mm.is_any_match_starting(&s("arena"), &s("ffa")));
    assert!(mm.is_match_available(&s("arena"), &s("ffa")));
    let (code, ip, port) = mm.get_available_match_details_for(&s("arena"), &s("ffa")).unwrap();
    assert_eq!(code, l.code);
    assert_eq!(ip, "127.0.0.1");
    assert_eq!(port, l.server_port);
    assert_eq!(
        mm.player_get_search_details(&s("P1"), &1),
        Some((s("arena"), s("ffa")))
    );
    assert_eq!(mm.player_get_search_details(&s("P2"), &2), None);
}

#[test]
fn players_stop_playing_only_on_that_match() {
    let mut mm = fresh_matchmaker();
    let a = mm.player_start_search(&s("P1"), &1, &s("arena"), &s("ffa"), 0).unwrap();
    let b = mm.player_start_search(&s("P2"), &2, &s("dunes"), &s("ffa"), 0).unwrap();
    mm.server_ready(&s("arena"), &s("ffa"), &a.code);
    mm.server_ready(&s("dunes"), &s("ffa"), &b.code);
    mm.player_search_alive_ping(&s("P1"), &1, 1);
    mm.player_search_alive_ping(&s("P2"), &2, 1);
    assert!(mm.players_stop_playing_on_match(&s("arena"), &s("ffa"), &a.code));
    assert_eq!(mm.database.playing_match.len(), 1);
    assert_eq!(mm.database.playing_match[0].player_name, "P2");
    assert!(mm.players_stop_playing_on_match(&s("arena"), &s("ffa"), &a.code));
    assert_eq!(mm.database.playing_match.len(), 1);
}

#[test]
fn match_whose_launch_failed_stays_starting() {
    let mut mm = fresh_matchmaker();
    // The launch request is dropped, as when the server process never starts.
    let launch = mm.player_start_search(&s("P1"), &1, &s("arena"), &s("ffa"), 0).unwrap();
    drop(launch);
    for t in 1..5u64 {
        let (details, relaunch) = mm.player_search_alive_ping(&s("P1"), &1, t);
        assert!(details.is_none() && relaunch.is_none());
    }
    assert!(mm.player_start_search(&s("P2"), &2, &s("arena"), &s("ffa"), 9).is_none());
    assert_eq!(mm.database.game_match.len(), 1);
    assert_eq!(mm.database.game_match[0].state, MatchState::Starting);
    assert!(mm.player_is_searching(&s("P1"), &1));
}

#[test]
fn port_step_follows_the_probe() {
    assert_eq!(port_step(0, 3, 2000, true), PortStep::Use(2000));
    assert_eq!(port_step(0, 3, 2000, false), PortStep::Retry);
    assert_eq!(port_step(1, 3, 2000, false), PortStep::Retry);
    assert_eq!(port_step(2, 3, 2000, false), PortStep::GiveUp);
    assert_eq!(port_step(2, 3, 4000, true), PortStep::Use(4000));
}

#[test]
fn port_allocation_with_no_attempts_fails() {
    assert_eq!(get_free_random_port_for_gameserver(0), Err(PortError::NoPortAvailable));
}

#[test]
fn allocated_port_is_in_range() {
    let port = get_free_random_port_for_gameserver(PORT_ATTEMPTS).expect("a free port");
    assert!(port >= MIN_GAMESERVER_PORT && port < MAX_GAMESERVER_PORT);
}

#[test]
fn port_text_is_plain_decimal() {
    assert_eq!(port_text(0), "0");
    assert_eq!(port_text(7), "7");
    assert_eq!(port_text(1026), "1026");
    assert_eq!(port_text(64999), "64999");
    assert_eq!(port_text(65535), "65535");
}

fn search_and_ready<M: MatchMaker>(mm: &mut M) -> Option<i64> {
    let launch = mm.player_start_search(&s("P1"), &1, &s("arena"), &s("ffa"), 0)?;
    if mm.server_ready(&s("arena"), &s("ffa"), &launch.code) {
        Some(launch.code)
    } else {
        None
    }
}

#[test]
fn matchmaker_works_through_its_interface() {
    let mut mm = fresh_matchmaker();
    let code = search_and_ready(&mut mm).expect("a ready match");
    let (details, _) = MatchMaker::player_search_alive_ping(&mut mm, &s("P1"), &1, 1);
    assert!(details.is_some());
    assert!(!MatchMaker::player_is_searching(&mm, &s("P1"), &1));
    assert!(MatchMaker::server_stop(&mut mm, &s("arena"), &s("ffa"), &code));
    assert!(!MatchMaker::player_stop_playing_on_match(&mut mm, &s("P1"), &1));
}

#[test]
fn registering_on_a_given_port_starts_a_match_there() {
    let mut mm = fresh_matchmaker();
    let launch = mm.register_on_port(&s("arena"), &s("ffa"), 4242).expect("a launch");
    assert_eq!(launch.code, 1);
    assert_eq!(launch.map, "arena");
    assert_eq!(launch.gamemode, "ffa");
    assert_eq!(launch.server_ip, "127.0.0.1");
    assert_eq!(launch.server_port, "4242");
    assert_eq!(mm.database.game_match[0].state, MatchState::Starting);
    assert_eq!(mm.database.game_match[0].server_port, "4242");
    assert!(mm.register_on_port(&s("arena"), &s("ffa"), 4243).is_none());
    assert_eq!(mm.database.game_match.len(), 1);
}
