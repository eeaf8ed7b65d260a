use std::collections::HashMap;
use spaceball::peers::{
    handle_player_name_broadcast, handle_receiving_peer_messages, handle_reporting_peer_disconnecting, reset_peer_names,
    PeerConnectionEvent, PeerHandles, PeerMessage, PeerNames, PeerState,
};
use spaceball::players::{
    handle_match_time, handle_reporting_death, report_death, reset_match_time_in_multiplayer, send_new_players_joined,
    update_player_names, MatchTime, PlayerData, PlayerDied, PlayerJoined, PlayerRegistry, MATCH_DURATION,
};
use spaceball::session::{
    build_session, room_url, session_players, PlayerCount, PlayerType, SessionDecision, INPUT_DELAY, MAINTAINED_FPS,
    MAX_PREDICTION_FRAMES,
};
use spaceball::teams::Team;

fn registry(n: usize) -> PlayerRegistry {
    let mut r = PlayerRegistry::default();
    for i in 0..n {
        r.0.push(PlayerData::from_team(i as u8).with_name(format!("p{}", i)));
    }
    r
}

#[test]
fn peers_join_chat_and_leave() {
    let mut names = PeerNames::default();
    let mut handles = PeerHandles::default();
    handles.map.insert(7, 1);
    let chat = handle_receiving_peer_messages(
        vec![
            (5, PeerMessage::PlayerName { name: "Bo".to_string() }),
            (5, PeerMessage::PlayerName { name: "Bob".to_string() }),
            (5, PeerMessage::Chat { message: "hi".to_string() }),
            (7, PeerMessage::Chat { message: "yo".to_string() }),
            (9, PeerMessage::Chat { message: "ignored".to_string() }),
        ],
        &mut names,
        &handles,
    );
    let texts: Vec<String> = chat.iter().map(|m| m.message.clone()).collect();
    assert_eq!(texts, vec!["Bo joined!", "Bob: hi", "{0}: yo"]);
    assert_eq!(chat[2].player_handles, vec![1]);
    assert_eq!(names.map.get(&5), Some(&"Bob".to_string()));
    let left = handle_reporting_peer_disconnecting(
        &vec![
            PeerConnectionEvent { id: 5, state: PeerState::Disconnected },
            PeerConnectionEvent { id: 5, state: PeerState::Disconnected },
            PeerConnectionEvent { id: 6, state: PeerState::Connected },
        ],
        &mut names,
    );
    assert_eq!(left.len(), 1);
    assert_eq!(left[0].message, "Bob left!");
    assert!(names.map.is_empty());
    reset_peer_names(&mut names, &mut handles);
    assert!(handles.map.is_empty());
}

#[test]
fn name_broadcast_on_connection() {
    let name = "Me".to_string();
    let none = handle_player_name_broadcast(&vec![PeerConnectionEvent { id: 1, state: PeerState::Disconnected }], &name);
    assert!(none.is_none());
    match handle_player_name_broadcast(&vec![PeerConnectionEvent { id: 1, state: PeerState::Connected }], &name) {
        Some(PeerMessage::PlayerName { name }) => assert_eq!(name, "Me"),
        _ => panic!("expected the name to be broadcast"),
    }
}

#[test]
fn deaths_are_tallied_and_announced() {
    let mut players = registry(3);
    players.0[1].team = Team(0);
    let m = report_death(&mut players, PlayerDied { player_handle: 0, killed_by: Some(2) }).unwrap();
    assert_eq!(m.message, "{0} killed {1}!");
    assert_eq!(m.player_handles, vec![2, 0]);
    assert_eq!(players.0[0].deaths, 1);
    assert_eq!(players.0[2].kills, 1);
    // a teammate's kill is not counted
    let m = report_death(&mut players, PlayerDied { player_handle: 1, killed_by: Some(0) }).unwrap();
    assert_eq!(m.message, "{0} killed {1}!");
    assert_eq!(players.0[0].kills, 0);
    let m = report_death(&mut players, PlayerDied { player_handle: 2, killed_by: None }).unwrap();
    assert_eq!(m.message, "{0} died!");
    assert_eq!(m.player_handles, vec![2]);
    assert!(report_death(&mut players, PlayerDied { player_handle: 9, killed_by: None }).is_none());
    let m = report_death(&mut players, PlayerDied { player_handle: 2, killed_by: Some(40) }).unwrap();
    assert_eq!(m.message, "{0} died!");
}

#[test]
fn reporting_deaths_in_order() {
    let mut players = registry(2);
    let msgs = handle_reporting_death(
        &mut players,
        &vec![
            PlayerDied { player_handle: 0, killed_by: Some(1) },
            PlayerDied { player_handle: 5, killed_by: None },
            PlayerDied { player_handle: 1, killed_by: None },
        ],
    );
    assert_eq!(msgs.len(), 2);
    assert_eq!(players.0[0].deaths, 1);
    assert_eq!(players.0[1].kills, 1);
    assert_eq!(players.0[1].deaths, 1);
}

#[test]
fn player_names_follow_peers() {
    let mut players = registry(2);
    let mut names = PeerNames::default();
    names.map.insert(11, "Remote".to_string());
    names.map.insert(12, "Nobody".to_string());
    let mut handles = PeerHandles::default();
    handles.map.insert(11, 1);
    handles.map.insert(12, 9);
    update_player_names(false, &names, &handles, &mut players);
    assert_eq!(players.0[1].name, "p1");
    update_player_names(true, &names, &handles, &mut players);
    assert_eq!(players.0[1].name, "Remote");
    assert_eq!(players.0[0].name, "p0");
}

#[test]
fn match_clock() {
    assert!(reset_match_time_in_multiplayer(1).is_none());
    let mut clock = reset_match_time_in_multiplayer(2);
    assert!(!handle_match_time(&mut clock, MATCH_DURATION - 1));
    assert!(handle_match_time(&mut clock, 1));
    assert!(clock.is_none());
    assert!(!handle_match_time(&mut clock, 1));
    assert_eq!(MatchTime::default().0.duration(), 60_000_000_000);
}

#[test]
fn joined_players_are_announced_once() {
    let mut previous = 0usize;
    let joined = send_new_players_joined(3, &mut previous, false);
    let handles: Vec<usize> = joined.iter().map(|j: &PlayerJoined| j.player_handle).collect();
    assert_eq!(handles, vec![0, 1, 2]);
    assert_eq!(previous, 3);
    assert!(send_new_players_joined(3, &mut previous, false).is_empty());
    assert_eq!(send_new_players_joined(3, &mut previous, true).len(), 3);
    assert!(send_new_players_joined(1, &mut previous, false).is_empty());
    assert_eq!(previous, 1);
}

#[test]
fn session_players_are_sorted() {
    assert_eq!(session_players(None, &vec![3, 1]), vec![PlayerType::Local]);
    let players = session_players(Some(5), &vec![9, 2]);
    assert_eq!(players, vec![PlayerType::Remote(2), PlayerType::Local, PlayerType::Remote(9)]);
}

#[test]
fn session_waits_refuses_and_starts() {
    let name = "Me".to_string();
    let two = vec![PlayerType::Remote(4), PlayerType::Local];
    assert!(matches!(build_session(&two, PlayerCount(3), &name), SessionDecision::Wait));
    assert!(matches!(build_session(&two, PlayerCount(1), &name), SessionDecision::Full));
    match build_session(&two, PlayerCount(2), &name) {
        SessionDecision::Start(start) => {
            assert_eq!(start.registry.0.len(), 2);
            assert_eq!(start.registry.0[0].team, Team(0));
            assert_eq!(start.registry.0[1].team, Team(1));
            assert_eq!(start.registry.0[1].name, "Me");
            assert_eq!(start.registry.0[0].name, "");
            let mut expected = HashMap::new();
            expected.insert(4u128, 0usize);
            assert_eq!(start.peer_handles.map, expected);
            assert_eq!(start.local_handle, Some(1));
        }
        _ => panic!("expected the session to start"),
    }
}

#[test]
fn room_urls() {
    let (url, attempts) = room_url(PlayerCount(2), &"wss://Example.org".to_string(), &"MyRoom".to_string());
    assert_eq!(url, "wss://example.org/spaceballs?next=myroom");
    assert_eq!(attempts, Some(3));
    let (local, none) = room_url(PlayerCount(1), &"x".to_string(), &"y".to_string());
    assert_eq!(local, "ws://localhost/spaceballs?next=");
    assert_eq!(none, None);
    assert_eq!((MAINTAINED_FPS, MAX_PREDICTION_FRAMES, INPUT_DELAY), (60, 5, 2));
}
