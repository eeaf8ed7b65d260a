use vstd::prelude::*;
use vstd::string::*;
use std::collections::HashMap;
use crate::peers::{PeerHandles, PeerId};
use crate::players::{PlayerData, PlayerRegistry};
use crate::teams::{PlayerHandle, Team};

verus! {

broadcast use vstd::std_specs::hash::group_hash_axioms;

/// Frames per second the simulation keeps.
pub const MAINTAINED_FPS: usize = 60;
/// How many frames ahead the session may predict.
pub const MAX_PREDICTION_FRAMES: usize = 5;
/// Frames of delay given to local input.
pub const INPUT_DELAY: usize = 2;

/// Expected, and maximum, player count of the game session.
#[derive(Clone, Copy, Debug, PartialEq, Eq, Structural)]
pub struct PlayerCount(pub usize);

/// Handle of the local player in the session.
#[derive(Clone, Copy, Debug, PartialEq, Eq, Structural)]
pub struct LocalPlayerHandle(pub PlayerHandle);

/// Marker of the character the local player controls.
#[derive(Clone, Copy, Debug)]
pub struct LocalPlayer;

/// The configuration the rollback session is built with: its input, state and address types
/// are fixed by the application.
#[derive(Clone, Copy, Debug)]
pub struct GGRSConfig;

/// The group of the multiplayer plugins: socket, session, peers and players.
#[derive(Clone, Copy, Debug)]
pub struct MultiplayerPlugins;

/// A participant of a session.
#[derive(Clone, Copy, Debug, PartialEq, Eq, Structural)]
pub enum PlayerType {
    /// This machine's player.
    Local,
    /// A player on another machine.
    Remote(PeerId),
    /// Someone watching from another machine.
    Spectator(PeerId),
}

/// Calls `slice::sort`, which sorts the identifiers in ascending order and keeps every one.
#[verifier::external_body]
fn sort_peer_ids(ids: &mut Vec<PeerId>)
    ensures
        final(ids)@.to_multiset() == old(ids)@.to_multiset(),
        forall|i: int, j: int| 0 <= i <= j < final(ids)@.len() ==> final(ids)@[i] <= final(ids)@[j],
{
    ids.sort();
}

/// The players of the session in an order all peers agree on: with our identity unknown yet,
/// only the local player; otherwise every connected peer and ourselves, in ascending order of
/// identity, ourselves as the local player and the others as remote players.
pub fn session_players(our_id: Option<PeerId>, connected: &Vec<PeerId>) -> (players: Vec<PlayerType>)
    ensures
        our_id is None ==> players@ == seq![PlayerType::Local],
        our_id matches Some(me) ==> exists|ids: Seq<PeerId>| {
            &&& #[trigger] ids.to_multiset() == connected@.push(me).to_multiset()
            &&& (forall|i: int, j: int| 0 <= i <= j < ids.len() ==> ids[i] <= ids[j])
            &&& players@.len() == ids.len()
            &&& forall|i: int| 0 <= i < ids.len() ==> #[trigger] players@[i] == if ids[i] == me {
                PlayerType::Local
            } else {
                PlayerType::Remote(ids[i])
            }
        },
{
    let me = match our_id {
        None => {
            let mut only: Vec<PlayerType> = Vec::new();
            only.push(PlayerType::Local);
            proof {
                assert(only@ =~= seq![PlayerType::Local]);
            }
            return only;
        },
        Some(id) => id,
    };
    let mut ids: Vec<PeerId> = Vec::new();
    let mut k: usize = 0;
    while k < connected.len()
        invariant
            k <= connected@.len(),
            ids@ == connected@.subrange(0, k as int),
        decreases connected@.len() - k,
    {
        ids.push(connected[k]);
        k = k + 1;
        proof {
            assert(ids@ =~= connected@.subrange(0, k as int));
        }
    }
    ids.push(me);
    proof {
        assert(ids@ =~= connected@.push(me));
    }
    sort_peer_ids(&mut ids);
    let mut players: Vec<PlayerType> = Vec::new();
    let mut i: usize = 0;
    while i < ids.len()
        invariant
            i <= ids@.len(),
            players@.len() == i,
            forall|j: int| 0 <= j < i ==> #[trigger] players@[j] == if ids@[j] == me {
                PlayerType::Local
            } else {
                PlayerType::Remote(ids@[j])
            },
        decreases ids@.len() - i,
    {
        let id = ids[i];
        if id == me {
            players.push(PlayerType::Local);
        } else {
            players.push(PlayerType::Remote(id));
        }
        i = i + 1;
    }
    players
}

/// What the session set up for its players.
#[derive(Debug)]
pub struct SessionStart {
    /// The registry of the players, by handle.
    pub registry: PlayerRegistry,
    /// The handles of the remote players.
    pub peer_handles: PeerHandles,
    /// The handle of the local player, if it plays.
    pub local_handle: Option<PlayerHandle>,
}

/// What to do with the players gathered for a session.
#[derive(Debug)]
pub enum SessionDecision {
    /// Fewer players than expected: wait for more.
    Wait,
    /// More players than expected: the game is already full; back to the main menu.
    Full,
    /// Exactly the expected players: start the session, in game.
    Start(SessionStart),
}

/// The registry a session starts with: the player at position `i` of the session is on team
/// `i` (modulo 256), the local one under the given name, the others nameless; spectators are
/// not registered.
pub open spec fn registered(players: Seq<PlayerType>, name: Seq<char>) -> Seq<(u8, Seq<char>)>
    decreases players.len(),
{
    if players.len() == 0 {
        Seq::empty()
    } else {
        let before = registered(players.drop_last(), name);
        let team = ((players.len() - 1) % 256) as u8;
        match players.last() {
            PlayerType::Local => before.push((team, name)),
            PlayerType::Remote(_) => before.push((team, Seq::empty())),
            PlayerType::Spectator(_) => before,
        }
    }
}

/// The handle of each remote player: its position in the session.
pub open spec fn remote_handles(players: Seq<PlayerType>) -> Map<PeerId, PlayerHandle>
    decreases players.len(),
{
    if players.len() == 0 {
        Map::empty()
    } else {
        let before = remote_handles(players.drop_last());
        match players.last() {
            PlayerType::Remote(id) => before.insert(id, (players.len() - 1) as PlayerHandle),
            _ => before,
        }
    }
}

/// The handle of the local player: its last position in the session, if any.
pub open spec fn local_handle(players: Seq<PlayerType>) -> Option<PlayerHandle>
    decreases players.len(),
{
    if players.len() == 0 {
        None
    } else {
        match players.last() {
            PlayerType::Local => Some((players.len() - 1) as PlayerHandle),
            _ => local_handle(players.drop_last()),
        }
    }
}

/// Decides on the players gathered for a session of `player_count` players: wait while there
/// are fewer, refuse a full game when there are more, and otherwise set up the registry (see
/// [`registered`]), the remote players' handles and the local player's handle.
pub fn build_session(players: &Vec<PlayerType>, player_count: PlayerCount, player_name: &String) -> (decision: SessionDecision)
    ensures
        players@.len() < player_count.0 ==> decision is Wait,
        players@.len() > player_count.0 ==> decision is Full,
        players@.len() == player_count.0 ==> (decision matches SessionDecision::Start(start) && {
            &&& start.registry.0@.len() == registered(players@, player_name@).len()
            &&& forall|i: int| 0 <= i < start.registry.0@.len() ==> {
                &&& (#[trigger] start.registry.0@[i]).team == Team(registered(players@, player_name@)[i].0)
                &&& start.registry.0@[i].name@ == registered(players@, player_name@)[i].1
                &&& start.registry.0@[i].kills == 0
                &&& start.registry.0@[i].deaths == 0
            }
            &&& start.peer_handles.map@ == remote_handles(players@)
            &&& start.local_handle == local_handle(players@)
        }),
{
    if players.len() < player_count.0 {
        return SessionDecision::Wait;
    }
    if players.len() > player_count.0 {
        return SessionDecision::Full;
    }
    let mut registry = PlayerRegistry(Vec::new());
    let mut peer_handles = PeerHandles { map: HashMap::new() };
    let mut local: Option<PlayerHandle> = None;
    let mut i: usize = 0;
    while i < players.len()
        invariant
            i <= players@.len(),
            registry.0@.len() == registered(players@.subrange(0, i as int), player_name@).len(),
            forall|j: int| 0 <= j < registry.0@.len() ==> {
                &&& (#[trigger] registry.0@[j]).team == Team(registered(players@.subrange(0, i as int), player_name@)[j].0)
                &&& registry.0@[j].name@ == registered(players@.subrange(0, i as int), player_name@)[j].1
                &&& registry.0@[j].kills == 0
                &&& registry.0@[j].deaths == 0
            },
            peer_handles.map@ == remote_handles(players@.subrange(0, i as int)),
            local == local_handle(players@.subrange(0, i as int)),
        decreases players@.len() - i,
    {
        let ghost prefix = players@.subrange(0, i + 1);
        let ghost before = registered(players@.subrange(0, i as int), player_name@);
        proof {
            assert(prefix.drop_last() =~= players@.subrange(0, i as int));
            assert(prefix.last() == players@[i as int]);
        }
        let team: u8 = (i % 256) as u8;
        match players[i] {
            PlayerType::Remote(peer_id) => {
                registry.0.push(PlayerData::from_team(team));
                peer_handles.map.insert(peer_id, i);
            },
            PlayerType::Local => {
                registry.0.push(PlayerData::from_team(team).with_name(player_name.clone()));
                local = Some(i);
            },
            PlayerType::Spectator(_) => {},
        }
        i = i + 1;
        proof {
            let after = registered(players@.subrange(0, i as int), player_name@);
            assert forall|j: int| 0 <= j < registry.0@.len() implies {
                &&& (#[trigger] registry.0@[j]).team == Team(after[j].0)
                &&& registry.0@[j].name@ == after[j].1
                &&& registry.0@[j].kills == 0
                &&& registry.0@[j].deaths == 0
            } by {
                if j < before.len() {
                    assert(after[j] == before[j]);
                }
            }
        }
    }
    proof {
        assert(players@.subrange(0, players@.len() as int) =~= players@);
    }
    SessionDecision::Start(SessionStart { registry, peer_handles, local_handle: local })
}

/// What `str::to_lowercase` gives for a text: its Unicode lowercase mapping.
pub uninterp spec fn lowercase(s: Seq<char>) -> Seq<char>;

/// Calls `str::to_lowercase`, which maps the text to Unicode lowercase.
#[verifier::external_body]
fn to_lowercase(s: &str) -> (lower: String)
    ensures
        lower@ == lowercase(s@),
{
    s.to_lowercase()
}

/// The matchmaking room to connect to and how often to try reconnecting: for a multiplayer game
/// the server's `spaceballs` room, the next match named by the room name, all in lowercase,
/// with three attempts; otherwise a local room with no reconnecting.
pub fn room_url(player_count: PlayerCount, server_url: &String, room_name: &String) -> (room: (String, Option<usize>))
    ensures
        player_count.0 > 1 ==> room.0@ == lowercase(server_url@ + "/spaceballs?next="@ + room_name@)
            && room.1 == Some(3usize),
        player_count.0 <= 1 ==> room.0@ == "ws://localhost/spaceballs?next="@ && room.1 is None,
{
    if player_count.0 > 1 {
        let mut url = server_url.clone();
        url.append("/spaceballs?next=");
        url.append(room_name.as_str());
        (to_lowercase(url.as_str()), Some(3))
    } else {
        (String::from_str("ws://localhost/spaceballs?next="), None)
    }
}

} // verus!
