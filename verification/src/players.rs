use vstd::prelude::*;
use crate::chat::ChatMessage;
use crate::teams::{PlayerHandle, Team, TeamNumber, PLAYER_DEFAULT_TEAM, team_of_handle};
use crate::timer::{Timer, NANOS_PER_SEC};
use crate::peers::{PeerHandles, PeerId, PeerNames};

verus! {

broadcast use vstd::std_specs::hash::group_hash_axioms;

/// What the game knows of a player: a name, a team, and a tally of kills and deaths.
#[derive(Clone, Debug)]
pub struct PlayerData {
    pub name: String,
    pub team: Team,
    pub kills: usize,
    pub deaths: usize,
}

impl Default for PlayerData {
    /// A nameless player of team 0 with no kills and no deaths.
    fn default() -> (data: Self)
        ensures
            data.name@ == Seq::<char>::empty(),
            data.team == Team(0),
            data.kills == 0,
            data.deaths == 0,
    {
        PlayerData { name: String::new(), team: Team(0), kills: 0, deaths: 0 }
    }
}

impl PlayerData {
    /// A fresh player on the team of the handle (see [`Team::from_player_handle`]).
    pub fn from_player_handle(player_handle: PlayerHandle) -> (data: Self)
        requires
            player_handle % 256 < 255,
        ensures
            data.team.0 == team_of_handle(player_handle),
            data.name@ == Seq::<char>::empty(),
            data.kills == 0,
            data.deaths == 0,
    {
        PlayerData { team: Team::from_player_handle(player_handle), ..PlayerData::default() }
    }

    /// A fresh player on the given team.
    pub fn from_team(team: TeamNumber) -> (data: Self)
        ensures
            data.team == Team(team),
            data.name@ == Seq::<char>::empty(),
            data.kills == 0,
            data.deaths == 0,
    {
        PlayerData { team: Team(team), ..PlayerData::default() }
    }

    /// The same player under another name.
    pub fn with_name(self, name: String) -> (data: Self)
        ensures
            data.name == name,
            data.team == self.team,
            data.kills == self.kills,
            data.deaths == self.deaths,
    {
        PlayerData { name, ..self }
    }

    /// The same player on another team.
    pub fn with_team(self, team: TeamNumber) -> (data: Self)
        ensures
            data.team == Team(team),
            data.name == self.name,
            data.kills == self.kills,
            data.deaths == self.deaths,
    {
        PlayerData { team: Team(team), ..self }
    }
}

/// The registry of players, indexed by player handle.
#[derive(Debug)]
pub struct PlayerRegistry(pub Vec<PlayerData>);

impl Default for PlayerRegistry {
    fn default() -> (registry: Self)
        ensures
            registry.0@.len() == 0,
    {
        PlayerRegistry(Vec::new())
    }
}

impl PlayerRegistry {
    /// The number of registered players.
    pub fn len(&self) -> (n: usize)
        ensures
            n == self.0@.len(),
    {
        self.0.len()
    }

    /// The player of a handle, if registered.
    pub fn get(&self, handle: PlayerHandle) -> (data: Option<&PlayerData>)
        ensures
            handle < self.0@.len() ==> data == Some(&self.0@[handle as int]),
            handle >= self.0@.len() ==> data is None,
    {
        if handle < self.0.len() {
            Some(&self.0[handle])
        } else {
            None
        }
    }

    /// The player of a handle, if registered, to change.
    pub fn get_mut(&mut self, handle: PlayerHandle) -> (data: Option<&mut PlayerData>)
        ensures
            handle < old(self).0@.len() ==> (data matches Some(d) && *d == old(self).0@[handle as int]
                && final(self).0@ == old(self).0@.update(handle as int, *final(d))),
            handle >= old(self).0@.len() ==> data is None && final(self).0@ == old(self).0@,
    {
        if handle < self.0.len() {
            Some(&mut self.0[handle])
        } else {
            None
        }
    }

    /// Renames the player of a handle, if registered. Returns whether it was.
    pub fn set_name(&mut self, handle: PlayerHandle, name: String) -> (found: bool)
        ensures
            found <==> handle < old(self).0@.len(),
            final(self).0@.len() == old(self).0@.len(),
            found ==> final(self).0@ == old(self).0@.update(
                handle as int,
                PlayerData { name, ..old(self).0@[handle as int] },
            ),
            !found ==> final(self).0@ == old(self).0@,
    {
        if handle < self.0.len() {
            self.0[handle].name = name;
            true
        } else {
            false
        }
    }
}

/// Event: a player joined the session.
#[derive(Clone, Copy, Debug, PartialEq, Eq, Structural)]
pub struct PlayerJoined {
    pub player_handle: PlayerHandle,
}

/// Event: a player died, killed by another player, if known.
#[derive(Clone, Copy, Debug, PartialEq, Eq, Structural)]
pub struct PlayerDied {
    pub player_handle: PlayerHandle,
    pub killed_by: Option<PlayerHandle>,
}

/// The registry after a reported death: the victim's deaths grow by one, and a registered
/// killer on another team than the victim gains a kill.
pub open spec fn registry_after_death(players: Seq<PlayerData>, event: PlayerDied) -> Seq<PlayerData> {
    let victim = players[event.player_handle as int];
    let with_death = players.update(
        event.player_handle as int,
        PlayerData { deaths: (victim.deaths + 1) as usize, ..victim },
    );
    match event.killed_by {
        Some(killer) => if killer < players.len() && with_death[killer as int].team != victim.team {
            let k = with_death[killer as int];
            with_death.update(killer as int, PlayerData { kills: (k.kills + 1) as usize, ..k })
        } else {
            with_death
        },
        None => with_death,
    }
}

/// Records a player's death in the registry and returns the chat message announcing it:
/// `{0} killed {1}!` with the killer's and the victim's handles when the killer is registered,
/// `{0} died!` with the victim's handle otherwise. A death of an unregistered player changes
/// nothing and announces nothing.
pub fn report_death(players: &mut PlayerRegistry, event: PlayerDied) -> (message: Option<ChatMessage>)
    requires
        event.player_handle < old(players).0@.len() ==> old(players).0@[event.player_handle as int].deaths
            < usize::MAX,
        forall|k: usize| event.player_handle < old(players).0@.len() && event.killed_by == Some(k) && k
            < old(players).0@.len() ==> #[trigger] old(players).0@[k as int].kills < usize::MAX,
    ensures
        event.player_handle >= old(players).0@.len() ==> message is None && final(players).0@
            == old(players).0@,
        event.player_handle < old(players).0@.len() ==> {
            &&& final(players).0@ == registry_after_death(old(players).0@, event)
            &&& (message matches Some(m) && match event.killed_by {
                Some(killer) => if killer < old(players).0@.len() {
                    m.message@ == "{0} killed {1}!"@ && m.player_handles@ == seq![killer, event.player_handle]
                } else {
                    m.message@ == "{0} died!"@ && m.player_handles@ == seq![event.player_handle]
                },
                None => m.message@ == "{0} died!"@ && m.player_handles@ == seq![event.player_handle],
            })
        },
{
    let victim = event.player_handle;
    if victim >= players.0.len() {
        return None;
    }
    let victim_team = players.0[victim].team;
    players.0[victim].deaths = players.0[victim].deaths + 1;
    match event.killed_by {
        Some(killer) => {
            if killer < players.0.len() {
                if players.0[killer].team != victim_team {
                    players.0[killer].kills = players.0[killer].kills + 1;
                }
                let mut handles: Vec<PlayerHandle> = Vec::new();
                handles.push(killer);
                handles.push(victim);
                proof {
                    assert(handles@ =~= seq![killer, victim]);
                }
                return Some(ChatMessage { message: String::from_str("{0} killed {1}!"), player_handles: handles });
            }
        },
        None => {},
    }
    let mut handles: Vec<PlayerHandle> = Vec::new();
    handles.push(victim);
    proof {
        assert(handles@ =~= seq![victim]);
    }
    Some(ChatMessage { message: String::from_str("{0} died!"), player_handles: handles })
}

/// Each reported death of a registered player adds exactly one death to the registry, and a
/// kill is counted only for a registered killer on another team than the victim.
pub proof fn lemma_death_tally(players: Seq<PlayerData>, event: PlayerDied)
    requires
        event.player_handle < players.len(),
        players[event.player_handle as int].deaths < usize::MAX,
        forall|k: usize| event.killed_by == Some(k) && k < players.len() ==> #[trigger] players[k as int].kills < usize::MAX,
    ensures
        registry_after_death(players, event).len() == players.len(),
        registry_after_death(players, event)[event.player_handle as int].deaths == players[event.player_handle as int].deaths + 1,
        forall|h: int| 0 <= h < players.len() && h != event.player_handle ==> #[trigger] registry_after_death(players, event)[h].deaths == players[h].deaths,
        forall|h: int| 0 <= h < players.len() && #[trigger] registry_after_death(players, event)[h].kills != players[h].kills ==> event.killed_by == Some(h as usize) && players[h].team != players[event.player_handle as int].team && registry_after_death(players, event)[h].kills == players[h].kills + 1,
{
}

/// The announcement of a death in a registry of `players_len` players: `{0} killed {1}!` with
/// the killer's and the victim's handles when the killer is registered, `{0} died!` with the
/// victim's handle otherwise; nothing for an unregistered victim.
pub open spec fn death_announcement(players_len: nat, event: PlayerDied) -> Option<(Seq<char>, Seq<PlayerHandle>)> {
    if event.player_handle >= players_len {
        None
    } else {
        match event.killed_by {
            Some(killer) => if killer < players_len {
                Some(("{0} killed {1}!"@, seq![killer, event.player_handle]))
            } else {
                Some(("{0} died!"@, seq![event.player_handle]))
            },
            None => Some(("{0} died!"@, seq![event.player_handle])),
        }
    }
}

/// The registry after the deaths, in order (deaths of unregistered players change nothing).
pub open spec fn registry_after_deaths(players: Seq<PlayerData>, events: Seq<PlayerDied>) -> Seq<PlayerData>
    decreases events.len(),
{
    if events.len() == 0 {
        players
    } else {
        let before = registry_after_deaths(players, events.drop_last());
        if events.last().player_handle < before.len() {
            registry_after_death(before, events.last())
        } else {
            before
        }
    }
}

/// The announcements of the deaths, in order.
pub open spec fn death_announcements(players_len: nat, events: Seq<PlayerDied>) -> Seq<(Seq<char>, Seq<PlayerHandle>)>
    decreases events.len(),
{
    if events.len() == 0 {
        Seq::empty()
    } else {
        let before = death_announcements(players_len, events.drop_last());
        match death_announcement(players_len, events.last()) {
            Some(m) => before.push(m),
            None => before,
        }
    }
}

proof fn lemma_deaths_bounded(players: Seq<PlayerData>, events: Seq<PlayerDied>, bound: int)
    requires
        bound <= usize::MAX,
        forall|h: int| 0 <= h < players.len() ==> #[trigger] players[h].deaths + events.len() <= bound && players[h].kills
            + events.len() <= bound,
    ensures
        registry_after_deaths(players, events).len() == players.len(),
        forall|h: int| 0 <= h < players.len() ==> (#[trigger] registry_after_deaths(players, events)[h]).deaths
            <= players[h].deaths + events.len() && registry_after_deaths(players, events)[h].kills <= players[h].kills
            + events.len(),
    decreases events.len(),
{
    if events.len() > 0 {
        let rest = events.drop_last();
        lemma_deaths_bounded(players, rest, bound);
        let before = registry_after_deaths(players, rest);
        if events.last().player_handle < before.len() {
            assert forall|k: usize| events.last().killed_by == Some(k) && k < before.len() implies #[trigger] before[k as int].kills
                < usize::MAX by {
                assert(registry_after_deaths(players, rest)[k as int].kills <= players[k as int].kills + rest.len());
            }
            lemma_death_tally(before, events.last());
        }
    }
}

/// Records the frame's deaths in the registry, in order (see [`report_death`]), and returns
/// their announcements.
pub fn handle_reporting_death(players: &mut PlayerRegistry, events: &Vec<PlayerDied>) -> (messages: Vec<ChatMessage>)
    requires
        forall|h: int| 0 <= h < old(players).0@.len() ==> #[trigger] old(players).0@[h].deaths + events@.len() < usize::MAX
            && old(players).0@[h].kills + events@.len() < usize::MAX,
    ensures
        final(players).0@ == registry_after_deaths(old(players).0@, events@),
        messages@.len() == death_announcements(old(players).0@.len(), events@).len(),
        forall|i: int| 0 <= i < messages@.len() ==> (#[trigger] messages@[i]).message@ == death_announcements(
            old(players).0@.len(),
            events@,
        )[i].0 && messages@[i].player_handles@ == death_announcements(old(players).0@.len(), events@)[i].1,
{
    let ghost start = players.0@;
    let mut messages: Vec<ChatMessage> = Vec::new();
    let mut i: usize = 0;
    proof {
        reveal_strlit("{0} killed {1}!");
        reveal_strlit("{0} died!");
    }
    while i < events.len()
        invariant
            i <= events@.len(),
            forall|h: int| 0 <= h < start.len() ==> #[trigger] start[h].deaths + events@.len() < usize::MAX
                && start[h].kills + events@.len() < usize::MAX,
            players.0@ == registry_after_deaths(start, events@.subrange(0, i as int)),
            messages@.len() == death_announcements(start.len(), events@.subrange(0, i as int)).len(),
            forall|k: int| 0 <= k < messages@.len() ==> (#[trigger] messages@[k]).message@ == death_announcements(
                start.len(),
                events@.subrange(0, i as int),
            )[k].0 && messages@[k].player_handles@ == death_announcements(start.len(), events@.subrange(0, i as int))[k].1,
        decreases events@.len() - i,
    {
        let event = events[i];
        let ghost prefix = events@.subrange(0, i + 1);
        proof {
            assert(prefix.drop_last() =~= events@.subrange(0, i as int));
            assert(prefix.last() == event);
            lemma_deaths_bounded(start, events@.subrange(0, i as int), usize::MAX - 1);
            assert forall|k: int| 0 <= k < players.0@.len() implies #[trigger] players.0@[k].kills < usize::MAX
                && players.0@[k].deaths < usize::MAX by {
                assert(registry_after_deaths(start, events@.subrange(0, i as int))[k].deaths <= start[k].deaths + i);
            }
        }
        match report_death(players, event) {
            Some(m) => {
                messages.push(m);
            },
            None => {},
        }
        i = i + 1;
    }
    proof {
        assert(events@.subrange(0, events@.len() as int) =~= events@);
    }
    messages
}

/// Length of a multiplayer match, in nanoseconds.
pub const MATCH_DURATION: u64 = 60 * NANOS_PER_SEC;

/// The time left in a multiplayer match.
#[derive(Clone, Copy, Debug)]
pub struct MatchTime(pub Timer);

impl Default for MatchTime {
    /// A fresh one-minute match.
    fn default() -> (time: Self)
        ensures
            time.0 == Timer::spec_new(MATCH_DURATION),
    {
        MatchTime(Timer::new(MATCH_DURATION))
    }
}

/// On entering a game: a match clock exists only for multiplayer games.
pub fn reset_match_time_in_multiplayer(player_count: usize) -> (match_time: Option<MatchTime>)
    ensures
        player_count > 1 ==> (match_time matches Some(t) && t.0 == Timer::spec_new(MATCH_DURATION)),
        player_count <= 1 ==> match_time is None,
{
    if player_count > 1 {
        Some(MatchTime::default())
    } else {
        None
    }
}

/// One fixed frame of the match clock: ticks it by the frame's length and, when it runs out,
/// removes it and tells that the match has ended.
pub fn handle_match_time(match_time: &mut Option<MatchTime>, frame: u64) -> (ended: bool)
    ensures
        match *old(match_time) {
            None => !ended && *final(match_time) == *old(match_time),
            Some(t) => if t.0.ticked(frame).finished {
                ended && *final(match_time) is None
            } else {
                !ended && *final(match_time) == Some(MatchTime(t.0.ticked(frame)))
            },
        },
{
    match match_time {
        None => false,
        Some(t) => {
            let mut timer = t.0;
            timer.tick(frame);
            if timer.finished() {
                *match_time = None;
                true
            } else {
                *match_time = Some(MatchTime(timer));
                false
            }
        },
    }
}

/// Announces the players that joined since the last check: every handle from the number of
/// players seen before (zero again after a change of game state) up to the current number.
pub fn send_new_players_joined(players_len: usize, previous_players_len: &mut usize, state_changed: bool) -> (joined: Vec<PlayerJoined>)
    ensures
        ({
            let from = if state_changed { 0 } else { *old(previous_players_len) as int };
            &&& joined@.len() == if from < players_len { players_len - from } else { 0 }
            &&& forall|i: int| 0 <= i < joined@.len() ==> #[trigger] joined@[i].player_handle == from + i
        }),
        *final(previous_players_len) == players_len,
{
    if state_changed {
        *previous_players_len = 0;
    }
    let mut joined: Vec<PlayerJoined> = Vec::new();
    let from = *previous_players_len;
    if from != players_len {
        let mut index = from;
        while index < players_len
            invariant
                from <= index <= players_len || (index == from && from >= players_len),
                joined@.len() == if index >= from { index - from } else { 0 },
                forall|i: int| 0 <= i < joined@.len() ==> #[trigger] joined@[i].player_handle == from + i,
            decreases players_len - index,
        {
            joined.push(PlayerJoined { player_handle: index });
            index = index + 1;
        }
        *previous_players_len = players_len;
    }
    joined
}

/// Whether peer `id` has told its name and plays under handle `h`.
pub open spec fn names_player(names: Map<PeerId, String>, handles: Map<PeerId, PlayerHandle>, id: PeerId, h: int) -> bool {
    names.contains_key(id) && handles.contains_key(id) && handles[id] == h
}

/// Gives registered players the names their peers told. When the names did not change since the
/// last call, nothing is done. A player whose handle no peer with a known name plays under keeps
/// its name; otherwise it takes the name of such a peer.
#[verifier::spinoff_prover]
pub fn update_player_names(names_changed: bool, peer_names: &PeerNames, peer_handles: &PeerHandles, players: &mut PlayerRegistry)
    ensures
        !names_changed ==> final(players).0@ == old(players).0@,
        final(players).0@.len() == old(players).0@.len(),
        forall|h: int| 0 <= h < old(players).0@.len() ==> {
            &&& #[trigger] final(players).0@[h].team == old(players).0@[h].team
            &&& final(players).0@[h].kills == old(players).0@[h].kills
            &&& final(players).0@[h].deaths == old(players).0@[h].deaths
        },
        names_changed ==> forall|h: int| 0 <= h < old(players).0@.len() ==> {
            ||| (exists|id: PeerId| names_player(peer_names.map@, peer_handles.map@, id, h)
                && #[trigger] final(players).0@[h].name@ == peer_names.map@[id]@)
            ||| (!(exists|id: PeerId| #[trigger] names_player(peer_names.map@, peer_handles.map@, id, h))
                && final(players).0@[h].name@ == old(players).0@[h].name@)
        },
{
    if !names_changed {
        return;
    }
    let ghost names = peer_names.map@;
    let ghost handles = peer_handles.map@;
    let ghost start = players.0@;
    for id in it: peer_names.map.keys()
        invariant
            names == peer_names.map@,
            handles == peer_handles.map@,
            players.0@.len() == start.len(),
            forall|h: int| 0 <= h < start.len() ==> {
                &&& #[trigger] players.0@[h].team == start[h].team
                &&& players.0@[h].kills == start[h].kills
                &&& players.0@[h].deaths == start[h].deaths
            },
            forall|h: int| 0 <= h < start.len() ==> {
                ||| (exists|j: int| 0 <= j < it.index() && names_player(names, handles, *it.seq()[j], h)
                    && #[trigger] players.0@[h].name@ == names[*it.seq()[j]]@)
                ||| (!(exists|j: int| 0 <= j < it.index() && #[trigger] names_player(names, handles, *it.seq()[j], h))
                    && players.0@[h].name@ == start[h].name@)
            },
    {
        let key = *id;
        let ghost before = players.0@;
        match peer_handles.map.get(&key) {
            Some(handle) => {
                match peer_names.map.get(&key) {
                    Some(name) => {
                        players.set_name(*handle, name.clone());
                        proof {
                            assert forall|h: int| 0 <= h < start.len() implies #[trigger] players.0@[h].team
                                == start[h].team && players.0@[h].kills == start[h].kills
                                && players.0@[h].deaths == start[h].deaths by {
                                assert(before[h].team == start[h].team);
                            }
                        }
                    },
                    None => {},
                }
            },
            None => {},
        }

    }

}

} // verus!
