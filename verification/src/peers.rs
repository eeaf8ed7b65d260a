use vstd::prelude::*;
use vstd::string::*;
use std::collections::HashMap;
use crate::chat::ChatMessage;
use crate::players::PlayerRegistry;
use crate::teams::PlayerHandle;

verus! {

broadcast use vstd::std_specs::hash::group_hash_axioms;

/// Identity of a peer on the matchmaking server (the bits of its UUID).
pub type PeerId = u128;

/// Connection state changes reported for a peer.
#[derive(Clone, Copy, Debug, PartialEq, Eq, Structural)]
pub enum PeerState {
    Connected,
    Disconnected,
}

/// A peer connected or disconnected.
#[derive(Clone, Copy, Debug, PartialEq, Eq, Structural)]
pub struct PeerConnectionEvent {
    pub id: PeerId,
    pub state: PeerState,
}

/// Messages peers exchange over the reliable channel.
#[derive(Clone, Debug)]
pub enum PeerMessage {
    PlayerName { name: String },
    Chat { message: String },
}

/// Player handles of the peers that play in the session.
#[derive(Debug)]
pub struct PeerHandles {
    pub map: HashMap<PeerId, PlayerHandle>,
}

/// Names the peers told us.
#[derive(Debug)]
pub struct PeerNames {
    pub map: HashMap<PeerId, String>,
}

impl Default for PeerHandles {
    fn default() -> (handles: Self)
        ensures
            handles.map@ == Map::<PeerId, PlayerHandle>::empty(),
    {
        PeerHandles { map: HashMap::new() }
    }
}

impl Default for PeerNames {
    fn default() -> (names: Self)
        ensures
            names.map@ == Map::<PeerId, String>::empty(),
    {
        PeerNames { map: HashMap::new() }
    }
}

/// A chat message as its text and its handles.
pub open spec fn chat_view(m: ChatMessage) -> (Seq<char>, Seq<PlayerHandle>) {
    (m.message@, m.player_handles@)
}

/// The names and the announcement after receiving one message from `sender`: a name is
/// recorded (announced as joining the first time), and a chat message is shown as said by
/// the sender's player handle, or else by the sender's name; from an unknown sender it is
/// dropped.
pub open spec fn receive_step(
    names: Map<PeerId, String>,
    handles: Map<PeerId, PlayerHandle>,
    sender: PeerId,
    message: PeerMessage,
) -> (Map<PeerId, String>, Option<(Seq<char>, Seq<PlayerHandle>)>) {
    match message {
        PeerMessage::PlayerName { name } => (
            names.insert(sender, name),
            if !names.contains_key(sender) {
                Some((name@ + " joined!"@, Seq::empty()))
            } else {
                None
            },
        ),
        PeerMessage::Chat { message } => (
            names,
            if handles.contains_key(sender) {
                Some(("{0}"@ + ": "@ + message@, seq![handles[sender]]))
            } else if names.contains_key(sender) {
                Some((names[sender]@ + ": "@ + message@, Seq::empty()))
            } else {
                None
            },
        ),
    }
}

/// The names and announcements after receiving a sequence of messages in order.
pub open spec fn receive_all(
    names: Map<PeerId, String>,
    handles: Map<PeerId, PlayerHandle>,
    messages: Seq<(PeerId, PeerMessage)>,
) -> (Map<PeerId, String>, Seq<(Seq<char>, Seq<PlayerHandle>)>)
    decreases messages.len(),
{
    if messages.len() == 0 {
        (names, Seq::empty())
    } else {
        let (before_names, before_out) = receive_all(names, handles, messages.drop_last());
        let (after_names, out) = receive_step(before_names, handles, messages.last().0, messages.last().1);
        (after_names, match out {
            Some(m) => before_out.push(m),
            None => before_out,
        })
    }
}

fn announce(name: &String, suffix: &str) -> (m: ChatMessage)
    ensures
        m.message@ == name@ + suffix@,
        m.player_handles@ == Seq::<PlayerHandle>::empty(),
{
    let mut text = name.clone();
    text.append(suffix);
    ChatMessage::message(text)
}

/// Handles the messages received from peers, in order, updating the known names and returning
/// the chat messages to show.
pub fn handle_receiving_peer_messages(
    messages: Vec<(PeerId, PeerMessage)>,
    peer_names: &mut PeerNames,
    peer_handles: &PeerHandles,
) -> (chat: Vec<ChatMessage>)
    ensures
        final(peer_names).map@ == receive_all(old(peer_names).map@, peer_handles.map@, messages@).0,
        chat@.len() == receive_all(old(peer_names).map@, peer_handles.map@, messages@).1.len(),
        forall|i: int| 0 <= i < chat@.len() ==> #[trigger] chat_view(chat@[i]) == receive_all(
            old(peer_names).map@,
            peer_handles.map@,
            messages@,
        ).1[i],
{
    let ghost names0 = peer_names.map@;
    let mut chat: Vec<ChatMessage> = Vec::new();
    let mut i: usize = 0;
    while i < messages.len()
        invariant
            i <= messages@.len(),
            peer_names.map@ == receive_all(names0, peer_handles.map@, messages@.subrange(0, i as int)).0,
            chat@.len() == receive_all(names0, peer_handles.map@, messages@.subrange(0, i as int)).1.len(),
            forall|j: int| 0 <= j < chat@.len() ==> #[trigger] chat_view(chat@[j]) == receive_all(
                names0,
                peer_handles.map@,
                messages@.subrange(0, i as int),
            ).1[j],
        decreases messages@.len() - i,
    {
        let (sender, message) = &messages[i];
        let sender = *sender;
        let ghost prefix = messages@.subrange(0, i + 1);
        proof {
            assert(prefix.drop_last() =~= messages@.subrange(0, i as int));
            assert(prefix.last() == messages@[i as int]);
        }
        let ghost before = receive_all(names0, peer_handles.map@, messages@.subrange(0, i as int));
        match message {
            PeerMessage::PlayerName { name } => {
                proof {
                    reveal_strlit(" joined!");
                }
                if !peer_names.map.contains_key(&sender) {
                    chat.push(announce(name, " joined!"));
                }
                peer_names.map.insert(sender, name.clone());
            },
            PeerMessage::Chat { message } => {
                match peer_handles.map.get(&sender) {
                    Some(handle) => {
                        chat.push(ChatMessage::message(message.clone()).by_player(*handle));
                    },
                    None => {
                        match peer_names.map.get(&sender) {
                            Some(name) => {
                                chat.push(ChatMessage::message(message.clone()).said_by(name.clone()));
                            },
                            None => {},
                        }
                    },
                }
            },
        }
        i = i + 1;
        proof {
            let after = receive_all(names0, peer_handles.map@, messages@.subrange(0, i as int));
            assert(forall|j: int| 0 <= j < chat@.len() ==> #[trigger] chat_view(chat@[j]) == after.1[j]);
        }
    }
    proof {
        assert(messages@.subrange(0, messages@.len() as int) =~= messages@);
    }
    chat
}

/// The names after the disconnection events, and the departures announced: a peer whose
/// name was known leaves (announced as `<name> left!`) and its name is forgotten.
pub open spec fn disconnect_all(names: Map<PeerId, String>, events: Seq<PeerConnectionEvent>) -> (Map<PeerId, String>, Seq<Seq<char>>)
    decreases events.len(),
{
    if events.len() == 0 {
        (names, Seq::empty())
    } else {
        let (before_names, before_out) = disconnect_all(names, events.drop_last());
        let e = events.last();
        if e.state == PeerState::Disconnected && before_names.contains_key(e.id) {
            (before_names.remove(e.id), before_out.push(before_names[e.id]@ + " left!"@))
        } else {
            (before_names, before_out)
        }
    }
}

/// A peer that told its name and then disconnected is forgotten, and its departure announced
/// under the name it told.
pub proof fn lemma_disconnect_forgets_name(
    names: Map<PeerId, String>,
    handles: Map<PeerId, PlayerHandle>,
    peer: PeerId,
    name: String,
)
    ensures
        ({
            let told = receive_step(names, handles, peer, PeerMessage::PlayerName { name }).0;
            let (after, out) = disconnect_all(told, seq![PeerConnectionEvent { id: peer, state: PeerState::Disconnected }]);
            &&& !after.contains_key(peer)
            &&& out == seq![name@ + " left!"@]
        }),
{
    let told = receive_step(names, handles, peer, PeerMessage::PlayerName { name }).0;
    let events = seq![PeerConnectionEvent { id: peer, state: PeerState::Disconnected }];
    assert(events.drop_last() =~= Seq::<PeerConnectionEvent>::empty());
    assert(told.contains_key(peer));
    assert(told[peer] == name);
    let (after, out) = disconnect_all(told, events);
    assert(disconnect_all(told, events.drop_last()) == (told, Seq::<Seq<char>>::empty()));
    assert(events.last().state == PeerState::Disconnected);
    assert(out =~= seq![name@ + " left!"@]);
}

/// Announces the peers that left (those whose names were known) and forgets their names.
pub fn handle_reporting_peer_disconnecting(events: &Vec<PeerConnectionEvent>, peer_names: &mut PeerNames) -> (chat: Vec<ChatMessage>)
    ensures
        final(peer_names).map@ == disconnect_all(old(peer_names).map@, events@).0,
        chat@.len() == disconnect_all(old(peer_names).map@, events@).1.len(),
        forall|i: int| 0 <= i < chat@.len() ==> #[trigger] chat_view(chat@[i]) == (
            disconnect_all(old(peer_names).map@, events@).1[i],
            Seq::<PlayerHandle>::empty(),
        ),
{
    let ghost names0 = peer_names.map@;
    let mut chat: Vec<ChatMessage> = Vec::new();
    let mut i: usize = 0;
    proof {
        reveal_strlit(" left!");
    }
    while i < events.len()
        invariant
            i <= events@.len(),
            peer_names.map@ == disconnect_all(names0, events@.subrange(0, i as int)).0,
            chat@.len() == disconnect_all(names0, events@.subrange(0, i as int)).1.len(),
            forall|j: int| 0 <= j < chat@.len() ==> #[trigger] chat_view(chat@[j]) == (
                disconnect_all(names0, events@.subrange(0, i as int)).1[j],
                Seq::<PlayerHandle>::empty(),
            ),
        decreases events@.len() - i,
    {
        let event = events[i];
        let ghost before = disconnect_all(names0, events@.subrange(0, i as int));
        let ghost after = disconnect_all(names0, events@.subrange(0, i + 1));
        proof {
            assert(events@.subrange(0, i + 1).drop_last() =~= events@.subrange(0, i as int));
            assert(events@.subrange(0, i + 1).last() == event);
        }
        if event.state == PeerState::Disconnected {
            match peer_names.map.remove(&event.id) {
                Some(name) => {
                    let m = announce(&name, " left!");
                    chat.push(m);
                    proof {
                        assert(after.1 == before.1.push(name@ + " left!"@));
                    }
                },
                None => {
                    proof {
                        assert(after == before);
                    }
                },
            }
        } else {
            proof {
                assert(after == before);
            }
        }
        i = i + 1;
    }
    proof {
        assert(events@.subrange(0, events@.len() as int) =~= events@);
    }
    chat
}

/// When a peer connects, the local player's name is broadcast (to it and everybody else).
pub fn handle_player_name_broadcast(events: &Vec<PeerConnectionEvent>, player_name: &String) -> (message: Option<PeerMessage>)
    ensures
        (exists|i: int| 0 <= i < events@.len() && #[trigger] events@[i].state == PeerState::Connected)
            ==> (message matches Some(PeerMessage::PlayerName { name }) && name@ == player_name@),
        !(exists|i: int| 0 <= i < events@.len() && #[trigger] events@[i].state == PeerState::Connected)
            ==> message is None,
{
    let mut i: usize = 0;
    while i < events.len()
        invariant
            i <= events@.len(),
            forall|j: int| 0 <= j < i ==> #[trigger] events@[j].state != PeerState::Connected,
        decreases events@.len() - i,
    {
        if events[i].state == PeerState::Connected {
            return Some(PeerMessage::PlayerName { name: player_name.clone() });
        }
        i = i + 1;
    }
    None
}

/// Forgets all peer names and handles.
pub fn reset_peer_names(peer_names: &mut PeerNames, peer_handles: &mut PeerHandles)
    ensures
        final(peer_names).map@ == Map::<PeerId, String>::empty(),
        final(peer_handles).map@ == Map::<PeerId, PlayerHandle>::empty(),
{
    peer_names.map.clear();
    peer_handles.map.clear();
}

} // verus!
