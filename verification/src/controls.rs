use vstd::prelude::*;
use std::collections::VecDeque;
use crate::input_consumption::{ActiveInputConsumerLayers, InputConsumerPriority};
use crate::players::{PlayerData, PlayerDied, PlayerRegistry};
use crate::teams::{PlayerHandle, Team, AI_DEFAULT_TEAM};

verus! {

/// Sets of input systems, in the order they run.
#[derive(Clone, Copy, Debug, PartialEq, Eq, Structural)]
pub enum InputHandlingSet {
    /// Keyboard, gamepad, AI: the stage of recording inputs from all sources.
    InputReading,
    /// The stage of acting on the previously recorded inputs.
    ResponseProcessing,
}

/// Bit of the fire action in the exchanged input.
pub const FIRE: u32 = 1;
/// Bit of the reload action in the exchanged input.
pub const RELOAD: u32 = 2;
/// Bit of the first interaction (picking gear up) in the exchanged input.
pub const INTERACT_1: u32 = 4;
/// Bit of the second interaction (letting gear go) in the exchanged input.
pub const INTERACT_2: u32 = 8;

/// The actions a character is asked to take in a frame, besides moving.
#[derive(Clone, Copy, Debug, PartialEq, Eq, Structural)]
pub struct ActionFlags {
    /// To shoot or not to shoot.
    pub fire: bool,
    /// Whether a reload is triggered.
    pub reload: bool,
    /// Whether an interaction with the environment (such as picking guns up) is triggered.
    pub interact_1: bool,
    /// Whether an auxiliary interaction (such as throwing equipped guns away) is triggered.
    pub interact_2: bool,
}

/// The bits an action set is exchanged as.
pub open spec fn flag_bits(flags: ActionFlags) -> u32 {
    (if flags.fire { FIRE } else { 0 }) | (if flags.reload { RELOAD } else { 0 }) | (if flags.interact_1 {
        INTERACT_1
    } else {
        0
    }) | (if flags.interact_2 { INTERACT_2 } else { 0 })
}

impl ActionFlags {
    /// No action.
    pub fn none() -> (flags: Self)
        ensures
            !flags.fire && !flags.reload && !flags.interact_1 && !flags.interact_2,
    {
        ActionFlags { fire: false, reload: false, interact_1: false, interact_2: false }
    }

    /// The exchanged bits: one bit per action set.
    pub fn to_bits(&self) -> (bits: u32)
        ensures
            bits == flag_bits(*self),
    {
        (if self.fire { FIRE } else { 0 }) | (if self.reload { RELOAD } else { 0 }) | (if self.interact_1 {
            INTERACT_1
        } else {
            0
        }) | (if self.interact_2 { INTERACT_2 } else { 0 })
    }

    /// The actions whose bits are set.
    pub fn from_bits(bits: u32) -> (flags: Self)
        ensures
            flags.fire == (bits & FIRE != 0),
            flags.reload == (bits & RELOAD != 0),
            flags.interact_1 == (bits & INTERACT_1 != 0),
            flags.interact_2 == (bits & INTERACT_2 != 0),
    {
        ActionFlags {
            fire: bits & FIRE != 0,
            reload: bits & RELOAD != 0,
            interact_1: bits & INTERACT_1 != 0,
            interact_2: bits & INTERACT_2 != 0,
        }
    }
}

/// Encoding the actions as bits and decoding them gives the same actions back; decoding bits and
/// encoding them again keeps exactly the four action bits.
pub proof fn lemma_action_bits_round_trip(flags: ActionFlags, bits: u32)
    ensures
        ({
            let b = flag_bits(flags);
            &&& (b & FIRE != 0) == flags.fire
            &&& (b & RELOAD != 0) == flags.reload
            &&& (b & INTERACT_1 != 0) == flags.interact_1
            &&& (b & INTERACT_2 != 0) == flags.interact_2
        }),
        flag_bits(ActionFlags {
            fire: bits & FIRE != 0,
            reload: bits & RELOAD != 0,
            interact_1: bits & INTERACT_1 != 0,
            interact_2: bits & INTERACT_2 != 0,
        }) == bits & 15,
{
    let (f, r, i1, i2) = (flags.fire, flags.reload, flags.interact_1, flags.interact_2);
    assert({
        let b = (if f { 1u32 } else { 0u32 }) | (if r { 2u32 } else { 0u32 }) | (if i1 { 4u32 } else { 0u32 }) | (if i2 {
            8u32
        } else {
            0u32
        });
        &&& (b & 1 != 0) == f
        &&& (b & 2 != 0) == r
        &&& (b & 4 != 0) == i1
        &&& (b & 8 != 0) == i2
    }) by (bit_vector);
    assert((if bits & 1 != 0 { 1u32 } else { 0u32 }) | (if bits & 2 != 0 { 2u32 } else { 0u32 }) | (if bits & 4 != 0 {
        4u32
    } else {
        0u32
    }) | (if bits & 8 != 0 { 8u32 } else { 0u32 }) == bits & 15) by (bit_vector);
}

/// The direction of an axis from its keys: forward when only a positive key is held, backward
/// when only a negative one is, none otherwise.
pub fn keyboard_axis(positive_pressed: bool, negative_pressed: bool) -> (axis: i8)
    ensures
        axis == (if positive_pressed { 1int } else { 0 }) - (if negative_pressed { 1int } else { 0 }),
{
    let mut axis: i8 = 0;
    if positive_pressed {
        axis = axis + 1;
    }
    if negative_pressed {
        axis = axis - 1;
    }
    axis
}

/// Which of the keyboard's game keys are held.
#[derive(Clone, Copy, Debug, PartialEq, Eq, Structural)]
pub struct KeyboardGameKeys {
    /// W or Up.
    pub forward: bool,
    /// S or Down.
    pub backward: bool,
    /// D or Right.
    pub right: bool,
    /// A or Left.
    pub left: bool,
    /// Space.
    pub fire: bool,
    /// R.
    pub reload: bool,
    /// F.
    pub interact_1: bool,
    /// C.
    pub interact_2: bool,
}

/// What the keyboard asks of the character: the forward and the right axis, each one of -1, 0
/// or 1, and the actions whose keys are held.
pub fn process_keyboard_input(keys: KeyboardGameKeys) -> (input: (i8, i8, ActionFlags))
    ensures
        input.0 == (if keys.forward { 1int } else { 0 }) - (if keys.backward { 1int } else { 0 }),
        input.1 == (if keys.right { 1int } else { 0 }) - (if keys.left { 1int } else { 0 }),
        input.2 == (ActionFlags {
            fire: keys.fire,
            reload: keys.reload,
            interact_1: keys.interact_1,
            interact_2: keys.interact_2,
        }),
{
    let up = keyboard_axis(keys.forward, keys.backward);
    let right = keyboard_axis(keys.right, keys.left);
    (up, right, ActionFlags {
        fire: keys.fire,
        reload: keys.reload,
        interact_1: keys.interact_1,
        interact_2: keys.interact_2,
    })
}

/// Which of the gamepad's game buttons are held.
#[derive(Clone, Copy, Debug, PartialEq, Eq, Structural)]
pub struct GamepadGameButtons {
    pub right_trigger_2: bool,
    pub south: bool,
    pub right_trigger: bool,
    pub west: bool,
    pub north: bool,
    pub east: bool,
}

/// Adds the gamepad's buttons to the actions asked: fire on the second right trigger or South,
/// reload on the right trigger or West, the first interaction on North and the second on East.
pub fn process_gamepad_buttons(flags: ActionFlags, buttons: GamepadGameButtons) -> (merged: ActionFlags)
    ensures
        merged.fire == (flags.fire || buttons.right_trigger_2 || buttons.south),
        merged.reload == (flags.reload || buttons.right_trigger || buttons.west),
        merged.interact_1 == (flags.interact_1 || buttons.north),
        merged.interact_2 == (flags.interact_2 || buttons.east),
{
    ActionFlags {
        fire: flags.fire || buttons.right_trigger_2 || buttons.south,
        reload: flags.reload || buttons.right_trigger || buttons.west,
        interact_1: flags.interact_1 || buttons.north,
        interact_2: flags.interact_2 || buttons.east,
    }
}

/// The input of the local player for a frame: nothing when input to the game's layer is
/// blocked; otherwise the keyboard's axes and actions, with the actions of the gamepad's
/// buttons added when a gamepad is in use.
pub fn process_input(
    layers: &ActiveInputConsumerLayers,
    game_layer: &InputConsumerPriority,
    keys: KeyboardGameKeys,
    gamepad: Option<GamepadGameButtons>,
) -> (input: (i8, i8, ActionFlags))
    ensures
        (exists|j: u8| game_layer.layer() < j < 8 && #[trigger] layers.user_count(j) > 0) ==> input == (
            0i8,
            0i8,
            ActionFlags { fire: false, reload: false, interact_1: false, interact_2: false },
        ),
        !(exists|j: u8| game_layer.layer() < j < 8 && #[trigger] layers.user_count(j) > 0) ==> {
            &&& input.0 == (if keys.forward { 1int } else { 0 }) - (if keys.backward { 1int } else { 0 })
            &&& input.1 == (if keys.right { 1int } else { 0 }) - (if keys.left { 1int } else { 0 })
            &&& input.2 == match gamepad {
                Some(b) => ActionFlags {
                    fire: keys.fire || b.right_trigger_2 || b.south,
                    reload: keys.reload || b.right_trigger || b.west,
                    interact_1: keys.interact_1 || b.north,
                    interact_2: keys.interact_2 || b.east,
                },
                None => ActionFlags {
                    fire: keys.fire,
                    reload: keys.reload,
                    interact_1: keys.interact_1,
                    interact_2: keys.interact_2,
                },
            }
        },
{
    if !layers.is_input_allowed_for_layer(game_layer) {
        return (0, 0, ActionFlags::none());
    }
    let (up, right, flags) = process_keyboard_input(keys);
    match gamepad {
        Some(buttons) => (up, right, process_gamepad_buttons(flags, buttons)),
        None => (up, right, flags),
    }
}

/// Identity of a gamepad.
pub type GamepadId = usize;

/// A gamepad connected or disconnected.
#[derive(Clone, Copy, Debug, PartialEq, Eq, Structural)]
pub enum GamepadConnectionEvent {
    Connected(GamepadId),
    Disconnected(GamepadId),
}

/// The gamepad in use after a batch of connection events, given the one in use before: a
/// gamepad that connects is taken when none was in use before the batch (the latest such one
/// wins), and the gamepad in use before the batch is dropped when it disconnects.
pub open spec fn gamepad_after(before: Option<GamepadId>, events: Seq<GamepadConnectionEvent>) -> Option<GamepadId>
    decreases events.len(),
{
    if events.len() == 0 {
        before
    } else {
        let current = gamepad_after(before, events.drop_last());
        match events.last() {
            GamepadConnectionEvent::Connected(id) => if before is None {
                Some(id)
            } else {
                current
            },
            GamepadConnectionEvent::Disconnected(id) => if before == Some(id) {
                None
            } else {
                current
            },
        }
    }
}

/// Tracks gamepad connections: see [`gamepad_after`].
pub fn handle_gamepad_connections(connected: Option<GamepadId>, events: &Vec<GamepadConnectionEvent>) -> (after: Option<GamepadId>)
    ensures
        after == gamepad_after(connected, events@),
{
    let mut current = connected;
    let mut i: usize = 0;
    while i < events.len()
        invariant
            i <= events@.len(),
            current == gamepad_after(connected, events@.subrange(0, i as int)),
        decreases events@.len() - i,
    {
        proof {
            assert(events@.subrange(0, i + 1).drop_last() =~= events@.subrange(0, i as int));
        }
        match events[i] {
            GamepadConnectionEvent::Connected(id) => {
                if connected.is_none() {
                    current = Some(id);
                }
            },
            GamepadConnectionEvent::Disconnected(id) => {
                if connected == Some(id) {
                    current = None;
                }
            },
        }
        i = i + 1;
    }
    proof {
        assert(events@.subrange(0, events@.len() as int) =~= events@);
    }
    current
}

/// A request to pause, resume, or switch between the two.
#[derive(Clone, Copy, Debug, PartialEq, Eq, Structural)]
pub enum GamePauseEvent {
    Pause,
    Unpause,
    Toggle,
}

/// Pausing from the keyboard or the gamepad: unless input to the pause layer is blocked,
/// Escape or a held Start button of the gamepad in use toggles the pause.
pub fn handle_pause_input(
    layers: &ActiveInputConsumerLayers,
    pause_layer: &InputConsumerPriority,
    escape_just_pressed: bool,
    gamepad_connected: bool,
    start_pressed: bool,
) -> (event: Option<GamePauseEvent>)
    ensures
        event == if (exists|j: u8| pause_layer.layer() < j < 8 && #[trigger] layers.user_count(j) > 0) {
            None
        } else if escape_just_pressed || (gamepad_connected && start_pressed) {
            Some(GamePauseEvent::Toggle)
        } else {
            None
        },
{
    if layers.is_input_blocked_for_layer(pause_layer) {
        return None;
    }
    if escape_just_pressed || (gamepad_connected && start_pressed) {
        Some(GamePauseEvent::Toggle)
    } else {
        None
    }
}

/// What happens to a player-controlled character's input in a rollback frame.
#[derive(Clone, Copy, Debug, PartialEq, Eq, Structural)]
pub enum OnlineInput {
    /// The input received for the player's handle is applied.
    Apply,
    /// No input exists for the handle; this is reported (once per handle).
    Report,
    /// No input exists for the handle, which was reported before.
    Skip,
}

/// Applying the online inputs to a character of player `handle` when `inputs_len` inputs were
/// received: the handle's input is applied if it exists; otherwise a missing handle is reported
/// the first time and remembered.
pub fn handle_online_player_input(handle: PlayerHandle, inputs_len: usize, reported: &mut Vec<PlayerHandle>) -> (outcome: OnlineInput)
    ensures
        handle < inputs_len ==> outcome == OnlineInput::Apply && final(reported)@ == old(reported)@,
        handle >= inputs_len && old(reported)@.contains(handle) ==> outcome == OnlineInput::Skip
            && final(reported)@ == old(reported)@,
        handle >= inputs_len && !old(reported)@.contains(handle) ==> outcome == OnlineInput::Report
            && final(reported)@ == old(reported)@.push(handle),
{
    if handle < inputs_len {
        return OnlineInput::Apply;
    }
    let mut i: usize = 0;
    while i < reported.len()
        invariant
            handle >= inputs_len,
            reported@ == old(reported)@,
            i <= reported@.len(),
            forall|j: int| 0 <= j < i ==> reported@[j] != handle,
        decreases reported@.len() - i,
    {
        if reported[i] == handle {
            assert(reported@[i as int] == handle);
            return OnlineInput::Skip;
        }
        i = i + 1;
    }
    reported.push(handle);
    OnlineInput::Report
}

/// The number of actions an AI agent chooses from.
pub const AI_ACTIONS: usize = 36;

/// What an AI agent's action asks of its character.
#[derive(Clone, Copy, Debug, PartialEq, Eq, Structural)]
pub struct AiCommand {
    /// Forward axis: -1, 0 or 1.
    pub up: i8,
    /// Right axis: -1, 0 or 1.
    pub right: i8,
    pub fire: bool,
    pub reload: bool,
}

/// The command an action stands for: its digits in the mixed radix (2, 3, 3, 2) give, from the
/// lowest, whether to fire (on 0), the forward axis and the right axis (digit minus one), and
/// whether to reload (on 0).
pub open spec fn ai_command(action: int) -> AiCommand {
    AiCommand {
        up: ((action / 2) % 3 - 1) as i8,
        right: ((action / 6) % 3 - 1) as i8,
        fire: action % 2 == 0,
        reload: (action / 18) % 2 == 0,
    }
}

/// The command of an AI agent's action (see [`ai_command`]).
pub fn action_to_input(action: usize) -> (command: AiCommand)
    ensures
        command == ai_command(action as int),
{
    let fire = action % 2 == 0;
    let up = (action / 2) % 3;
    let right = (action / 6) % 3;
    let reload = (action / 18) % 2 == 0;
    AiCommand { up: up as i8 - 1, right: right as i8 - 1, fire, reload }
}

/// Distinct actions below [`AI_ACTIONS`] ask for distinct commands, and every command with axes
/// in -1..=1 is asked by one of them.
pub proof fn lemma_ai_actions_cover_commands(a: int, b: int, up: int, right: int, fire: bool, reload: bool)
    requires
        0 <= a < AI_ACTIONS,
        0 <= b < AI_ACTIONS,
        -1 <= up <= 1,
        -1 <= right <= 1,
    ensures
        a != b ==> ai_command(a) != ai_command(b),
        ({
            let action = (if fire { 0int } else { 1 }) + 2 * (up + 1) + 6 * (right + 1) + 18 * (if reload { 0int } else { 1 });
            &&& 0 <= action < AI_ACTIONS
            &&& ai_command(action) == AiCommand { up: up as i8, right: right as i8, fire, reload }
        }),
{
    if a != b && ai_command(a) == ai_command(b) {
        assert(a % 2 == b % 2);
        assert((a / 2) % 3 == (b / 2) % 3);
        assert((a / 6) % 3 == (b / 6) % 3);
        assert((a / 18) % 2 == (b / 18) % 2);
        assert(a == b) by (nonlinear_arith)
            requires
                0 <= a < 36,
                0 <= b < 36,
                a % 2 == b % 2,
                (a / 2) % 3 == (b / 2) % 3,
                (a / 6) % 3 == (b / 6) % 3,
                (a / 18) % 2 == (b / 18) % 2,
        ;
    }
    let f: int = if fire { 0 } else { 1 };
    let r: int = if reload { 0 } else { 1 };
    let action = f + 2 * (up + 1) + 6 * (right + 1) + 18 * r;
    assert(action % 2 == f && (action / 2) % 3 == up + 1 && (action / 6) % 3 == right + 1 && (action / 18) % 2 == r)
        by (nonlinear_arith)
        requires
            0 <= f <= 1,
            0 <= r <= 1,
            -1 <= up <= 1,
            -1 <= right <= 1,
            action == f + 2 * (up + 1) + 6 * (right + 1) + 18 * r,
    ;
}

/// The players an AI agent's character killed in a frame: the victims, in order, of the deaths
/// caused by its player, not counting its own.
pub fn actor_killings(deaths: &Vec<PlayerDied>, actor: PlayerHandle) -> (victims: Vec<PlayerHandle>)
    ensures
        victims@ == deaths@.filter(|d: PlayerDied| d.killed_by == Some(actor) && d.player_handle != actor).map_values(
            |d: PlayerDied| d.player_handle,
        ),
{
    let ghost pick = |d: PlayerDied| d.killed_by == Some(actor) && d.player_handle != actor;
    let ghost to_handle = |d: PlayerDied| d.player_handle;
    let mut victims: Vec<PlayerHandle> = Vec::new();
    let mut i: usize = 0;
    while i < deaths.len()
        invariant
            pick == (|d: PlayerDied| d.killed_by == Some(actor) && d.player_handle != actor),
            to_handle == (|d: PlayerDied| d.player_handle),
            i <= deaths@.len(),
            victims@ == deaths@.subrange(0, i as int).filter(pick).map_values(to_handle),
        decreases deaths@.len() - i,
    {
        let death = deaths[i];
        let ghost before = deaths@.subrange(0, i as int).filter(pick);
        proof {
            let prefix = deaths@.subrange(0, i + 1);
            assert(prefix.drop_last() =~= deaths@.subrange(0, i as int));
            assert(prefix.last() == death);
            assert(prefix.filter(pick) == if pick(death) {
                before.push(death)
            } else {
                before
            }) by {
                reveal(Seq::filter);
            }
        }
        let wanted = match death.killed_by {
            Some(killer) => killer == actor && death.player_handle != actor,
            None => false,
        };
        if wanted {
            victims.push(death.player_handle);
            proof {
                assert(before.push(death).map_values(to_handle) =~= before.map_values(to_handle).push(death.player_handle));
            }
        }
        i = i + 1;
    }
    proof {
        assert(deaths@.subrange(0, deaths@.len() as int) =~= deaths@);
    }
    victims
}

/// Keeps an experience in a bounded memory: when the memory holds `limit` or more, its oldest
/// experience is forgotten first.
pub fn record_experience<T>(memory: &mut VecDeque<T>, limit: usize, experience: T)
    requires
        old(memory)@.len() < usize::MAX,
    ensures
        final(memory)@ == if old(memory)@.len() >= limit && old(memory)@.len() > 0 {
            old(memory)@.drop_first().push(experience)
        } else {
            old(memory)@.push(experience)
        },
{
    if memory.len() >= limit {
        let _forgotten = memory.pop_front();
    }
    memory.push_back(experience);
}

/// The AI opponent joins the registry on entering a game: `Johnny`, on the team just below the
/// default AI team.
pub fn register_ai_player(players: &mut PlayerRegistry)
    requires
        old(players).0@.len() < usize::MAX,
    ensures
        final(players).0@.len() == old(players).0@.len() + 1,
        forall|i: int| 0 <= i < old(players).0@.len() ==> #[trigger] final(players).0@[i] == old(players).0@[i],
        final(players).0@.last().team == Team((AI_DEFAULT_TEAM - 1) as u8),
        final(players).0@.last().name@ == "Johnny"@,
        final(players).0@.last().kills == 0,
        final(players).0@.last().deaths == 0,
{
    let johnny = PlayerData::default().with_team(AI_DEFAULT_TEAM - 1).with_name(String::from_str("Johnny"));
    players.0.push(johnny);
}

} // verus!
