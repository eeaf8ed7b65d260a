use vstd::prelude::*;
use vstd::string::*;
use crate::controls::GamePauseEvent;
use crate::focus::{EntityId, Focus, Interaction};
use crate::scenes::SceneSelector;
use crate::strings::usize_to_decimal;
use crate::strings::decimal;
use crate::text_input::TextInput;

verus! {

/// The client's current state of the game.
#[derive(Clone, Copy, Debug, PartialEq, Eq, Structural)]
pub enum GameState {
    MainMenu,
    Matchmaking,
    InGame,
}

impl Default for GameState {
    /// The game starts in the main menu.
    fn default() -> (state: Self)
        ensures
            state == GameState::MainMenu,
    {
        GameState::MainMenu
    }
}

/// The menu screen shown.
#[derive(Clone, Copy, Debug, PartialEq, Eq, Structural)]
pub enum MenuState {
    Main,
    SinglePlayer,
    MultiPlayer,
    MatchMaker,
    Controls,
    Settings,
    Pause,
    MatchEnd,
    MatchmakingLobby,
    /// No menu.
    Disabled,
}

impl Default for MenuState {
    /// No menu is shown at first.
    fn default() -> (state: Self)
        ensures
            state == MenuState::Disabled,
    {
        MenuState::Disabled
    }
}

/// All actions that a button click can trigger.
#[derive(Clone, Copy, Debug, PartialEq, Eq, Structural)]
pub enum MenuButtonAction {
    SinglePlayer,
    MultiPlayer,
    JoinGame,
    SelectScene(SceneSelector),
    StartGame,
    Resume,
    Rematch,
    Controls,
    Settings,
    BackToMenu,
    QuitToTitle,
    Quit,
}

/// What a menu action asks of the game: each field that is set replaces the current value.
#[derive(Clone, Copy, Debug, PartialEq, Eq, Structural)]
pub struct MenuEffect {
    /// The expected number of players.
    pub player_count: Option<usize>,
    /// The next menu screen.
    pub menu_state: Option<MenuState>,
    /// The next state of the game.
    pub game_state: Option<GameState>,
    /// The scene to play.
    pub scene: Option<SceneSelector>,
    /// A pause request to send.
    pub pause: Option<GamePauseEvent>,
    /// Whether to leave the application.
    pub exit: bool,
}

/// An effect that asks nothing.
pub open spec fn no_effect() -> MenuEffect {
    MenuEffect { player_count: None, menu_state: None, game_state: None, scene: None, pause: None, exit: false }
}

/// The scene of the first element whose focus has a scene, if any.
pub open spec fn first_scene(focuses: Seq<(EntityId, Focus<SceneSelector>)>) -> Option<SceneSelector>
    decreases focuses.len(),
{
    if focuses.len() == 0 {
        None
    } else {
        match focuses[0].1 {
            Focus::Focused(Some(scene)) => Some(scene),
            _ => first_scene(focuses.drop_first()),
        }
    }
}

/// What a clicked button asks for: the single player and multiplayer buttons set the number
/// of players and open their menus; starting a game needs a selected scene and goes to
/// matchmaking in the lobby; resuming and rematching unpause; going back returns to the pause
/// menu in game and to the main menu otherwise; quitting to the title unpauses and returns to
/// the main menu; quitting leaves. Selecting a scene asks nothing of the game.
pub open spec fn action_effect(action: MenuButtonAction, selected_scene: Option<SceneSelector>, in_game: bool) -> MenuEffect {
    match action {
        MenuButtonAction::Quit => MenuEffect { exit: true, ..no_effect() },
        MenuButtonAction::SinglePlayer => MenuEffect {
            player_count: Some(1),
            menu_state: Some(MenuState::SinglePlayer),
            ..no_effect()
        },
        MenuButtonAction::MultiPlayer => MenuEffect {
            player_count: Some(2),
            menu_state: Some(MenuState::MultiPlayer),
            ..no_effect()
        },
        MenuButtonAction::JoinGame => MenuEffect { menu_state: Some(MenuState::MatchMaker), ..no_effect() },
        MenuButtonAction::SelectScene(_) => no_effect(),
        MenuButtonAction::StartGame => match selected_scene {
            Some(scene) => MenuEffect {
                scene: Some(scene),
                game_state: Some(GameState::Matchmaking),
                menu_state: Some(MenuState::MatchmakingLobby),
                ..no_effect()
            },
            None => no_effect(),
        },
        MenuButtonAction::Resume => MenuEffect { pause: Some(GamePauseEvent::Unpause), ..no_effect() },
        MenuButtonAction::Rematch => MenuEffect { pause: Some(GamePauseEvent::Unpause), ..no_effect() },
        MenuButtonAction::Controls => MenuEffect { menu_state: Some(MenuState::Controls), ..no_effect() },
        MenuButtonAction::Settings => MenuEffect { menu_state: Some(MenuState::Settings), ..no_effect() },
        MenuButtonAction::BackToMenu => MenuEffect {
            menu_state: Some(if in_game { MenuState::Pause } else { MenuState::Main }),
            ..no_effect()
        },
        MenuButtonAction::QuitToTitle => MenuEffect {
            pause: Some(GamePauseEvent::Unpause),
            game_state: Some(GameState::MainMenu),
            menu_state: Some(MenuState::Main),
            ..no_effect()
        },
    }
}

fn find_first_scene(focuses: &Vec<(EntityId, Focus<SceneSelector>)>) -> (scene: Option<SceneSelector>)
    ensures
        scene == first_scene(focuses@),
{
    let mut i: usize = 0;
    proof {
        assert(focuses@.subrange(0, focuses@.len() as int) =~= focuses@);
    }
    while i < focuses.len()
        invariant
            i <= focuses@.len(),
            first_scene(focuses@) == first_scene(focuses@.subrange(i as int, focuses@.len() as int)),
        decreases focuses@.len() - i,
    {
        let ghost rest = focuses@.subrange(i as int, focuses@.len() as int);
        proof {
            assert(rest.drop_first() =~= focuses@.subrange(i + 1, focuses@.len() as int));
            assert(rest[0] == focuses@[i as int]);
        }
        match focuses[i].1 {
            Focus::Focused(Some(scene)) => {
                return Some(scene);
            },
            _ => {},
        }
        i = i + 1;
    }
    None
}

/// What each clicked button asks for. The single player button expects one player and the
/// multiplayer button two, each opening its own menu; no other button changes the number of
/// players. Joining opens the match maker; starting with a selected scene goes to matchmaking
/// in the lobby with that scene, and without one asks nothing; resuming and rematching only
/// unpause; the controls and settings buttons open their menus; going back opens the pause menu
/// in game and the main menu otherwise; quitting to the title unpauses and returns to the main
/// menu in the main menu state; only quitting leaves the application.
pub proof fn lemma_menu_button_effects(selected_scene: Option<SceneSelector>, in_game: bool, action: MenuButtonAction)
    ensures
        action_effect(MenuButtonAction::SinglePlayer, selected_scene, in_game).player_count == Some(1usize),
        action_effect(MenuButtonAction::SinglePlayer, selected_scene, in_game).menu_state == Some(MenuState::SinglePlayer),
        action_effect(MenuButtonAction::MultiPlayer, selected_scene, in_game).player_count == Some(2usize),
        action_effect(MenuButtonAction::MultiPlayer, selected_scene, in_game).menu_state == Some(MenuState::MultiPlayer),
        action_effect(action, selected_scene, in_game).player_count is Some <==> (action == MenuButtonAction::SinglePlayer
            || action == MenuButtonAction::MultiPlayer),
        action_effect(MenuButtonAction::JoinGame, selected_scene, in_game).menu_state == Some(MenuState::MatchMaker),
        selected_scene is Some ==> {
            let start = action_effect(MenuButtonAction::StartGame, selected_scene, in_game);
            &&& start.scene == selected_scene
            &&& start.game_state == Some(GameState::Matchmaking)
            &&& start.menu_state == Some(MenuState::MatchmakingLobby)
        },
        selected_scene is None ==> action_effect(MenuButtonAction::StartGame, selected_scene, in_game) == no_effect(),
        action_effect(MenuButtonAction::Resume, selected_scene, in_game).pause == Some(GamePauseEvent::Unpause),
        action_effect(MenuButtonAction::Rematch, selected_scene, in_game).pause == Some(GamePauseEvent::Unpause),
        action_effect(MenuButtonAction::Controls, selected_scene, in_game).menu_state == Some(MenuState::Controls),
        action_effect(MenuButtonAction::Settings, selected_scene, in_game).menu_state == Some(MenuState::Settings),
        action_effect(MenuButtonAction::BackToMenu, selected_scene, true).menu_state == Some(MenuState::Pause),
        action_effect(MenuButtonAction::BackToMenu, selected_scene, false).menu_state == Some(MenuState::Main),
        ({
            let quit = action_effect(MenuButtonAction::QuitToTitle, selected_scene, in_game);
            &&& quit.pause == Some(GamePauseEvent::Unpause)
            &&& quit.game_state == Some(GameState::MainMenu)
            &&& quit.menu_state == Some(MenuState::Main)
        }),
        action_effect(action, selected_scene, in_game).exit <==> action == MenuButtonAction::Quit,
{
}

/// A scene button's focus once `entity` selected `scene`: the selecting button is focused on
/// the scene, every other one loses its focus.
pub open spec fn refocused(
    entry: (EntityId, Focus<SceneSelector>),
    entity: EntityId,
    scene: SceneSelector,
) -> (EntityId, Focus<SceneSelector>) {
    if entry.0 == entity {
        (entry.0, Focus::Focused(Some(scene)))
    } else {
        (entry.0, Focus::Unfocused)
    }
}

/// The scene focuses once `entity` selected `scene`: each refocused, and the selecting button
/// given its focus at the end if it had none yet.
pub open spec fn scene_selected(
    focuses: Seq<(EntityId, Focus<SceneSelector>)>,
    entity: EntityId,
    scene: SceneSelector,
) -> Seq<(EntityId, Focus<SceneSelector>)> {
    let refocused_all = focuses.map_values(|e: (EntityId, Focus<SceneSelector>)| refocused(e, entity, scene));
    if exists|j: int| 0 <= j < focuses.len() && (#[trigger] focuses[j]).0 == entity {
        refocused_all
    } else {
        refocused_all.push((entity, Focus::Focused(Some(scene))))
    }
}

/// After a scene is selected, starting the game finds that scene: the selecting button is the
/// only one left with a focus.
pub proof fn lemma_selected_scene_is_found(
    focuses: Seq<(EntityId, Focus<SceneSelector>)>,
    entity: EntityId,
    scene: SceneSelector,
)
    ensures
        first_scene(scene_selected(focuses, entity, scene)) == Some(scene),
    decreases focuses.len(),
{
    let all = focuses.map_values(|e: (EntityId, Focus<SceneSelector>)| refocused(e, entity, scene));
    if focuses.len() == 0 {
        assert(!(exists|j: int| 0 <= j < focuses.len() && (#[trigger] focuses[j]).0 == entity));
        assert(scene_selected(focuses, entity, scene) =~= seq![(entity, Focus::Focused(Some(scene)))]);
        assert(scene_selected(focuses, entity, scene).drop_first().len() == 0);
    } else {
        let rest = focuses.drop_first();
        lemma_selected_scene_is_found(rest, entity, scene);
        let sel = scene_selected(focuses, entity, scene);
        let rest_all = rest.map_values(|e: (EntityId, Focus<SceneSelector>)| refocused(e, entity, scene));
        assert(all.drop_first() =~= rest_all);
        if focuses[0].0 != entity {
            assert(sel[0] == all[0]);
            let found = exists|j: int| 0 <= j < focuses.len() && (#[trigger] focuses[j]).0 == entity;
            let rest_found = exists|j: int| 0 <= j < rest.len() && (#[trigger] rest[j]).0 == entity;
            if found {
                let j = choose|j: int| 0 <= j < focuses.len() && (#[trigger] focuses[j]).0 == entity;
                assert(rest[j - 1].0 == entity);
                assert(rest_found);
                assert(sel.drop_first() =~= scene_selected(rest, entity, scene));
            } else {
                if rest_found {
                    let j = choose|j: int| 0 <= j < rest.len() && (#[trigger] rest[j]).0 == entity;
                    assert(focuses[j + 1].0 == entity);
                }
                assert(sel.drop_first() =~= scene_selected(rest, entity, scene));
            }
        } else {
            assert(focuses[0].0 == entity);
            assert(sel[0] == all[0]);
        }
    }
}

/// Handles a click on a menu button (see [`action_effect`]); anything but a click does nothing.
/// Selecting a scene moves the scene focus: every scene button loses its focus, and the clicked
/// one gets the selected scene (it is given a focus if it had none).
pub fn handle_menu_action(
    interaction: Interaction,
    action: MenuButtonAction,
    entity: EntityId,
    scene_focuses: &mut Vec<(EntityId, Focus<SceneSelector>)>,
    game_state: GameState,
) -> (effect: MenuEffect)
    ensures
        interaction != Interaction::Clicked ==> effect == no_effect() && final(scene_focuses)@ == old(scene_focuses)@,
        interaction == Interaction::Clicked ==> effect == action_effect(
            action,
            first_scene(old(scene_focuses)@),
            game_state == GameState::InGame,
        ),
        interaction == Interaction::Clicked ==> match action {
            MenuButtonAction::SelectScene(scene) => final(scene_focuses)@ == scene_selected(
                old(scene_focuses)@,
                entity,
                scene,
            ),
            _ => final(scene_focuses)@ == old(scene_focuses)@,
        },
{
    let none = MenuEffect { player_count: None, menu_state: None, game_state: None, scene: None, pause: None, exit: false };
    if interaction != Interaction::Clicked {
        return none;
    }
    match action {
        MenuButtonAction::Quit => MenuEffect { exit: true, ..none },
        MenuButtonAction::SinglePlayer => MenuEffect {
            player_count: Some(1),
            menu_state: Some(MenuState::SinglePlayer),
            ..none
        },
        MenuButtonAction::MultiPlayer => MenuEffect {
            player_count: Some(2),
            menu_state: Some(MenuState::MultiPlayer),
            ..none
        },
        MenuButtonAction::JoinGame => MenuEffect { menu_state: Some(MenuState::MatchMaker), ..none },
        MenuButtonAction::SelectScene(scene) => {
            let ghost start = scene_focuses@;
            let mut found = false;
            let mut i: usize = 0;
            while i < scene_focuses.len()
                invariant
                    i <= scene_focuses@.len() == start.len(),
                    found <==> exists|j: int| 0 <= j < i && (#[trigger] start[j]).0 == entity,
                    forall|j: int| i <= j < start.len() ==> #[trigger] scene_focuses@[j] == start[j],
                    forall|j: int| 0 <= j < i ==> #[trigger] scene_focuses@[j] == refocused(
                        start[j],
                        entity,
                        scene,
                    ),
                decreases start.len() - i,
            {
                let id = scene_focuses[i].0;
                if id == entity {
                    scene_focuses.set(i, (id, Focus::focused(scene)));
                    found = true;
                } else {
                    scene_focuses.set(i, (id, Focus::Unfocused));
                }
                i = i + 1;
            }
            proof {
                assert(scene_focuses@ =~= start.map_values(|e: (EntityId, Focus<SceneSelector>)| refocused(e, entity, scene)));
            }
            if !found {
                scene_focuses.push((entity, Focus::focused(scene)));
            }
            none
        },
        MenuButtonAction::StartGame => {
            match find_first_scene(scene_focuses) {
                Some(scene) => MenuEffect {
                    scene: Some(scene),
                    game_state: Some(GameState::Matchmaking),
                    menu_state: Some(MenuState::MatchmakingLobby),
                    ..none
                },
                None => none,
            }
        },
        MenuButtonAction::Resume => MenuEffect { pause: Some(GamePauseEvent::Unpause), ..none },
        MenuButtonAction::Rematch => MenuEffect { pause: Some(GamePauseEvent::Unpause), ..none },
        MenuButtonAction::Controls => MenuEffect { menu_state: Some(MenuState::Controls), ..none },
        MenuButtonAction::Settings => MenuEffect { menu_state: Some(MenuState::Settings), ..none },
        MenuButtonAction::BackToMenu => {
            if game_state == GameState::InGame {
                MenuEffect { menu_state: Some(MenuState::Pause), ..none }
            } else {
                MenuEffect { menu_state: Some(MenuState::Main), ..none }
            }
        },
        MenuButtonAction::QuitToTitle => MenuEffect {
            pause: Some(GamePauseEvent::Unpause),
            game_state: Some(GameState::MainMenu),
            menu_state: Some(MenuState::Main),
            ..none
        },
    }
}

/// The menu on entering the main menu state of the game: the main menu.
pub fn set_main_menu_state() -> (state: MenuState)
    ensures
        state == MenuState::Main,
{
    MenuState::Main
}

/// Pausing in game: a pause or toggle request opens the pause menu.
pub fn pause_menu(events: &Vec<GamePauseEvent>) -> (next: Option<MenuState>)
    ensures
        next == if (exists|i: int| 0 <= i < events@.len() && (#[trigger] events@[i] == GamePauseEvent::Pause
            || events@[i] == GamePauseEvent::Toggle)) {
            Some(MenuState::Pause)
        } else {
            None::<MenuState>
        },
{
    let mut i: usize = 0;
    while i < events.len()
        invariant
            i <= events@.len(),
            forall|j: int| 0 <= j < i ==> !(#[trigger] events@[j] == GamePauseEvent::Pause || events@[j]
                == GamePauseEvent::Toggle),
        decreases events@.len() - i,
    {
        let e = events[i];
        if e == GamePauseEvent::Pause || e == GamePauseEvent::Toggle {
            return Some(MenuState::Pause);
        }
        i = i + 1;
    }
    None
}

/// Resuming in game: an unpause or toggle request closes the menu.
pub fn unpause_menu(events: &Vec<GamePauseEvent>) -> (next: Option<MenuState>)
    ensures
        next == if (exists|i: int| 0 <= i < events@.len() && (#[trigger] events@[i] == GamePauseEvent::Unpause
            || events@[i] == GamePauseEvent::Toggle)) {
            Some(MenuState::Disabled)
        } else {
            None::<MenuState>
        },
{
    let mut i: usize = 0;
    while i < events.len()
        invariant
            i <= events@.len(),
            forall|j: int| 0 <= j < i ==> !(#[trigger] events@[j] == GamePauseEvent::Unpause || events@[j]
                == GamePauseEvent::Toggle),
        decreases events@.len() - i,
    {
        let e = events[i];
        if e == GamePauseEvent::Unpause || e == GamePauseEvent::Toggle {
            return Some(MenuState::Disabled);
        }
        i = i + 1;
    }
    None
}

/// The number of peers still awaited: all players but us and the peers already here.
pub open spec fn remaining_peers(player_count: usize, peers: usize) -> nat {
    if player_count > 1 + peers {
        (player_count - 1 - peers) as nat
    } else {
        0
    }
}

/// The words of the lobby's text `Waiting for <number> more peer<s> to join...`: the number of
/// peers still awaited, and the plural ending, empty for exactly one.
pub fn peer_waiting_text(player_count: usize, peers: usize) -> (words: (String, String))
    requires
        peers < usize::MAX,
    ensures
        words.0@ == decimal(remaining_peers(player_count, peers)),
        words.1@ == if remaining_peers(player_count, peers) != 1 { "s"@ } else { ""@ },
{
    let remaining = player_count.saturating_sub(1 + peers);
    let plural = if remaining != 1 { String::from_str("s") } else { String::from_str("") };
    (usize_to_decimal(remaining), plural)
}

/// In the main menu, a request to open the matchmaking lobby for a single player game skips
/// the lobby: no menu is shown.
pub fn intercept_matchmaking_menu_state(next: Option<MenuState>, player_count: Option<usize>) -> (intercepted: Option<MenuState>)
    ensures
        intercepted == if next == Some(MenuState::MatchmakingLobby) && player_count == Some(1usize) {
            Some(MenuState::Disabled)
        } else {
            next
        },
{
    if next == Some(MenuState::MatchmakingLobby) && player_count == Some(1usize) {
        Some(MenuState::Disabled)
    } else {
        next
    }
}

/// The menu on leaving matchmaking: none.
pub fn disable_matchmaking_menu_state() -> (state: MenuState)
    ensures
        state == MenuState::Disabled,
{
    MenuState::Disabled
}

/// The kinds of input fields, each recording one user setting.
#[derive(Clone, Copy, Debug, PartialEq, Eq, Structural)]
pub enum UserInputForm {
    PlayerName,
    ServerUrl,
    RoomName,
}

/// The application's user settings, each one named by a [`UserInputForm`].
#[derive(Clone, Debug)]
pub struct UserSettings {
    pub player_name: String,
    pub server_url: String,
    pub room_name: String,
}

/// The default value of a setting.
pub open spec fn default_setting(setting: UserInputForm) -> Seq<char> {
    match setting {
        UserInputForm::PlayerName => "Player"@,
        UserInputForm::ServerUrl => "wss://match-0-6.helsing.studio"@,
        UserInputForm::RoomName => ""@,
    }
}

impl UserSettings {
    /// The value of a setting, as a view.
    pub open spec fn setting(self, setting: UserInputForm) -> Seq<char> {
        match setting {
            UserInputForm::PlayerName => self.player_name@,
            UserInputForm::ServerUrl => self.server_url@,
            UserInputForm::RoomName => self.room_name@,
        }
    }

    /// Sets the value of a setting; the others stay.
    pub fn set(&mut self, setting: UserInputForm, value: String)
        ensures
            final(self).setting(setting) == value@,
            forall|other: UserInputForm| other != setting ==> #[trigger] final(self).setting(other) == old(self).setting(other),
    {
        match setting {
            UserInputForm::PlayerName => self.player_name = value,
            UserInputForm::ServerUrl => self.server_url = value,
            UserInputForm::RoomName => self.room_name = value,
        }
    }

    /// The value of a setting.
    pub fn get(&self, setting: UserInputForm) -> (value: String)
        ensures
            value@ == self.setting(setting),
    {
        match setting {
            UserInputForm::PlayerName => self.player_name.clone(),
            UserInputForm::ServerUrl => self.server_url.clone(),
            UserInputForm::RoomName => self.room_name.clone(),
        }
    }
}

impl Default for UserSettings {
    /// The player `Player`, the public matchmaking server, no room name.
    fn default() -> (settings: Self)
        ensures
            forall|setting: UserInputForm| #[trigger] settings.setting(setting) == default_setting(setting),
    {
        proof {
            reveal_strlit("Player");
            reveal_strlit("wss://match-0-6.helsing.studio");
            reveal_strlit("");
        }
        UserSettings {
            player_name: String::from_str("Player"),
            server_url: String::from_str("wss://match-0-6.helsing.studio"),
            room_name: String::from_str(""),
        }
    }
}

/// Reading a setting gives back what was last set, whatever other settings were set after.
pub proof fn lemma_setting_reads_back_last_write(
    s0: UserSettings,
    s1: UserSettings,
    s2: UserSettings,
    written: UserInputForm,
    other: UserInputForm,
    value: Seq<char>,
    other_value: Seq<char>,
)
    requires
        s1.setting(written) == value,
        forall|f: UserInputForm| f != written ==> #[trigger] s1.setting(f) == s0.setting(f),
        s2.setting(other) == other_value,
        forall|f: UserInputForm| f != other ==> #[trigger] s2.setting(f) == s1.setting(f),
        other != written,
    ensures
        s2.setting(written) == value,
{
}

/// Records the inputs' texts into the settings they are for; an empty input records the
/// setting's default value.
pub fn transfer_setting_from_text_input(settings: &mut UserSettings, inputs: &Vec<(TextInput, UserInputForm)>)
    ensures
        forall|f: UserInputForm| #[trigger] final(settings).setting(f) == transferred(old(settings).setting(f), inputs@, f),
{
    let ghost start = *settings;
    let mut i: usize = 0;
    while i < inputs.len()
        invariant
            i <= inputs@.len(),
            forall|f: UserInputForm| #[trigger] settings.setting(f) == transferred(
                start.setting(f),
                inputs@.subrange(0, i as int),
                f,
            ),
        decreases inputs@.len() - i,
    {
        proof {
            assert(inputs@.subrange(0, i + 1).drop_last() =~= inputs@.subrange(0, i as int));
        }
        let form = inputs[i].1;
        let value = if inputs[i].0.text.len() == 0 {
            UserSettings::default().get(form)
        } else {
            inputs[i].0.text_string()
        };
        settings.set(form, value);
        i = i + 1;
    }
    proof {
        assert(inputs@.subrange(0, inputs@.len() as int) =~= inputs@);
    }
}

/// The value of setting `f` after recording the inputs in order, starting from `current`: the
/// text of the last input for `f`, or the default for an empty one.
pub open spec fn transferred(current: Seq<char>, inputs: Seq<(TextInput, UserInputForm)>, f: UserInputForm) -> Seq<char>
    decreases inputs.len(),
{
    if inputs.len() == 0 {
        current
    } else {
        let (input, form) = inputs.last();
        if form == f {
            if input.text@.len() == 0 {
                default_setting(f)
            } else {
                input.text@
            }
        } else {
            transferred(current, inputs.drop_last(), f)
        }
    }
}

} // verus!
