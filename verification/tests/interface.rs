use std::collections::VecDeque;
use spaceball::color_interaction::{distill_color, resolve_interaction, ColorInteractionMap, InheritedColor};
use spaceball::controls::{
    action_to_input, actor_killings, handle_gamepad_connections, handle_online_player_input, handle_pause_input,
    keyboard_axis, process_gamepad_buttons, process_input, process_keyboard_input, record_experience, register_ai_player,
    ActionFlags, AiCommand, GamePauseEvent, GamepadConnectionEvent, GamepadGameButtons, InputHandlingSet,
    KeyboardGameKeys, OnlineInput, AI_ACTIONS, FIRE, INTERACT_2,
};
use spaceball::focus::{remove_focus_from_non_focused_entities, transfer_focus_on_interaction, Focus, Interaction};
use spaceball::guns::{Gun, GunPreset};
use spaceball::entropy::EntropyGenerator;
use spaceball::input_consumption::{
    handle_input_consumption_priority_change, ActiveInputConsumerLayers, InputConsumerPriority, Visibility,
};
use spaceball::menu::{
    disable_matchmaking_menu_state, handle_menu_action, intercept_matchmaking_menu_state, pause_menu, peer_waiting_text,
    set_main_menu_state, transfer_setting_from_text_input, unpause_menu, GameState, MenuButtonAction, MenuState,
    UserInputForm, UserSettings,
};
use spaceball::players::{PlayerDied, PlayerRegistry};
use spaceball::scenes::SceneSelector;
use spaceball::score::{
    ammo_text, handle_showing_score_display, max_ammo_text, plan_gun_displays, score_row_texts, score_rows_to_add,
    should_show_score_display,
};
use spaceball::players::PlayerData;
use spaceball::text_input::TextInput;

#[test]
fn action_bits_round_trip() {
    let flags = ActionFlags { fire: true, reload: false, interact_1: false, interact_2: true };
    let bits = flags.to_bits();
    assert_eq!(bits, FIRE | INTERACT_2);
    assert_eq!(ActionFlags::from_bits(bits), flags);
    assert_eq!(ActionFlags::from_bits(0xff).to_bits(), 15);
    assert_eq!(ActionFlags::none().to_bits(), 0);
}

#[test]
fn keyboard_and_gamepad_input() {
    assert_eq!(keyboard_axis(true, false), 1);
    assert_eq!(keyboard_axis(true, true), 0);
    assert_eq!(keyboard_axis(false, true), -1);
    let keys = KeyboardGameKeys {
        forward: true,
        backward: false,
        right: false,
        left: true,
        fire: false,
        reload: true,
        interact_1: false,
        interact_2: false,
    };
    let (up, right, flags) = process_keyboard_input(keys);
    assert_eq!((up, right), (1, -1));
    assert!(flags.reload && !flags.fire);
    let buttons = GamepadGameButtons {
        right_trigger_2: false,
        south: true,
        right_trigger: false,
        west: false,
        north: true,
        east: false,
    };
    let merged = process_gamepad_buttons(flags, buttons);
    assert!(merged.fire && merged.reload && merged.interact_1 && !merged.interact_2);
    let mut layers = ActiveInputConsumerLayers::new();
    let game = InputConsumerPriority::new(0);
    assert_eq!(process_input(&layers, &game, keys, Some(buttons)), (1, -1, merged));
    layers.activate_layer(&InputConsumerPriority::new(6));
    assert_eq!(process_input(&layers, &game, keys, None), (0, 0, ActionFlags::none()));
    assert_ne!(InputHandlingSet::InputReading, InputHandlingSet::ResponseProcessing);
}

#[test]
fn gamepad_connections() {
    let connected = GamepadConnectionEvent::Connected;
    let disconnected = GamepadConnectionEvent::Disconnected;
    assert_eq!(handle_gamepad_connections(None, &vec![connected(1), connected(2)]), Some(2));
    assert_eq!(handle_gamepad_connections(Some(1), &vec![connected(2)]), Some(1));
    assert_eq!(handle_gamepad_connections(Some(1), &vec![disconnected(2)]), Some(1));
    assert_eq!(handle_gamepad_connections(Some(1), &vec![disconnected(1)]), None);
}

#[test]
fn pause_toggles() {
    let layers = ActiveInputConsumerLayers::new();
    let pause_layer = InputConsumerPriority::new(5);
    assert_eq!(handle_pause_input(&layers, &pause_layer, true, false, false), Some(GamePauseEvent::Toggle));
    assert_eq!(handle_pause_input(&layers, &pause_layer, false, true, true), Some(GamePauseEvent::Toggle));
    assert_eq!(handle_pause_input(&layers, &pause_layer, false, false, true), None);
    let mut blocked = ActiveInputConsumerLayers::new();
    blocked.activate_layer(&InputConsumerPriority::new(7));
    assert_eq!(handle_pause_input(&blocked, &pause_layer, true, true, true), None);
}

#[test]
fn online_input_reported_once() {
    let mut reported = Vec::new();
    assert_eq!(handle_online_player_input(0, 2, &mut reported), OnlineInput::Apply);
    assert_eq!(handle_online_player_input(3, 2, &mut reported), OnlineInput::Report);
    assert_eq!(handle_online_player_input(3, 2, &mut reported), OnlineInput::Skip);
    assert_eq!(reported, vec![3]);
}

#[test]
fn ai_actions_decode() {
    assert_eq!(action_to_input(0), AiCommand { up: -1, right: -1, fire: true, reload: true });
    assert_eq!(action_to_input(35), AiCommand { up: 1, right: 1, fire: false, reload: false });
    assert_eq!(action_to_input(9), AiCommand { up: 0, right: 0, fire: false, reload: true });
    let mut seen = Vec::new();
    for a in 0..AI_ACTIONS {
        let c = action_to_input(a);
        assert!(!seen.contains(&c));
        seen.push(c);
    }
}

#[test]
fn killings_and_memory() {
    let deaths = vec![
        PlayerDied { player_handle: 1, killed_by: Some(0) },
        PlayerDied { player_handle: 0, killed_by: Some(0) },
        PlayerDied { player_handle: 2, killed_by: Some(1) },
        PlayerDied { player_handle: 3, killed_by: Some(0) },
    ];
    assert_eq!(actor_killings(&deaths, 0), vec![1, 3]);
    let mut memory: VecDeque<u8> = VecDeque::new();
    record_experience(&mut memory, 2, 1);
    record_experience(&mut memory, 2, 2);
    record_experience(&mut memory, 2, 3);
    assert_eq!(memory, VecDeque::from(vec![2, 3]));
    let mut players = PlayerRegistry::default();
    register_ai_player(&mut players);
    assert_eq!(players.0[0].name, "Johnny");
    assert_eq!(players.0[0].team.0, 8);
}

#[test]
fn focus_moves_to_the_last_switch() {
    let mut elements = vec![(1u64, Focus::Focused(Some(0u8))), (2u64, Focus::Unfocused), (3u64, Focus::Focused(None))];
    remove_focus_from_non_focused_entities(&vec![], &mut elements);
    assert!(!elements[0].1.is_none());
    remove_focus_from_non_focused_entities(&vec![Some(1), Some(3)], &mut elements);
    assert!(elements[0].1.is_none());
    assert!(!elements[2].1.is_none());
    let mut focus = Focus::Unfocused;
    assert_eq!(transfer_focus_on_interaction(5, Interaction::Hovered, &mut focus), Some(5));
    assert_eq!(focus.extract_context(), Some(Interaction::Hovered));
    assert_eq!(transfer_focus_on_interaction(5, Interaction::Idle, &mut focus), None);
    assert_eq!(Focus::focused(3u8).extract_context(), Some(3));
}

#[test]
fn layer_users_follow_visibility() {
    let mut layers = ActiveInputConsumerLayers::new();
    let a = InputConsumerPriority::new(3);
    let b = InputConsumerPriority::new(6);
    handle_input_consumption_priority_change(&mut layers, false, &vec![a, a], &vec![(a, Visibility::Hidden), (b, Visibility::Visible)], &vec![]);
    assert!(layers.is_layer_active(&a));
    assert!(layers.is_layer_active(&b));
    assert!(layers.is_input_blocked_for_layer(&a));
    assert!(!layers.is_input_allowed_for_layer(&a));
    handle_input_consumption_priority_change(&mut layers, true, &vec![], &vec![], &vec![(a, Some(Visibility::Hidden)), (b, None)]);
    assert!(!layers.is_layer_active(&a));
    assert!(layers.is_layer_active(&b));
    layers.deactivate_layer(&b);
    assert!(!layers.is_layer_active(&b));
    assert_eq!(b.get_layer(), 6);
    layers.clear();
    assert!(layers.is_input_allowed_for_layer(&a));
}

#[test]
fn menu_buttons() {
    let mut focuses = vec![(1u64, Focus::Focused(Some(SceneSelector::Main))), (2u64, Focus::Unfocused)];
    let idle = handle_menu_action(Interaction::Hovered, MenuButtonAction::Quit, 9, &mut focuses, GameState::MainMenu);
    assert!(!idle.exit);
    let single = handle_menu_action(Interaction::Clicked, MenuButtonAction::SinglePlayer, 9, &mut focuses, GameState::MainMenu);
    assert_eq!(single.player_count, Some(1));
    assert_eq!(single.menu_state, Some(MenuState::SinglePlayer));
    let select = handle_menu_action(
        Interaction::Clicked,
        MenuButtonAction::SelectScene(SceneSelector::Experimental),
        2,
        &mut focuses,
        GameState::MainMenu,
    );
    assert_eq!(select.menu_state, None);
    assert!(focuses[0].1.is_none());
    let start = handle_menu_action(Interaction::Clicked, MenuButtonAction::StartGame, 9, &mut focuses, GameState::MainMenu);
    assert_eq!(start.scene, Some(SceneSelector::Experimental));
    assert_eq!(start.game_state, Some(GameState::Matchmaking));
    assert_eq!(start.menu_state, Some(MenuState::MatchmakingLobby));
    let back = handle_menu_action(Interaction::Clicked, MenuButtonAction::BackToMenu, 9, &mut focuses, GameState::InGame);
    assert_eq!(back.menu_state, Some(MenuState::Pause));
    let quit = handle_menu_action(Interaction::Clicked, MenuButtonAction::QuitToTitle, 9, &mut focuses, GameState::InGame);
    assert_eq!(quit.pause, Some(GamePauseEvent::Unpause));
    assert_eq!(quit.game_state, Some(GameState::MainMenu));
    let mut empty: Vec<(u64, Focus<SceneSelector>)> = vec![];
    let nothing = handle_menu_action(Interaction::Clicked, MenuButtonAction::StartGame, 9, &mut empty, GameState::MainMenu);
    assert_eq!(nothing.game_state, None);
}

#[test]
fn selecting_a_scene_on_a_button_without_focus_gives_it_one() {
    let mut focuses = vec![(1u64, Focus::Focused(Some(SceneSelector::Main)))];
    handle_menu_action(
        Interaction::Clicked,
        MenuButtonAction::SelectScene(SceneSelector::Experimental),
        7,
        &mut focuses,
        GameState::MainMenu,
    );
    assert_eq!(focuses.len(), 2);
    assert!(focuses[0].1.is_none());
    assert_eq!(focuses[1].0, 7);
    assert!(matches!(focuses[1].1, Focus::Focused(Some(SceneSelector::Experimental))));
    let start = handle_menu_action(Interaction::Clicked, MenuButtonAction::StartGame, 7, &mut focuses, GameState::MainMenu);
    assert_eq!(start.scene, Some(SceneSelector::Experimental));
}

#[test]
fn menu_states() {
    assert_eq!(set_main_menu_state(), MenuState::Main);
    assert_eq!(disable_matchmaking_menu_state(), MenuState::Disabled);
    assert_eq!(MenuState::default(), MenuState::Disabled);
    assert_eq!(GameState::default(), GameState::MainMenu);
    assert_eq!(pause_menu(&vec![GamePauseEvent::Unpause, GamePauseEvent::Toggle]), Some(MenuState::Pause));
    assert_eq!(pause_menu(&vec![GamePauseEvent::Unpause]), None);
    assert_eq!(unpause_menu(&vec![GamePauseEvent::Unpause]), Some(MenuState::Disabled));
    assert_eq!(unpause_menu(&vec![GamePauseEvent::Pause]), None);
    assert_eq!(intercept_matchmaking_menu_state(Some(MenuState::MatchmakingLobby), Some(1)), Some(MenuState::Disabled));
    assert_eq!(
        intercept_matchmaking_menu_state(Some(MenuState::MatchmakingLobby), Some(2)),
        Some(MenuState::MatchmakingLobby)
    );
}

#[test]
fn lobby_text() {
    assert_eq!(peer_waiting_text(4, 1), ("2".to_string(), "s".to_string()));
    assert_eq!(peer_waiting_text(2, 0), ("1".to_string(), "".to_string()));
    assert_eq!(peer_waiting_text(2, 5), ("0".to_string(), "s".to_string()));
}

#[test]
fn settings_read_back_and_default_when_empty() {
    let mut settings = UserSettings::default();
    assert_eq!(settings.get(UserInputForm::PlayerName), "Player");
    assert_eq!(settings.get(UserInputForm::ServerUrl), "wss://match-0-6.helsing.studio");
    settings.set(UserInputForm::RoomName, "room".to_string());
    settings.set(UserInputForm::PlayerName, "Neo".to_string());
    assert_eq!(settings.get(UserInputForm::RoomName), "room");
    assert_eq!(settings.get(UserInputForm::PlayerName), "Neo");
    let inputs = vec![
        (TextInput::new(String::new(), None), UserInputForm::PlayerName),
        (TextInput::new("lobby".to_string(), None), UserInputForm::RoomName),
    ];
    transfer_setting_from_text_input(&mut settings, &inputs);
    assert_eq!(settings.player_name, "Player");
    assert_eq!(settings.room_name, "lobby");
}

#[test]
fn scoreboard() {
    assert!(should_show_score_display(true, MenuState::Disabled));
    assert!(should_show_score_display(false, MenuState::Pause));
    let mut boards = vec![Visibility::Hidden, Visibility::Inherited];
    handle_showing_score_display(false, true, MenuState::Disabled, &mut boards);
    assert_eq!(boards, vec![Visibility::Visible, Visibility::Inherited]);
    handle_showing_score_display(true, false, MenuState::Disabled, &mut boards);
    assert_eq!(boards[0], Visibility::Visible);
    handle_showing_score_display(false, false, MenuState::Disabled, &mut boards);
    assert_eq!(boards[0], Visibility::Hidden);
    assert_eq!(score_rows_to_add(Some(1), 3), (0, 3));
    assert_eq!(score_rows_to_add(Some(4), 3), (3, 3));
    assert_eq!(score_rows_to_add(None, 2), (0, 2));
    let mut p = PlayerData::from_team(1).with_name("A".to_string());
    p.kills = 12;
    assert_eq!(score_row_texts(&p), ("A".to_string(), "12".to_string(), "0".to_string()));
}

#[test]
fn gun_displays() {
    let plan = plan_gun_displays(3, 1);
    assert_eq!((plan.updated, plan.displays, plan.spawn_to), (1, 3, 3));
    let plan = plan_gun_displays(1, 4);
    assert_eq!((plan.updated, plan.spawn_to), (1, 4));
    let regular = Gun::new(GunPreset::Regular, EntropyGenerator::new(0));
    assert_eq!(max_ammo_text(&regular), "\u{221e}");
    assert_eq!(ammo_text(&regular), "\u{221e}");
    let imprecise = Gun::new(GunPreset::Imprecise, EntropyGenerator::new(0));
    assert_eq!(max_ammo_text(&imprecise), "15");
    assert_eq!(ammo_text(&imprecise), "15");
}

#[test]
fn button_colors() {
    let map = ColorInteractionMap::new(&vec![
        (Interaction::Idle, Some(10)),
        (Interaction::Hovered, Some(20)),
        (Interaction::Clicked, Some(30)),
        (Interaction::Hovered, Some(25)),
    ]);
    assert_eq!(map.get(Interaction::Hovered), Some(25));
    assert!(map.has_color(10) && !map.has_color(20));
    assert_eq!(distill_color(Interaction::Clicked, 10, Some(map)), 30);
    assert_eq!(distill_color(Interaction::Clicked, 99, Some(map)), 99);
    assert_eq!(distill_color(Interaction::Clicked, 10, None), 10);
    assert_eq!(resolve_interaction(Interaction::Idle, Some(Focus::Focused(Some(Interaction::Clicked))), None), Interaction::Clicked);
    assert_eq!(resolve_interaction(Interaction::Idle, None, Some(Focus::Focused(None))), Interaction::Hovered);
    assert_eq!(resolve_interaction(Interaction::Idle, Some(Focus::Unfocused), Some(Focus::Unfocused)), Interaction::Idle);
}

#[test]
fn inherited_colors() {
    assert_eq!(InheritedColor::Own(5).try_resolve(None), Ok(5));
    assert_eq!(InheritedColor::Inherit.try_resolve(Some(7)), Ok(7));
    assert_eq!(
        InheritedColor::Inherit.try_resolve(None),
        Err("Did not provide parent color, while the inherited color does not have its Own.")
    );
    assert_eq!(InheritedColor::Inherit.resolve(3), 3);
    assert_eq!(InheritedColor::Own(4).resolve(3), 4);
}
