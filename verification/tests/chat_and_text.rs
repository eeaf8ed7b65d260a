use spaceball::chat::{
    chat_input_layer, chat_open_input_layer, handle_chat_message_fadeout, handle_chat_opening, handle_chat_sending, plan_chat_slots, render_chat_sections, split_on_braces, trim_end,
    ChatFadeout, ChatIsFading, ChatMessage, ChatSectionKind, ChatSlot, DURATION_BEFORE_FADEOUT, MAX_CHAT_MESSAGES,
};
use spaceball::focus::{Focus, Interaction};
use spaceball::peers::PeerMessage;
use spaceball::players::{PlayerData, PlayerRegistry};
use spaceball::text_input::{
    displayed_placeholder, handle_text_input, handle_text_paste, PasteOutcome, handle_text_input_new_focus, KeyPressTimeout, KeyState, TextInput,
    TextInputKeys, KEY_PRESS_INITIAL_TIMEOUT, KEY_PRESS_TIMEOUT,
};
use spaceball::input_consumption::{ActiveInputConsumerLayers, InputConsumerPriority};

fn text(input: &TextInput) -> String {
    input.text.iter().collect()
}

#[test]
fn message_said_by_player() {
    let m = ChatMessage::message("hi".to_string()).by_player(3);
    assert_eq!(m.message, "{0}: hi");
    assert_eq!(m.player_handles, vec![3]);
    let n = ChatMessage::message("yo".to_string()).said_by("Ann".to_string());
    assert_eq!(n.message, "Ann: yo");
    assert!(n.player_handles.is_empty());
}

#[test]
fn separate_handles_puts_in_players() {
    let m = ChatMessage { message: "{0} killed {1}!".to_string(), player_handles: vec![4, 2] };
    assert_eq!(m.separate_handles(), vec!["", "4", " killed ", "2", "!"]);
    let you = ChatMessage { message: "{You}: hey".to_string(), player_handles: vec![] };
    assert_eq!(you.separate_handles(), vec!["", "You", ": hey"]);
    let missing = ChatMessage { message: "{5} waves".to_string(), player_handles: vec![1] };
    assert_eq!(missing.separate_handles(), vec!["", "", " waves"]);
    let none = ChatMessage { message: "{2} died!".to_string(), player_handles: vec![] };
    assert_eq!(none.separate_handles(), vec!["", "", " died!"]);
    let odd = ChatMessage { message: "a{b}c".to_string(), player_handles: vec![] };
    assert_eq!(odd.separate_handles(), vec!["a", "{b}", "c"]);
}

#[test]
fn split_on_braces_keeps_empty_pieces() {
    let chars: Vec<char> = "{}x".chars().collect();
    let pieces = split_on_braces(&chars);
    assert_eq!(pieces, vec![vec![], vec![], vec!['x']]);
}

#[test]
fn render_sections_names_players() {
    let mut players = PlayerRegistry::default();
    players.0.push(PlayerData::from_team(0).with_name("Zed".to_string()));
    let m = ChatMessage { message: "{0} killed {You}! {9}".to_string(), player_handles: vec![0, 7] };
    let sections = render_chat_sections(&m, &players);
    let kinds: Vec<ChatSectionKind> = sections.iter().map(|s| s.kind).collect();
    let texts: Vec<String> = sections.iter().map(|s| s.text.clone()).collect();
    // the handle `{9}` is missing: its place is kept and shown as an unknown player
    assert_eq!(texts, vec!["", "Zed", " killed ", "You", "! ", "[unknown]", ""]);
    assert_eq!(kinds[1], ChatSectionKind::Name);
    assert_eq!(kinds[3], ChatSectionKind::You);
    assert_eq!(kinds[2], ChatSectionKind::Text);
    let unknown = ChatMessage { message: "{1} hi".to_string(), player_handles: vec![0, 5] };
    let sections = render_chat_sections(&unknown, &players);
    assert_eq!(sections[1].text, "[unknown]");
}

#[test]
fn chat_slots_reuse_oldest_when_full() {
    assert_eq!(plan_chat_slots(None, 2), vec![ChatSlot::Spawn, ChatSlot::Spawn]);
    assert_eq!(plan_chat_slots(Some(3), 1), vec![ChatSlot::Spawn]);
    assert_eq!(plan_chat_slots(Some(15), 3), vec![ChatSlot::Spawn, ChatSlot::Reuse(0), ChatSlot::Reuse(1)]);
    let from_empty = plan_chat_slots(None, 18);
    assert_eq!(from_empty.iter().filter(|s| **s == ChatSlot::Spawn).count(), MAX_CHAT_MESSAGES);
    assert_eq!(from_empty[16], ChatSlot::Reuse(0));
    assert_eq!(from_empty[17], ChatSlot::Reuse(1));
    assert_eq!(
        plan_chat_slots(Some(MAX_CHAT_MESSAGES), 3),
        vec![ChatSlot::Reuse(0), ChatSlot::Reuse(1), ChatSlot::Reuse(2)]
    );
}

#[test]
fn trim_end_strips_unicode_white_space() {
    for s in ["hello  ", "hi\t\n", "a\u{3000}", "  ", "", "x y", "b\u{a0}\u{2003}"] {
        assert_eq!(trim_end(s), s.trim_end(), "{:?}", s);
    }
}

#[test]
fn sending_chat_trims_and_resets() {
    let mut input = TextInput::new("hello  ".to_string(), None);
    let mut focus: Focus<TextInput> = Focus::Focused(None);
    let mut fading = ChatIsFading { is_fading: false };
    let out = handle_chat_sending(true, true, false, &mut input, &mut focus, &mut fading);
    assert!(out.closed);
    let (shown, sent) = out.sent.expect("a message is sent");
    assert_eq!(shown.message, "{You}: hello");
    match sent {
        PeerMessage::Chat { message } => assert_eq!(message, "hello"),
        _ => panic!("expected a chat message"),
    }
    assert!(input.text.is_empty());
    assert_eq!(input.cursor_position, 0);
    assert!(focus.is_none());
    assert!(fading.is_fading);
}

#[test]
fn escape_closes_chat_without_sending() {
    let mut input = TextInput::new("draft".to_string(), None);
    let mut focus: Focus<TextInput> = Focus::Focused(None);
    let mut fading = ChatIsFading { is_fading: false };
    let out = handle_chat_sending(true, false, true, &mut input, &mut focus, &mut fading);
    assert!(out.closed && out.sent.is_none());
    assert_eq!(text(&input), "draft");
    let idle = handle_chat_sending(false, true, false, &mut input, &mut focus, &mut fading);
    assert!(!idle.closed);
}

#[test]
fn opening_chat_restarts_fadeouts() {
    let mut focus: Focus<TextInput> = Focus::Unfocused;
    let mut fading = ChatIsFading { is_fading: true };
    let mut f = ChatFadeout::new();
    f.timer.tick(DURATION_BEFORE_FADEOUT);
    f.timer.pause();
    let mut fadeouts = vec![f];
    assert!(!handle_chat_opening(true, true, &mut focus, &mut fading, &mut fadeouts));
    assert!(handle_chat_opening(false, true, &mut focus, &mut fading, &mut fadeouts));
    assert!(!fading.is_fading);
    assert!(!fadeouts[0].timer.finished() && !fadeouts[0].timer.paused());
    assert!(matches!(focus, Focus::Focused(None)));
    fading.set_to_fade();
    assert!(fading.is_fading);
}

#[test]
fn text_input_editing() {
    let mut input = TextInput::new("abc".to_string(), Some("type".to_string()));
    assert_eq!(input.cursor_position, 3);
    input.shift_cursor_left(1);
    assert!(input.insert('X'));
    assert_eq!(text(&input), "abXc");
    assert_eq!(input.delete(2), "bX");
    assert_eq!(text(&input), "ac");
    assert_eq!(input.cursor_position, 1);
    assert_eq!(input.delete(-5), "c");
    assert_eq!(input.reset_text(), "a");
    assert_eq!(displayed_placeholder(&input), "type");
    let limited = TextInput::default().with_max_symbols(2);
    let mut limited = limited;
    // a partial insertion counts as a failure, though the symbols that fit are put in
    assert!(!limited.insert_string("hello"));
    assert_eq!(text(&limited), "he");
    let mut roomy = TextInput::default();
    assert!(roomy.insert_string("hey"));
    assert!(!roomy.insert_string(""));
    assert_eq!(roomy.cursor_position, 3);
    assert!(!limited.insert('x'));
    assert!(!limited.insert_string("more"));
}

#[test]
fn delete_at_start_does_nothing_backwards() {
    let mut input = TextInput::new("ab".to_string(), None).with_cursor_position(0);
    assert_eq!(input.delete(1), "");
    assert_eq!(text(&input), "ab");
    input.shift_cursor_right(10);
    assert_eq!(input.cursor_position, 2);
}

#[test]
fn typed_chars_filtering() {
    let input = TextInput::default();
    assert!(input.accepts_typed_char('a'));
    assert!(input.accepts_typed_char(' '));
    assert!(!input.accepts_typed_char('\n'));
    assert!(!input.accepts_typed_char('é'));
    assert!(input.with_line_breaks_allowed(true).accepts_typed_char('\n'));
}

fn idle_key() -> KeyState {
    KeyState { just_pressed: false, pressed: false, just_released: false }
}

fn no_keys() -> TextInputKeys {
    TextInputKeys {
        left: idle_key(),
        right: idle_key(),
        back: idle_key(),
        delete: idle_key(),
        control: false,
        c_just_pressed: false,
        x_just_pressed: false,
        v: idle_key(),
    }
}

#[test]
fn text_input_frame_types_and_edits() {
    let layers = ActiveInputConsumerLayers::new();
    let mut input = TextInput::new("ab".to_string(), None);
    let mut handler = KeyPressTimeout::default();
    let frame = handle_text_input(&mut input, true, None, &layers, &mut handler, &no_keys(), 1, &vec!['c', '\n'], &String::new());
    assert!(frame.typed_consumed);
    assert_eq!(text(&input), "abc");
    let mut keys = no_keys();
    keys.back = KeyState { just_pressed: true, pressed: true, just_released: false };
    let frame = handle_text_input(&mut input, true, None, &layers, &mut handler, &keys, 1, &vec!['z'], &String::new());
    assert!(!frame.typed_consumed);
    assert_eq!(text(&input), "ab");
    assert_eq!(handler.timer.duration(), KEY_PRESS_INITIAL_TIMEOUT);
    let mut copy = no_keys();
    copy.control = true;
    copy.c_just_pressed = true;
    copy.v = KeyState { just_pressed: true, pressed: true, just_released: false };
    let frame = handle_text_input(&mut input, true, None, &layers, &mut handler, &copy, 1, &vec![], &"XY".to_string());
    assert_eq!(frame.copied, vec!["ab".to_string()]);
    assert_eq!(text(&input), "abXY");
    let mut cut = no_keys();
    cut.control = true;
    cut.x_just_pressed = true;
    let frame = handle_text_input(&mut input, true, None, &layers, &mut handler, &cut, 1, &vec![], &String::new());
    assert_eq!(frame.copied, vec!["abXY".to_string()]);
    assert!(input.text.is_empty());
    assert!(KEY_PRESS_TIMEOUT < KEY_PRESS_INITIAL_TIMEOUT);
}

#[test]
fn unfocused_or_blocked_input_ignores_keys() {
    let mut layers = ActiveInputConsumerLayers::new();
    let mut input = TextInput::new("ab".to_string(), None);
    let mut handler = KeyPressTimeout::default();
    let frame = handle_text_input(&mut input, false, None, &layers, &mut handler, &no_keys(), 1, &vec!['c'], &String::new());
    assert!(!frame.typed_consumed);
    assert_eq!(text(&input), "ab");
    let low = InputConsumerPriority::new(2);
    layers.activate_layer(&low);
    layers.activate_layer(&InputConsumerPriority::new(5));
    let frame = handle_text_input(&mut input, true, Some(low), &layers, &mut handler, &no_keys(), 1, &vec!['c'], &String::new());
    assert!(!frame.typed_consumed);
    assert_eq!(text(&input), "ab");
}

#[test]
fn held_key_repeats_after_delay() {
    let mut handler = KeyPressTimeout::default();
    let down = KeyState { just_pressed: true, pressed: true, just_released: false };
    let held = KeyState { just_pressed: false, pressed: true, just_released: false };
    assert!(handler.press_with_timeout(down, 0));
    assert!(!handler.press_with_timeout(held, KEY_PRESS_INITIAL_TIMEOUT - 1));
    assert!(handler.press_with_timeout(held, 1));
    assert_eq!(handler.timer.duration(), KEY_PRESS_TIMEOUT);
    assert!(handler.press_with_timeout(held, KEY_PRESS_TIMEOUT));
}

#[test]
fn clicking_text_input_focuses_it() {
    let mut focus: Focus<TextInput> = Focus::Unfocused;
    assert_eq!(handle_text_input_new_focus(4, Interaction::Hovered, &mut focus), None);
    assert!(focus.is_none());
    assert_eq!(handle_text_input_new_focus(4, Interaction::Clicked, &mut focus), Some(4));
    assert!(!focus.is_none());
}

#[test]
fn chat_lines_dim_after_countdown() {
    let mut fadeouts = vec![ChatFadeout::new(), ChatFadeout::new()];
    let fading = ChatIsFading { is_fading: true };
    let dims = handle_chat_message_fadeout(&mut fadeouts, &vec![false, true], &fading, DURATION_BEFORE_FADEOUT - 1);
    assert_eq!(dims, vec![false, false]);
    let dims = handle_chat_message_fadeout(&mut fadeouts, &vec![false, true], &fading, 1);
    assert_eq!(dims, vec![true, false]);
    assert!(fadeouts[1].timer.finished());
    let still = ChatIsFading { is_fading: false };
    let dims = handle_chat_message_fadeout(&mut fadeouts, &vec![false, false], &still, 1);
    assert_eq!(dims, vec![false, false]);
}

#[test]
fn chat_input_layers() {
    assert_eq!(chat_input_layer().get_layer(), 7);
    assert_eq!(chat_open_input_layer().get_layer(), 6);
}

#[test]
fn backspace_undoes_typing() {
    let mut input = TextInput::new("hello".to_string(), None).with_cursor_position(2);
    assert!(input.insert('X'));
    input.delete(1);
    assert_eq!(text(&input), "hello");
    assert_eq!(input.cursor_position, 2);
}

#[test]
fn message_said_by_player_shows_handle() {
    let m = ChatMessage::message("good game".to_string()).by_player(12);
    assert_eq!(m.separate_handles(), vec!["", "12", ": good game"]);
}

#[test]
fn pasting_from_the_clipboard() {
    let mut input = TextInput::new("ab".to_string(), None);
    assert!(matches!(handle_text_paste(&mut input, Ok(None)), PasteOutcome::Pending));
    match handle_text_paste(&mut input, Err(None)) {
        PasteOutcome::Failed(m) => assert_eq!(m, "Failed to convert JS error message on pasting."),
        _ => panic!("expected a failure"),
    }
    match handle_text_paste(&mut input, Err(Some("denied".to_string()))) {
        PasteOutcome::Failed(m) => assert_eq!(m, "denied"),
        _ => panic!("expected a failure"),
    }
    assert!(matches!(handle_text_paste(&mut input, Ok(Some("cd".to_string()))), PasteOutcome::Done));
    assert_eq!(text(&input), "abcd");
    assert!(matches!(handle_text_paste(&mut input, Ok(Some(String::new()))), PasteOutcome::Done));
    assert_eq!(text(&input), "abcd");
}

#[test]
fn reinserting_deleted_text_restores_the_input() {
    let mut input = TextInput::new("spaceball".to_string(), None).with_cursor_position(5);
    let removed = input.delete(3);
    assert_eq!(removed, "ace");
    assert_eq!(text(&input), "spball");
    assert_eq!(input.cursor_position, 2);
    assert!(input.insert_string(&removed));
    assert_eq!(text(&input), "spaceball");
    assert_eq!(input.cursor_position, 5);

    let mut at_start = TextInput::new("abc".to_string(), None).with_cursor_position(0);
    let nothing = at_start.delete(2);
    assert_eq!(nothing, "");
    assert!(!at_start.insert_string(&nothing));
    assert_eq!(text(&at_start), "abc");
    assert_eq!(at_start.cursor_position, 0);
}
