//! Game rules of the Cosmic Spaceball Tactical Action Arena: teams, timers, guns,
//! spawning, players, chat, menus and input handling, stated and proved with Verus.

pub mod teams;
pub mod timer;
pub mod entropy;
pub mod guns;
pub mod input_consumption;
pub mod strings;
pub mod text_input;
pub mod chat;
pub mod players;
pub mod peers;
pub mod focus;
pub mod scenes;
pub mod session;
pub mod controls;
pub mod menu;
pub mod physics;
pub mod characters;
pub mod score;
pub mod color_interaction;
