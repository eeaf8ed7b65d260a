use vstd::prelude::*;
use vstd::string::*;
use crate::guns::{Gun, preset_stats};
use crate::input_consumption::Visibility;
use crate::menu::MenuState;
use crate::players::PlayerData;
use crate::strings::{decimal, usize_to_decimal};

verus! {

/// Whether the scoreboard is shown: while Tab is held, or in the pause menu.
pub fn should_show_score_display(tab_pressed: bool, menu_state: MenuState) -> (show: bool)
    ensures
        show <==> tab_pressed || menu_state == MenuState::Pause,
{
    tab_pressed || menu_state == MenuState::Pause
}

/// The visibility of the scoreboard after a frame: unless input to its layer is blocked, a
/// hidden board is shown when it should be and a visible one hidden when it should not be.
pub open spec fn board_visibility(visibility: Visibility, blocked: bool, show: bool) -> Visibility {
    if blocked {
        visibility
    } else if visibility == Visibility::Hidden && show {
        Visibility::Visible
    } else if visibility == Visibility::Visible && !show {
        Visibility::Hidden
    } else {
        visibility
    }
}

/// Shows or hides the scoreboards (see [`board_visibility`]).
pub fn handle_showing_score_display(
    blocked: bool,
    tab_pressed: bool,
    menu_state: MenuState,
    boards: &mut Vec<Visibility>,
)
    ensures
        final(boards)@.len() == old(boards)@.len(),
        forall|i: int| 0 <= i < old(boards)@.len() ==> #[trigger] final(boards)@[i] == board_visibility(
            old(boards)@[i],
            blocked,
            tab_pressed || menu_state == MenuState::Pause,
        ),
{
    if blocked {
        return;
    }
    let show = should_show_score_display(tab_pressed, menu_state);
    let ghost start = boards@;
    let mut i: usize = 0;
    while i < boards.len()
        invariant
            !blocked,
            show <==> tab_pressed || menu_state == MenuState::Pause,
            i <= boards@.len() == start.len(),
            forall|j: int| i <= j < start.len() ==> #[trigger] boards@[j] == start[j],
            forall|j: int| 0 <= j < i ==> #[trigger] boards@[j] == board_visibility(start[j], blocked, show),
        decreases start.len() - i,
    {
        let v = boards[i];
        if v == Visibility::Hidden && show {
            boards.set(i, Visibility::Visible);
        } else if v == Visibility::Visible && !show {
            boards.set(i, Visibility::Hidden);
        }
        i = i + 1;
    }
}

/// The texts of a player's row on the scoreboard: name, kills and deaths.
pub fn score_row_texts(player: &PlayerData) -> (texts: (String, String, String))
    ensures
        texts.0@ == player.name@,
        texts.1@ == decimal(player.kills as nat),
        texts.2@ == decimal(player.deaths as nat),
{
    (player.name.clone(), usize_to_decimal(player.kills), usize_to_decimal(player.deaths))
}

/// The players that get a new row on the scoreboard, as a range of handles: the board has a
/// header row and a row for each player it already shows (none without rows at all), and the
/// players past those get new rows.
pub fn score_rows_to_add(board_rows: Option<usize>, players: usize) -> (range: (usize, usize))
    requires
        board_rows matches Some(n) ==> n >= 1,
    ensures
        range.0 == match board_rows {
            Some(n) => n - 1,
            None => 0,
        },
        range.1 == if range.0 < players { players } else { range.0 },
{
    let shown: usize = match board_rows {
        Some(n) => n - 1,
        None => 0,
    };
    if shown < players {
        (shown, players)
    } else {
        (shown, shown)
    }
}

/// How the gun displays of the local character change when its guns change.
#[derive(Clone, Copy, Debug, PartialEq, Eq, Structural)]
pub struct GunDisplayPlan {
    /// The displays `0..updated` show the guns at the same positions.
    pub updated: usize,
    /// The displays from `updated` on, up to the number of displays, are hidden.
    pub displays: usize,
    /// New displays are made for the guns in `displays..spawn_to`.
    pub spawn_to: usize,
}

/// Pairs the gun displays with the guns: as many as both have are updated, the remaining
/// displays hidden, and displays made for the remaining guns.
pub fn plan_gun_displays(displays: usize, guns: usize) -> (plan: GunDisplayPlan)
    ensures
        plan.updated == if displays < guns { displays } else { guns },
        plan.displays == displays,
        plan.spawn_to == if guns > displays { guns } else { displays },
{
    let updated = if displays < guns { displays } else { guns };
    let spawn_to = if guns > displays { guns } else { displays };
    GunDisplayPlan { updated, displays, spawn_to }
}

/// The infinity sign, shown for guns that never reload.
pub open spec fn infinity() -> Seq<char> {
    seq!['\u{221e}']
}

/// The magazine size of a gun as shown: its preset's magazine, or the infinity sign for guns
/// that never reload.
pub fn max_ammo_text(gun: &Gun) -> (text: String)
    ensures
        text@ == if preset_stats(gun.preset).shots_before_reload == 0 {
            infinity()
        } else {
            decimal(preset_stats(gun.preset).shots_before_reload as nat)
        },
{
    let stats = gun.preset.stats();
    if stats.shots_before_reload == 0 {
        let sign = String::from_str("\u{221e}");
        proof {
            reveal_strlit("\u{221e}");
        }
        sign
    } else {
        usize_to_decimal(stats.shots_before_reload as usize)
    }
}

/// The shots left in a gun as shown: its magazine's count, or the infinity sign for guns that
/// never reload.
pub fn ammo_text(gun: &Gun) -> (text: String)
    ensures
        text@ == if preset_stats(gun.preset).shots_before_reload == 0 {
            infinity()
        } else {
            decimal(gun.shots_before_reload as nat)
        },
{
    let stats = gun.preset.stats();
    if stats.shots_before_reload == 0 {
        let sign = String::from_str("\u{221e}");
        proof {
            reveal_strlit("\u{221e}");
        }
        sign
    } else {
        usize_to_decimal(gun.shots_before_reload as usize)
    }
}

} // verus!
