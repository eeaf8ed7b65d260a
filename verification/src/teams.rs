use vstd::prelude::*;

verus! {

/// Number of teams is limited by 256.
pub type TeamNumber = u8;

/// Handle of a player in an online session (an index into the player registry).
pub type PlayerHandle = usize;

/// The team number the player is created with.
pub const PLAYER_DEFAULT_TEAM: TeamNumber = 1;
/// The default team number of the AI enemies.
pub const AI_DEFAULT_TEAM: TeamNumber = 9;

/// Named colors the teams are painted with.
#[derive(Clone, Copy, Debug, PartialEq, Eq, Structural)]
pub enum TeamColor {
    Cyan,
    Crimson,
    LimeGreen,
    Gold,
    Purple,
    SeaGreen,
    OrangeRed,
    Orchid,
    Silver,
}

/// Marker holding the character's (or anything's) allegiance.
#[derive(Clone, Copy, Debug, PartialEq, Eq, Structural)]
pub struct Team(pub TeamNumber);

/// The team a player's handle maps to: the default player team shifted by the handle
/// (the handle taken modulo 256, as a team number).
pub open spec fn team_of_handle(player_handle: PlayerHandle) -> TeamNumber {
    (PLAYER_DEFAULT_TEAM + (player_handle % 256)) as TeamNumber
}

/// The color of a team, where the team has one.
pub open spec fn spec_team_color(team: TeamNumber) -> Option<TeamColor> {
    if team == 1 {
        Some(TeamColor::Cyan)
    } else if team == 2 {
        Some(TeamColor::Crimson)
    } else if team == 3 {
        Some(TeamColor::LimeGreen)
    } else if team == 4 {
        Some(TeamColor::Gold)
    } else if team == 5 {
        Some(TeamColor::Purple)
    } else if team == 6 {
        Some(TeamColor::SeaGreen)
    } else if team == 7 {
        Some(TeamColor::OrangeRed)
    } else if team == 8 {
        Some(TeamColor::Orchid)
    } else if team == 9 {
        Some(TeamColor::Silver)
    } else {
        None
    }
}

impl Default for Team {
    fn default() -> (team: Self)
        ensures
            team.0 == 0,
    {
        Team(0)
    }
}

impl Team {
    /// The team of a player: the default player team shifted by the player's handle.
    pub fn from_player_handle(player_handle: PlayerHandle) -> (team: Self)
        requires
            player_handle % 256 < 255,
        ensures
            team.0 == team_of_handle(player_handle),
            team.0 == PLAYER_DEFAULT_TEAM + player_handle % 256,
    {
        let truncated: u8 = (player_handle % 256) as u8;
        Team(PLAYER_DEFAULT_TEAM + truncated)
    }

    /// Get the color associated with the team.
    pub fn color(&self) -> (color: TeamColor)
        requires
            1 <= self.0 <= 9,
        ensures
            Some(color) == spec_team_color(self.0),
    {
        team_color(self.0)
    }

    /// Get the color associated with the team, if there is one.
    pub fn safe_color(&self) -> (color: Option<TeamColor>)
        ensures
            color == spec_team_color(self.0),
    {
        safe_team_color(self.0)
    }
}

/// Get the color associated with the team, if there is one.
pub fn safe_team_color(team: TeamNumber) -> (color: Option<TeamColor>)
    ensures
        color == spec_team_color(team),
        color is Some <==> 1 <= team <= 9,
{
    match team {
        1 => Some(TeamColor::Cyan),
        2 => Some(TeamColor::Crimson),
        3 => Some(TeamColor::LimeGreen),
        4 => Some(TeamColor::Gold),
        5 => Some(TeamColor::Purple),
        6 => Some(TeamColor::SeaGreen),
        7 => Some(TeamColor::OrangeRed),
        8 => Some(TeamColor::Orchid),
        9 => Some(TeamColor::Silver),
        _ => None,
    }
}

/// Get the color associated with the team; the team must be one of those that have a color.
pub fn team_color(team: TeamNumber) -> (color: TeamColor)
    requires
        1 <= team <= 9,
    ensures
        Some(color) == spec_team_color(team),
{
    match safe_team_color(team) {
        Some(color) => color,
        None => TeamColor::Cyan,
    }
}

/// The team colors: team 1 is cyan, 2 crimson, 3 lime green, 4 gold, 5 purple, 6 sea green,
/// 7 orange red, 8 orchid and 9 silver; no other team has a color. Distinct teams have
/// distinct colors.
pub proof fn lemma_team_color_table(team: TeamNumber, other: TeamNumber)
    ensures
        spec_team_color(1) == Some(TeamColor::Cyan),
        spec_team_color(2) == Some(TeamColor::Crimson),
        spec_team_color(3) == Some(TeamColor::LimeGreen),
        spec_team_color(4) == Some(TeamColor::Gold),
        spec_team_color(5) == Some(TeamColor::Purple),
        spec_team_color(6) == Some(TeamColor::SeaGreen),
        spec_team_color(7) == Some(TeamColor::OrangeRed),
        spec_team_color(8) == Some(TeamColor::Orchid),
        spec_team_color(9) == Some(TeamColor::Silver),
        spec_team_color(team) is None <==> (team == 0 || team > 9),
        spec_team_color(team) is Some && team != other ==> spec_team_color(team) != spec_team_color(other),
{
}

/// Distinct player handles (below 255) belong to distinct teams, none of them the AI's
/// default team unless the handle is 8.
pub proof fn lemma_handles_have_distinct_teams(a: PlayerHandle, b: PlayerHandle)
    requires
        a < 255,
        b < 255,
    ensures
        a != b ==> team_of_handle(a) != team_of_handle(b),
        team_of_handle(a) == AI_DEFAULT_TEAM <==> a == 8,
{
}

} // verus!
