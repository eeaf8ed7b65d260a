use vstd::prelude::*;
use crate::focus::{Focus, Interaction};
use crate::scenes::SceneSelector;

verus! {

/// A color, packed as red, green, blue and alpha bytes from the most significant byte down.
pub type PackedColor = u32;

/// The colors an element takes for each interaction with it; `None` means the element does not
/// react to that interaction.
#[derive(Clone, Copy, Debug, PartialEq, Eq, Structural)]
pub struct ColorInteractionMap {
    pub default: Option<PackedColor>,
    pub selected: Option<PackedColor>,
    pub clicked: Option<PackedColor>,
}

/// The map after the given interactions and colors, in order (a later entry for the same
/// interaction wins).
pub open spec fn map_from(states: Seq<(Interaction, Option<PackedColor>)>) -> ColorInteractionMap
    decreases states.len(),
{
    if states.len() == 0 {
        ColorInteractionMap { default: None, selected: None, clicked: None }
    } else {
        let before = map_from(states.drop_last());
        let (interaction, color) = states.last();
        match interaction {
            Interaction::Idle => ColorInteractionMap { default: color, ..before },
            Interaction::Hovered => ColorInteractionMap { selected: color, ..before },
            Interaction::Clicked => ColorInteractionMap { clicked: color, ..before },
        }
    }
}

impl ColorInteractionMap {
    /// The map of the given interactions and colors (see [`map_from`]).
    pub fn new(states: &Vec<(Interaction, Option<PackedColor>)>) -> (map: Self)
        ensures
            map == map_from(states@),
    {
        let mut map = ColorInteractionMap { default: None, selected: None, clicked: None };
        let mut i: usize = 0;
        while i < states.len()
            invariant
                i <= states@.len(),
                map == map_from(states@.subrange(0, i as int)),
            decreases states@.len() - i,
        {
            proof {
                assert(states@.subrange(0, i + 1).drop_last() =~= states@.subrange(0, i as int));
            }
            let (interaction, color) = states[i];
            match interaction {
                Interaction::Idle => map.default = color,
                Interaction::Hovered => map.selected = color,
                Interaction::Clicked => map.clicked = color,
            }
            i = i + 1;
        }
        proof {
            assert(states@.subrange(0, states@.len() as int) =~= states@);
        }
        map
    }

    /// The color of an interaction.
    pub open spec fn color_of(self, state: Interaction) -> Option<PackedColor> {
        match state {
            Interaction::Idle => self.default,
            Interaction::Hovered => self.selected,
            Interaction::Clicked => self.clicked,
        }
    }

    /// The color of an interaction.
    pub fn get(&self, state: Interaction) -> (color: Option<PackedColor>)
        ensures
            color == self.color_of(state),
    {
        match state {
            Interaction::Idle => self.default,
            Interaction::Hovered => self.selected,
            Interaction::Clicked => self.clicked,
        }
    }

    /// Whether any of the map's colors is `color`.
    pub fn has_color(&self, color: PackedColor) -> (has: bool)
        ensures
            has <==> self.default == Some(color) || self.selected == Some(color) || self.clicked == Some(color),
    {
        self.default == Some(color) || self.selected == Some(color) || self.clicked == Some(color)
    }
}

/// The interaction an element is painted for: clicked if it is clicked or focused by a click;
/// else hovered if it is hovered, focused by hovering, or focused as a scene; else idle.
pub open spec fn spec_resolve_interaction(
    interaction: Interaction,
    interaction_focus: Option<Focus<Interaction>>,
    scene_focus: Option<Focus<SceneSelector>>,
) -> Interaction {
    if interaction == Interaction::Clicked || interaction_focus == Some(Focus::Focused(Some(Interaction::Clicked))) {
        Interaction::Clicked
    } else if interaction == Interaction::Hovered || interaction_focus == Some(
        Focus::Focused(Some(Interaction::Hovered)),
    ) || scene_focus matches Some(Focus::Focused(_)) {
        Interaction::Hovered
    } else {
        Interaction::Idle
    }
}

/// The interaction an element is painted for (see [`spec_resolve_interaction`]).
pub fn resolve_interaction(
    interaction: Interaction,
    interaction_focus: Option<Focus<Interaction>>,
    scene_focus: Option<Focus<SceneSelector>>,
) -> (resolved: Interaction)
    ensures
        resolved == spec_resolve_interaction(interaction, interaction_focus, scene_focus),
{
    let focus_clicked = match interaction_focus {
        Some(Focus::Focused(Some(Interaction::Clicked))) => true,
        _ => false,
    };
    let focus_hovered = match interaction_focus {
        Some(Focus::Focused(Some(Interaction::Hovered))) => true,
        _ => false,
    };
    let scene_focused = match scene_focus {
        Some(Focus::Focused(_)) => true,
        _ => false,
    };
    if interaction == Interaction::Clicked || focus_clicked {
        Interaction::Clicked
    } else if interaction == Interaction::Hovered || focus_hovered || scene_focused {
        Interaction::Hovered
    } else {
        Interaction::Idle
    }
}

/// The color a painted part takes for an interaction: without a map it keeps its color; with
/// one, it takes the map's color for the interaction, but only if the map has a color for it
/// and the part's present color is one of the map's (a part painted otherwise is left alone).
pub fn distill_color(interaction: Interaction, present: PackedColor, map: Option<ColorInteractionMap>) -> (color: PackedColor)
    ensures
        color == match map {
            Some(m) => match m.color_of(interaction) {
                Some(c) => if m.default == Some(present) || m.selected == Some(present) || m.clicked == Some(
                    present,
                ) {
                    c
                } else {
                    present
                },
                None => present,
            },
            None => present,
        },
{
    match map {
        Some(m) => match m.get(interaction) {
            Some(c) => if m.has_color(present) {
                c
            } else {
                present
            },
            None => present,
        },
        None => present,
    }
}

/// A color of its own, or the color of the parent element.
#[derive(Clone, Copy, Debug, PartialEq, Eq, Structural)]
pub enum InheritedColor {
    Inherit,
    Own(PackedColor),
}

impl InheritedColor {
    /// The color: its own, or the parent's; an inherited color without a parent color is an
    /// error.
    pub fn try_resolve(&self, parent_color: Option<PackedColor>) -> (color: Result<PackedColor, &'static str>)
        ensures
            match *self {
                InheritedColor::Own(c) => color == Ok::<PackedColor, &'static str>(c),
                InheritedColor::Inherit => match parent_color {
                    Some(p) => color == Ok::<PackedColor, &'static str>(p),
                    None => color matches Err(m) && m@
                        == "Did not provide parent color, while the inherited color does not have its Own."@,
                },
            },
    {
        match self {
            InheritedColor::Own(color) => Ok(*color),
            InheritedColor::Inherit => match parent_color {
                Some(p) => Ok(p),
                None => Err("Did not provide parent color, while the inherited color does not have its Own."),
            },
        }
    }

    /// The color: its own, or the parent's.
    pub fn resolve(&self, parent_color: PackedColor) -> (color: PackedColor)
        ensures
            color == match *self {
                InheritedColor::Own(c) => c,
                InheritedColor::Inherit => parent_color,
            },
    {
        match self {
            InheritedColor::Own(color) => *color,
            InheritedColor::Inherit => parent_color,
        }
    }
}

} // verus!
