use vstd::prelude::*;

verus! {

/// How the pointer interacts with a UI element.
#[derive(Clone, Copy, Debug, PartialEq, Eq, Structural)]
pub enum Interaction {
    /// Nothing is happening.
    Idle,
    /// The pointer is over the element.
    Hovered,
    /// The element is being clicked.
    Clicked,
}

/// Identity of a UI element (an entity's bits).
pub type EntityId = u64;

/// Marks highlighted and focusable elements. Since it is generic, it allows for several
/// focuses with different contexts on one element at once.
#[derive(Clone, Copy, Debug)]
pub enum Focus<Context> {
    /// Not focused, but focusable.
    Unfocused,
    /// Focused, with some optional context.
    Focused(Option<Context>),
}

impl<Context> Focus<Context> {
    /// Returns `true` if the focus is `Unfocused` (not focused on).
    pub fn is_none(&self) -> (b: bool)
        ensures
            b <==> self is Unfocused,
    {
        match self {
            Focus::Unfocused => true,
            Focus::Focused(_) => false,
        }
    }

    /// Focused with the given context.
    pub fn focused(focus_point: Context) -> (focus: Self)
        ensures
            focus == Focus::Focused(Some(focus_point)),
    {
        Focus::Focused(Some(focus_point))
    }

    /// The contained context, if present.
    pub fn extract_context(self) -> (context: Option<Context>)
        ensures
            context == match self {
                Focus::Focused(c) => c,
                Focus::Unfocused => None,
            },
    {
        match self {
            Focus::Focused(context) => context,
            Focus::Unfocused => None,
        }
    }
}

/// The element that holds the focus after a batch of focus switches: the one named by the
/// last switch, if there was any.
pub open spec fn last_switch(switches: Seq<Option<EntityId>>) -> Option<EntityId> {
    switches.last()
}

/// After focus switches, every element but the newly focused one loses its focus. Without
/// switches nothing changes.
pub fn remove_focus_from_non_focused_entities<Context>(
    switches: &Vec<Option<EntityId>>,
    elements: &mut Vec<(EntityId, Focus<Context>)>,
)
    ensures
        final(elements)@.len() == old(elements)@.len(),
        switches@.len() == 0 ==> final(elements)@ == old(elements)@,
        switches@.len() > 0 ==> forall|i: int| 0 <= i < old(elements)@.len() ==> {
            &&& (#[trigger] final(elements)@[i]).0 == old(elements)@[i].0
            &&& if Some(old(elements)@[i].0) == last_switch(switches@) {
                final(elements)@[i].1 == old(elements)@[i].1
            } else {
                final(elements)@[i].1 is Unfocused
            }
        },
{
    if switches.len() == 0 {
        return;
    }
    let focused = switches[switches.len() - 1];
    let ghost start = elements@;
    let mut i: usize = 0;
    while i < elements.len()
        invariant
            switches@.len() > 0,
            focused == last_switch(switches@),
            i <= elements@.len() == start.len(),
            forall|j: int| i <= j < start.len() ==> #[trigger] elements@[j] == start[j],
            forall|j: int| 0 <= j < i ==> {
                &&& (#[trigger] elements@[j]).0 == start[j].0
                &&& if Some(start[j].0) == focused {
                    elements@[j].1 == start[j].1
                } else {
                    elements@[j].1 is Unfocused
                }
            },
        decreases start.len() - i,
    {
        let id = elements[i].0;
        if Some(id) != focused {
            elements.set(i, (id, Focus::Unfocused));
        }
        i = i + 1;
    }
}

/// Focus is unique: when the elements are distinct, after a switch of focus at most one of them
/// holds a focus, if only the newly focused one held one among those switched to.
pub proof fn lemma_focus_is_unique<Context>(
    before: Seq<(EntityId, Focus<Context>)>,
    after: Seq<(EntityId, Focus<Context>)>,
    switches: Seq<Option<EntityId>>,
)
    requires
        switches.len() > 0,
        forall|i: int, j: int| 0 <= i < j < before.len() ==> before[i].0 != before[j].0,
        after.len() == before.len(),
        forall|i: int| 0 <= i < before.len() ==> {
            &&& (#[trigger] after[i]).0 == before[i].0
            &&& if Some(before[i].0) == last_switch(switches) {
                after[i].1 == before[i].1
            } else {
                after[i].1 is Unfocused
            }
        },
    ensures
        forall|i: int, j: int| 0 <= i < j < after.len() && !((#[trigger] after[i]).1 is Unfocused) ==> (#[trigger] after[j]).1 is Unfocused,
{
    assert forall|i: int, j: int| 0 <= i < j < after.len() && !((#[trigger] after[i]).1 is Unfocused) implies (#[trigger] after[j]).1 is Unfocused by {
        assert(after[i].0 == before[i].0);
        assert(after[j].0 == before[j].0);
    }
}

/// A change of an element's interaction moves the pointer focus: a hovered or clicked element
/// becomes focused with that interaction and is announced as the new focus; otherwise no
/// element is announced.
pub fn transfer_focus_on_interaction(entity: EntityId, interaction: Interaction, focus: &mut Focus<Interaction>) -> (switch: Option<EntityId>)
    ensures
        (interaction == Interaction::Clicked || interaction == Interaction::Hovered) ==> {
            &&& *final(focus) == Focus::Focused(Some(interaction))
            &&& switch == Some(entity)
        },
        interaction == Interaction::Idle ==> *final(focus) == *old(focus) && switch is None,
{
    match interaction {
        Interaction::Clicked | Interaction::Hovered => {
            *focus = Focus::focused(interaction);
            Some(entity)
        },
        Interaction::Idle => None,
    }
}

} // verus!
