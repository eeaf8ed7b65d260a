use vstd::prelude::*;
use crate::focus::EntityId;
use crate::guns::GunPreset;
use crate::physics::OngoingCollisions;
use crate::players::PlayerDied;
use crate::teams::{PlayerHandle, Team};

verus! {

/// Marks a character controlled by a player, over the internet or locally.
#[derive(Clone, Copy, Debug, PartialEq, Eq, Structural)]
pub struct PlayerControlled {
    pub handle: PlayerHandle,
}

/// Marks a character controlled by the computer.
#[derive(Clone, Copy, Debug, PartialEq, Eq, Structural)]
pub struct AIControlled;

/// Marks a body that takes part in collisions.
#[derive(Clone, Copy, Debug, PartialEq, Eq, Structural)]
pub struct Collider;

/// Marks an entity that reached zero hit points and is about to go, with the player whose shot
/// did it, if any.
#[derive(Clone, Copy, Debug, PartialEq, Eq, Structural)]
pub struct Dying {
    pub by_shooter: Option<PlayerHandle>,
}

impl Default for Dying {
    /// Dying by no one's shot.
    fn default() -> (dying: Self)
        ensures
            dying.by_shooter is None,
    {
        Dying { by_shooter: None }
    }
}

/// The death to report for a dying entity: a dead player's character reports its player's
/// death and the shooter; anything else reports nothing.
pub fn handle_death(is_dead: bool, player: Option<PlayerControlled>, dying: Dying) -> (report: Option<PlayerDied>)
    ensures
        report == if is_dead && player is Some {
            Some(PlayerDied { player_handle: player->0.handle, killed_by: dying.by_shooter })
        } else {
            None::<PlayerDied>
        },
{
    if is_dead {
        match player {
            Some(p) => Some(PlayerDied { player_handle: p.handle, killed_by: dying.by_shooter }),
            None => None,
        }
    } else {
        None
    }
}

/// Whether a projectile hurts a body: a body of no team always, one of a team when the gun
/// hurts friends or the teams differ.
pub fn should_be_damaged(friendly_fire: bool, projectile_team: Team, body_team: Option<Team>) -> (hurt: bool)
    ensures
        hurt == match body_team {
            Some(team) => friendly_fire || projectile_team != team,
            None => true,
        },
{
    match body_team {
        Some(team) => friendly_fire || projectile_team.0 != team.0,
        None => true,
    }
}

/// Marks gear equipped by another entity, if any.
#[derive(Clone, Copy, Debug, PartialEq, Eq, Structural)]
pub struct Equipped {
    pub by: Option<EntityId>,
}

/// When the gear was last let go, in nanoseconds of game time.
#[derive(Clone, Copy, Debug, PartialEq, Eq, Structural)]
pub struct LastUnequippedAt(pub u64);

/// Marks a projectile, with the kind of gun that shot it.
#[derive(Clone, Copy, Debug, PartialEq, Eq, Structural)]
pub struct Bullet {
    gun_type: GunPreset,
}

impl Bullet {
    /// A projectile of the given kind of gun.
    pub fn new(gun_type: GunPreset) -> (bullet: Self)
        ensures
            bullet.gun_type() == gun_type,
    {
        Bullet { gun_type }
    }

    /// The kind of gun that shot the projectile.
    pub closed spec fn gun_type(self) -> GunPreset {
        self.gun_type
    }

    /// The kind of gun that shot the projectile.
    pub fn get_gun_type(&self) -> (gun_type: GunPreset)
        ensures
            gun_type == self.gun_type(),
    {
        self.gun_type
    }
}

/// The most guns that may lie free in the world.
pub const MAX_FREE_WEAPONS: usize = 5;

/// Whether the gun at `index` was let go first among the free guns: strictly earlier than
/// every gun before it, and no later than every gun after it.
pub open spec fn is_oldest(guns: Seq<(EntityId, LastUnequippedAt)>, index: int) -> bool {
    &&& 0 <= index < guns.len()
    &&& forall|j: int| 0 <= j < index ==> guns[index].1 .0 < (#[trigger] guns[j]).1 .0
    &&& forall|j: int| index < j < guns.len() ==> guns[index].1 .0 <= (#[trigger] guns[j]).1 .0
}

/// The gun to clean up when more than [`MAX_FREE_WEAPONS`] guns lie free: the one let go
/// first (the first of them on a tie); nothing otherwise.
pub fn handle_gun_cleanup(free_guns: &Vec<(EntityId, LastUnequippedAt)>) -> (despawned: Option<EntityId>)
    ensures
        free_guns@.len() <= MAX_FREE_WEAPONS ==> despawned is None,
        free_guns@.len() > MAX_FREE_WEAPONS ==> exists|i: int| #[trigger] is_oldest(free_guns@, i) && despawned
            == Some(free_guns@[i].0),
{
    if free_guns.len() <= MAX_FREE_WEAPONS {
        return None;
    }
    let mut oldest: usize = 0;
    let mut i: usize = 1;
    while i < free_guns.len()
        invariant
            1 <= i <= free_guns@.len(),
            oldest < i,
            forall|j: int| 0 <= j < oldest ==> free_guns@[oldest as int].1 .0 < (#[trigger] free_guns@[j]).1 .0,
            forall|j: int| oldest < j < i ==> free_guns@[oldest as int].1 .0 <= (#[trigger] free_guns@[j]).1 .0,
        decreases free_guns@.len() - i,
    {
        if free_guns[i].1 .0 < free_guns[oldest].1 .0 {
            oldest = i;
        }
        i = i + 1;
    }
    proof {
        assert(is_oldest(free_guns@, oldest as int));
    }
    Some(free_guns[oldest].0)
}

/// The characters that pick up a gun lying on the ground: those asking to interact that touch
/// it, in order (the last of them ends up holding it).
pub fn handle_gun_picking(collisions: &OngoingCollisions, characters: &Vec<(EntityId, bool)>) -> (pickers: Vec<EntityId>)
    ensures
        pickers@ == characters@.filter(|c: (EntityId, bool)| c.1 && collisions.0@.contains(c.0)).map_values(
            |c: (EntityId, bool)| c.0,
        ),
{
    let ghost pick = |c: (EntityId, bool)| c.1 && collisions.0@.contains(c.0);
    let ghost to_id = |c: (EntityId, bool)| c.0;
    let mut pickers: Vec<EntityId> = Vec::new();
    if collisions.is_empty() {
        proof {
            assert(characters@.filter(pick) =~= Seq::<(EntityId, bool)>::empty()) by {
                lemma_filter_none(characters@, pick);
            }
        }
        return pickers;
    }
    let mut i: usize = 0;
    while i < characters.len()
        invariant
            pick == (|c: (EntityId, bool)| c.1 && collisions.0@.contains(c.0)),
            to_id == (|c: (EntityId, bool)| c.0),
            i <= characters@.len(),
            pickers@ == characters@.subrange(0, i as int).filter(pick).map_values(to_id),
        decreases characters@.len() - i,
    {
        let (id, interacts) = characters[i];
        let ghost before = characters@.subrange(0, i as int).filter(pick);
        proof {
            let prefix = characters@.subrange(0, i + 1);
            assert(prefix.drop_last() =~= characters@.subrange(0, i as int));
            assert(prefix.filter(pick) == if pick(characters@[i as int]) {
                before.push(characters@[i as int])
            } else {
                before
            }) by {
                reveal(Seq::filter);
            }
        }
        if interacts && collisions.contains(&id) {
            pickers.push(id);
            proof {
                assert(before.push(characters@[i as int]).map_values(to_id) =~= before.map_values(to_id).push(id));
            }
        }
        i = i + 1;
    }
    proof {
        assert(characters@.subrange(0, characters@.len() as int) =~= characters@);
    }
    pickers
}

proof fn lemma_filter_none(s: Seq<(EntityId, bool)>, pred: spec_fn((EntityId, bool)) -> bool)
    requires
        forall|i: int| 0 <= i < s.len() ==> !pred(#[trigger] s[i]),
    ensures
        s.filter(pred) == Seq::<(EntityId, bool)>::empty(),
    decreases s.len(),
{
    reveal(Seq::filter);
    if s.len() > 0 {
        lemma_filter_none(s.drop_last(), pred);
        assert(!pred(s[s.len() - 1]));
    }
}

/// Whether a character lets its gear go: when it asks to, or is dead, and holds anything.
pub fn lets_gear_go(asks_to: bool, is_dead: bool, holds_anything: bool) -> (lets_go: bool)
    ensures
        lets_go <==> (asks_to || is_dead) && holds_anything,
{
    (asks_to || is_dead) && holds_anything
}

} // verus!
