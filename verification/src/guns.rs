use vstd::prelude::*;
use crate::entropy::{EntropyGenerator, drawn_below};
use crate::timer::{Timer, NANOS_PER_MILLI};

verus! {

/// Where the projectile should spawn when shot out of a gun.
#[derive(Clone, Copy, Debug, PartialEq, Eq, Structural)]
pub enum ProjectileSpawnSpace {
    /// Should spawn at the tip of the gun barrel.
    Gunpoint,
    /// Should spawn around the character, centered on it.
    Perimeter,
}

/// Array of guns for your taste and pleasure. All fixed variables per type are found via a
/// look-up table by a value of this enum.
#[derive(Clone, Copy, Debug, PartialEq, Eq, Hash, Structural)]
pub enum GunPreset {
    Regular,
    Imprecise,
    RailGun,
    Scattershot,
    Typhoon,
    LaserGun,
}

/// Number of gun presets.
pub const GUN_PRESET_COUNT: usize = 6;

/// Fixed timing and magazine properties of a gun preset (times in nanoseconds).
#[derive(Clone, Copy, Debug, PartialEq, Eq, Structural)]
pub struct GunPersistentStats {
    /// Time before the next shot after one is taken.
    pub fire_cooldown: u64,
    /// Number of shots before the "magazine" is depleted and the gun must be reloaded; 0 for
    /// no reload.
    pub shots_before_reload: u32,
    /// Time to reload a gun and set `shots_before_reload` back to full.
    pub reload_time: u64,
    /// Number of projectiles that are fired each shot.
    pub projectiles_per_shot: u32,
    /// Where the projectile spawns.
    pub projectile_spawn_point: ProjectileSpawnSpace,
    /// Does the gun deal damage to bodies that share the team with the shooter?
    pub friendly_fire: bool,
}

/// The regular fire cooldown, in milliseconds.
pub const REGULAR_FIRE_COOLDOWN_TIME_MILLIS: u64 = 100;

/// Regular, default gun. Shoots straight. Trusty and simple.
pub open spec fn regular_stats() -> GunPersistentStats {
    GunPersistentStats {
        fire_cooldown: (REGULAR_FIRE_COOLDOWN_TIME_MILLIS * NANOS_PER_MILLI) as u64,
        shots_before_reload: 0,
        reload_time: 0,
        projectiles_per_shot: 1,
        projectile_spawn_point: ProjectileSpawnSpace::Gunpoint,
        friendly_fire: false,
    }
}

/// The fixed stats of each preset.
pub open spec fn preset_stats(preset: GunPreset) -> GunPersistentStats {
    match preset {
        GunPreset::Regular => regular_stats(),
        GunPreset::Imprecise => GunPersistentStats {
            reload_time: (500 * NANOS_PER_MILLI) as u64,
            shots_before_reload: 15,
            ..regular_stats()
        },
        GunPreset::Scattershot => GunPersistentStats {
            projectiles_per_shot: 12,
            fire_cooldown: (600 * NANOS_PER_MILLI) as u64,
            ..regular_stats()
        },
        GunPreset::Typhoon => GunPersistentStats {
            projectile_spawn_point: ProjectileSpawnSpace::Perimeter,
            projectiles_per_shot: 64,
            fire_cooldown: (1800 * NANOS_PER_MILLI) as u64,
            ..regular_stats()
        },
        GunPreset::RailGun => GunPersistentStats {
            fire_cooldown: (1000 * NANOS_PER_MILLI) as u64,
            friendly_fire: true,
            ..regular_stats()
        },
        GunPreset::LaserGun => GunPersistentStats {
            fire_cooldown: (5 * NANOS_PER_MILLI) as u64,
            friendly_fire: true,
            ..regular_stats()
        },
    }
}

/// The preset at a given position of the declaration order.
pub open spec fn preset_at(index: int) -> GunPreset {
    if index == 0 {
        GunPreset::Regular
    } else if index == 1 {
        GunPreset::Imprecise
    } else if index == 2 {
        GunPreset::RailGun
    } else if index == 3 {
        GunPreset::Scattershot
    } else if index == 4 {
        GunPreset::Typhoon
    } else {
        GunPreset::LaserGun
    }
}

impl Default for GunPreset {
    fn default() -> (preset: Self)
        ensures
            preset == GunPreset::Regular,
    {
        GunPreset::Regular
    }
}

impl GunPreset {
    /// Map of an enum of a weapon to its constant stats.
    pub fn stats(&self) -> (stats: GunPersistentStats)
        ensures
            stats == preset_stats(*self),
    {
        let regular = GunPersistentStats {
            fire_cooldown: REGULAR_FIRE_COOLDOWN_TIME_MILLIS * NANOS_PER_MILLI,
            shots_before_reload: 0,
            reload_time: 0,
            projectiles_per_shot: 1,
            projectile_spawn_point: ProjectileSpawnSpace::Gunpoint,
            friendly_fire: false,
        };
        match self {
            GunPreset::Regular => regular,
            GunPreset::Imprecise => GunPersistentStats {
                reload_time: 500 * NANOS_PER_MILLI,
                shots_before_reload: 15,
                ..regular
            },
            GunPreset::Scattershot => GunPersistentStats {
                projectiles_per_shot: 12,
                fire_cooldown: 600 * NANOS_PER_MILLI,
                ..regular
            },
            GunPreset::Typhoon => GunPersistentStats {
                projectile_spawn_point: ProjectileSpawnSpace::Perimeter,
                projectiles_per_shot: 64,
                fire_cooldown: 1800 * NANOS_PER_MILLI,
                ..regular
            },
            GunPreset::RailGun => GunPersistentStats {
                fire_cooldown: 1000 * NANOS_PER_MILLI,
                friendly_fire: true,
                ..regular
            },
            GunPreset::LaserGun => GunPersistentStats {
                fire_cooldown: 5 * NANOS_PER_MILLI,
                friendly_fire: true,
                ..regular
            },
        }
    }

    /// Does a projectile need extra components (the rail gun's penetration marker, a
    /// sensor, ongoing collisions and continuous collision detection), according to its
    /// gun preset?
    pub fn has_extra_projectile_components(&self) -> (b: bool)
        ensures
            b <==> *self == GunPreset::RailGun,
    {
        match self {
            GunPreset::RailGun => true,
            _ => false,
        }
    }

    /// The preset at a position of the declaration order (the last one from 5 on).
    pub fn from_index(index: usize) -> (preset: GunPreset)
        ensures
            preset == preset_at(index as int),
    {
        match index {
            0 => GunPreset::Regular,
            1 => GunPreset::Imprecise,
            2 => GunPreset::RailGun,
            3 => GunPreset::Scattershot,
            4 => GunPreset::Typhoon,
            _ => GunPreset::LaserGun,
        }
    }

    /// A uniformly drawn preset: the one at the position the generator draws below
    /// [`GUN_PRESET_COUNT`].
    pub fn random(rng: &mut EntropyGenerator) -> (preset: GunPreset)
        ensures
            preset == preset_at(drawn_below(old(rng).0, GUN_PRESET_COUNT as u64).0 as int),
            final(rng).0 == drawn_below(old(rng).0, GUN_PRESET_COUNT as u64).1,
    {
        let index = rng.index_below(GUN_PRESET_COUNT);
        GunPreset::from_index(index)
    }
}

/// Holder of all non-constant properties of a weapon.
#[derive(Clone, Debug)]
pub struct Gun {
    pub preset: GunPreset,
    pub fire_cooldown: Timer,
    pub shots_before_reload: u32,
    pub reload_progress: Timer,
    pub entropy: EntropyGenerator,
}

/// The fire-cooldown timer paused (as when a reload starts) and the reload timer running.
pub open spec fn spec_start_reloading(g: Gun) -> Gun {
    Gun {
        fire_cooldown: Timer { paused: true, ..g.fire_cooldown },
        reload_progress: Timer { paused: false, ..g.reload_progress },
        ..g
    }
}

/// The gun after ticking its cooldowns by `delta`, with whether it may fire now.
///
/// While reloading, only the reload timer runs; when it finishes, the magazine is full, the
/// reload timer is reset and paused, and the fire cooldown resumes, ticked by the reload
/// duration. Otherwise the fire cooldown runs and the gun may fire once it has finished.
pub open spec fn spec_tick_cooldowns(g: Gun, delta: u64) -> (Gun, bool) {
    if !g.reload_progress.paused {
        let reload = g.reload_progress.ticked(delta);
        if reload.finished {
            (
                Gun {
                    shots_before_reload: preset_stats(g.preset).shots_before_reload,
                    reload_progress: Timer { paused: true, ..reload.spec_reset() },
                    fire_cooldown: Timer { paused: false, ..g.fire_cooldown }.ticked(
                        reload.duration,
                    ),
                    ..g
                },
                false,
            )
        } else {
            (Gun { reload_progress: reload, ..g }, false)
        }
    } else {
        let cooldown = g.fire_cooldown.ticked(delta);
        (Gun { fire_cooldown: cooldown, ..g }, cooldown.finished)
    }
}

/// Number of rounds a volley fires when `requested` rounds are due: all of them with an
/// unlimited magazine, otherwise no more than the magazine holds.
pub open spec fn spec_rounds_fired(max_shots: u32, shots: u32, requested: u128) -> u128 {
    if max_shots > 0 && (shots as u128) < requested {
        shots as u128
    } else {
        requested
    }
}

/// The gun after firing a volley of `requested` rounds, the latest of which is due
/// `latest_elapsed` nanoseconds past its cooldown: the magazine loses the rounds fired,
/// a reload starts if it was emptied, the fire cooldown restarts, and the cooldowns are ticked
/// by the time that the rounds not fired and the latest elapsed time make up.
pub open spec fn spec_after_volley(g: Gun, requested: u128, latest_elapsed: u128) -> Gun {
    let stats = preset_stats(g.preset);
    let fired = spec_rounds_fired(stats.shots_before_reload, g.shots_before_reload, requested);
    let shots = if stats.shots_before_reload > 0 {
        (g.shots_before_reload - fired) as u32
    } else {
        g.shots_before_reload
    };
    let emptied = stats.shots_before_reload > 0 && shots == 0 && fired > 0;
    let after_shots = Gun { shots_before_reload: shots, ..g };
    let reloading = if emptied {
        spec_start_reloading(after_shots)
    } else {
        after_shots
    };
    let reset = Gun { fire_cooldown: reloading.fire_cooldown.spec_reset(), ..reloading };
    let leftover = ((requested - fired) * (g.fire_cooldown.duration as u128) + latest_elapsed) as u64;
    spec_tick_cooldowns(reset, leftover).0
}

/// The time offsets (in nanoseconds past the latest due shot's cooldown start) of the rounds
/// fired by a volley: round `i` is `i` cooldowns plus the latest elapsed time late.
pub open spec fn spec_volley_offsets(g: Gun, requested: u128, latest_elapsed: u128) -> Seq<u128> {
    let stats = preset_stats(g.preset);
    let fired = spec_rounds_fired(stats.shots_before_reload, g.shots_before_reload, requested);
    Seq::new(
        fired as nat,
        |i: int| (i * (g.fire_cooldown.duration as int) + latest_elapsed) as u128,
    )
}

impl Gun {
    /// Well-formedness: the timers have the preset's durations, the magazine holds no more
    /// than the preset allows, and an empty magazine is being reloaded.
    pub open spec fn wf(self) -> bool {
        let stats = preset_stats(self.preset);
        &&& self.fire_cooldown.duration == stats.fire_cooldown
        &&& self.reload_progress.duration == stats.reload_time
        &&& self.shots_before_reload <= stats.shots_before_reload
        &&& (stats.shots_before_reload > 0 && self.shots_before_reload == 0
            ==> !self.reload_progress.paused)
    }

    /// Whether the gun is in the middle of a reload.
    pub open spec fn is_reloading(self) -> bool {
        !self.reload_progress.paused
    }

    /// A new gun of the preset: its fire cooldown has already run out, the player shouldn't
    /// wait for the gun to recover when first picking it up, and it is not reloading.
    pub fn new(preset: GunPreset, rng: EntropyGenerator) -> (gun: Gun)
        ensures
            gun.wf(),
            gun.preset == preset,
            gun.fire_cooldown == (Timer {
                elapsed: preset_stats(preset).fire_cooldown,
                finished: true,
                just_finished: true,
                ..Timer::spec_new(preset_stats(preset).fire_cooldown)
            }),
            gun.shots_before_reload == preset_stats(preset).shots_before_reload,
            gun.reload_progress == (Timer {
                paused: true,
                ..Timer::spec_new(preset_stats(preset).reload_time)
            }),
            gun.entropy == rng,
    {
        let stats = preset.stats();
        let mut fire_cooldown = Timer::new(stats.fire_cooldown);
        fire_cooldown.tick(stats.fire_cooldown);
        let mut reload_progress = Timer::new(stats.reload_time);
        reload_progress.pause();
        Gun {
            preset,
            fire_cooldown,
            shots_before_reload: stats.shots_before_reload,
            reload_progress,
            entropy: rng,
        }
    }

    /// Check if the cooldown timers have finished, and the gun can be fired.
    pub fn can_fire(&self) -> (b: bool)
        ensures
            b <==> self.fire_cooldown.finished && self.reload_progress.paused,
    {
        self.fire_cooldown.finished() && self.reload_progress.paused()
    }

    /// Tick some time on the cooldown timers and return if the gun is able to fire.
    pub fn tick_cooldowns(&mut self, delta: u64) -> (can_fire: bool)
        requires
            old(self).wf(),
        ensures
            (*final(self), can_fire) == spec_tick_cooldowns(*old(self), delta),
            final(self).wf(),
    {
        let was_reloading = !self.reload_progress.paused();
        if was_reloading {
            self.reload_progress.tick(delta);
            if self.reload_progress.finished() {
                self.shots_before_reload = self.preset.stats().shots_before_reload;
                self.reload_progress.reset();
                self.reload_progress.pause();
                self.fire_cooldown.unpause();
                let reload_duration = self.reload_progress.duration();
                self.fire_cooldown.tick(reload_duration);
            }
            false
        } else {
            self.fire_cooldown.tick(delta);
            self.fire_cooldown.finished()
        }
    }

    /// Expend a round from the magazine and return true if there are no more rounds left,
    /// and the gun should be reloaded. A gun without reloads never runs out.
    pub fn eject_shot_and_check_if_empty(&mut self) -> (empty: bool)
        requires
            preset_stats(old(self).preset).shots_before_reload > 0 ==> old(
                self,
            ).shots_before_reload > 0,
        ensures
            preset_stats(old(self).preset).shots_before_reload > 0 ==> final(self).shots_before_reload
                == old(self).shots_before_reload - 1 && (empty <==> final(self).shots_before_reload
                == 0),
            preset_stats(old(self).preset).shots_before_reload == 0 ==> !empty && *final(self)
                == *old(self),
            *final(self) == (Gun { shots_before_reload: final(self).shots_before_reload, ..*old(self) }),
    {
        if self.preset.stats().shots_before_reload > 0 {
            self.shots_before_reload = self.shots_before_reload - 1;
            self.shots_before_reload == 0
        } else {
            false
        }
    }

    /// Set the cooldown timer to run anew. To be used usually when making a shot.
    pub fn reset_fire_cooldown(&mut self)
        ensures
            *final(self) == (Gun { fire_cooldown: old(self).fire_cooldown.spec_reset(), ..*old(self) }),
    {
        self.fire_cooldown.reset();
    }

    /// Change the behaviour of the gun to reloading. Only when the reloading has finished,
    /// can the gun resume firing.
    pub fn start_reloading(&mut self)
        ensures
            *final(self) == spec_start_reloading(*old(self)),
    {
        self.fire_cooldown.pause();
        self.reload_progress.unpause();
    }

    /// Fire a volley: `rounds_to_fire` rounds (one if none is given), the latest due
    /// `latest_elapsed` nanoseconds past its cooldown start, as far as the magazine allows. The
    /// magazine must hold a round (or be unlimited), as it does whenever the gun is not
    /// reloading: a shot from an empty magazine would take its count below zero.
    /// Returns the time offsets of the rounds fired (each round is `projectiles_per_shot`
    /// projectiles, spawned and moved on by the caller). The gun changes state as
    /// [`spec_after_volley`] says.
    pub fn fire_rounds(&mut self, fast_forward_rounds: Option<(u128, u128)>) -> (offsets: Vec<u128>)
        requires
            old(self).wf(),
            preset_stats(old(self).preset).shots_before_reload > 0 ==> old(self).shots_before_reload > 0,
            fast_forward_rounds matches Some((n, l)) ==> n * (old(
                self,
            ).fire_cooldown.duration as int) + l <= u128::MAX,
        ensures
            final(self).wf(),
            ({
                let (n, l) = match fast_forward_rounds {
                    Some(p) => p,
                    None => (1u128, 0u128),
                };
                &&& *final(self) == spec_after_volley(*old(self), n, l)
                &&& offsets@ == spec_volley_offsets(*old(self), n, l)
                &&& offsets@.len() > 0 ==> offsets@[0] == l
                &&& forall|i: int| 0 <= i && i + 1 < offsets@.len() ==> #[trigger] offsets@[i + 1]
                    == offsets@[i] + old(self).fire_cooldown.duration
            }),
    {
        let ghost g0 = *self;
        let stats = self.preset.stats();
        let cooldown: u128 = self.fire_cooldown.duration() as u128;
        let (rounds_to_fire, latest_elapsed) = match fast_forward_rounds {
            Some(p) => p,
            None => (1u128, 0u128),
        };
        let ghost fired = spec_rounds_fired(stats.shots_before_reload, g0.shots_before_reload, rounds_to_fire);
        let mut offsets: Vec<u128> = Vec::new();
        let mut rounds_fired: u128 = 0;
        let mut emptied = false;
        while rounds_fired < rounds_to_fire
            invariant_except_break
                rounds_fired <= rounds_to_fire,
                rounds_fired <= fired,
                !emptied,
                stats.shots_before_reload > 0 ==> self.shots_before_reload > 0,
            invariant
                stats == preset_stats(g0.preset),
                cooldown == g0.fire_cooldown.duration,
                rounds_to_fire * cooldown + latest_elapsed <= u128::MAX,
                fired == spec_rounds_fired(stats.shots_before_reload, g0.shots_before_reload, rounds_to_fire),
                offsets@ == Seq::new(
                    rounds_fired as nat,
                    |i: int| (i * (cooldown as int) + latest_elapsed) as u128,
                ),
                stats.shots_before_reload > 0 ==> self.shots_before_reload == g0.shots_before_reload
                    - rounds_fired,
                stats.shots_before_reload == 0 ==> self.shots_before_reload == g0.shots_before_reload,
                emptied ==> rounds_fired == fired && stats.shots_before_reload > 0
                    && self.shots_before_reload == 0 && rounds_fired > 0,
                *self == (Gun { shots_before_reload: self.shots_before_reload, ..g0 }),
                g0.wf(),
                stats.shots_before_reload > 0 ==> g0.shots_before_reload > 0,
            ensures
                rounds_fired == fired,
                offsets@ == Seq::new(
                    rounds_fired as nat,
                    |i: int| (i * (cooldown as int) + latest_elapsed) as u128,
                ),
                stats.shots_before_reload > 0 ==> self.shots_before_reload == g0.shots_before_reload
                    - rounds_fired,
                stats.shots_before_reload == 0 ==> self.shots_before_reload == g0.shots_before_reload,
                emptied <==> (stats.shots_before_reload > 0 && self.shots_before_reload == 0
                    && rounds_fired > 0),
                *self == (Gun { shots_before_reload: self.shots_before_reload, ..g0 }),
            decreases rounds_to_fire - rounds_fired,
        {
            proof {
                assert(rounds_fired * cooldown <= rounds_to_fire * cooldown) by (nonlinear_arith)
                    requires
                        rounds_fired <= rounds_to_fire,
                ;
            }
            let offset: u128 = rounds_fired * cooldown + latest_elapsed;
            offsets.push(offset);
            rounds_fired = rounds_fired + 1;
            proof {
                assert(offsets@ =~= Seq::new(
                    rounds_fired as nat,
                    |i: int| (i * (cooldown as int) + latest_elapsed) as u128,
                ));
            }
            if self.eject_shot_and_check_if_empty() {
                emptied = true;
                break;
            }
        }
        if emptied {
            self.start_reloading();
        }
        self.reset_fire_cooldown();
        proof {
            assert((rounds_to_fire - rounds_fired) * cooldown <= rounds_to_fire * cooldown)
                by (nonlinear_arith)
                requires
                    rounds_fired <= rounds_to_fire,
            ;
        }
        let leftover: u128 = (rounds_to_fire - rounds_fired) * cooldown + latest_elapsed;
        let can_fire = self.tick_cooldowns(leftover as u64);
        proof {
            lemma_volley_offsets_spaced(g0, rounds_to_fire, latest_elapsed);
        }
        offsets
    }

    /// One frame of a gun held by a character: start a reload if asked, tick the cooldowns by
    /// `delta` nanoseconds, and, if the gun is ready and the trigger is pressed, fire every
    /// round that has come due since the cooldown started (`elapsed + delta` divided by the
    /// cooldown), the latest one due the remainder late. Returns the fired rounds' offsets.
    pub fn handle_gunfire(&mut self, delta: u64, wants_to_fire: bool, wants_to_reload: bool) -> (offsets: Vec<u128>)
        requires
            old(self).wf(),
        ensures
            final(self).wf(),
            ({
                let g1 = if wants_to_reload { spec_start_reloading(*old(self)) } else { *old(self) };
                let (g2, ready) = spec_tick_cooldowns(g1, delta);
                let total = (g1.fire_cooldown.elapsed + delta) as u128;
                let cooldown = g2.fire_cooldown.duration as u128;
                let due = (total / cooldown) as u128;
                let late = (total % cooldown) as u128;
                if ready && wants_to_fire {
                    &&& *final(self) == spec_after_volley(g2, due, late)
                    &&& offsets@ == spec_volley_offsets(g2, due, late)
                    &&& offsets@.len() > 0 ==> offsets@[0] == late
                } else {
                    &&& *final(self) == g2
                    &&& offsets@.len() == 0
                }
            }),
    {
        if wants_to_reload {
            self.start_reloading();
        }
        let previously_elapsed: u128 = self.fire_cooldown.elapsed() as u128;
        let ready = self.tick_cooldowns(delta);
        if ready && wants_to_fire {
            let total: u128 = previously_elapsed + delta as u128;
            let cooldown: u128 = self.fire_cooldown.duration() as u128;
            assert(cooldown > 0) by {
                reveal_with_fuel(preset_stats, 1);
            }
            let times_over: u128 = total / cooldown;
            let latest: u128 = total % cooldown;
            proof {
                assert(times_over * cooldown + latest == total) by (nonlinear_arith)
                    requires
                        cooldown > 0,
                        times_over == total / cooldown,
                        latest == total % cooldown,
                ;
            }
            self.fire_rounds(Some((times_over, latest)))
        } else {
            Vec::new()
        }
    }
}

impl Default for Gun {
    /// A regular gun whose cooldown and reload timers both run from zero.
    fn default() -> (gun: Self)
        ensures
            gun.wf(),
            gun.preset == GunPreset::Regular,
            gun.fire_cooldown == Timer::spec_new(preset_stats(GunPreset::Regular).fire_cooldown),
            gun.shots_before_reload == 0,
            gun.reload_progress == Timer::spec_new(preset_stats(GunPreset::Regular).reload_time),
    {
        let preset = GunPreset::Regular;
        let stats = preset.stats();
        Gun {
            preset,
            fire_cooldown: Timer::new(stats.fire_cooldown),
            shots_before_reload: stats.shots_before_reload,
            reload_progress: Timer::new(stats.reload_time),
            entropy: EntropyGenerator::new(0),
        }
    }
}

/// The magazine never holds more rounds than its preset allows, and a gun that may fire is
/// never reloading: every cooldown tick keeps the gun well-formed, and reports readiness only
/// with the reload timer paused.
pub proof fn lemma_tick_keeps_magazine_bounded(g: Gun, delta: u64)
    requires
        g.wf(),
    ensures
        spec_tick_cooldowns(g, delta).0.wf(),
        spec_tick_cooldowns(g, delta).1 ==> !spec_tick_cooldowns(g, delta).0.is_reloading(),
        spec_tick_cooldowns(g, delta).0.shots_before_reload <= preset_stats(g.preset).shots_before_reload,
{
}

/// Firing keeps the magazine invariant: after any volley from a well-formed gun with a round in
/// its magazine (or an unlimited one), the magazine holds no more than the preset allows and an
/// empty magazine is being reloaded, so no later shot is taken from an empty magazine.
pub proof fn lemma_volley_keeps_magazine_invariant(g: Gun, requested: u128, latest_elapsed: u128)
    requires
        g.wf(),
        preset_stats(g.preset).shots_before_reload > 0 ==> g.shots_before_reload > 0,
        requested * (g.fire_cooldown.duration as int) + latest_elapsed <= u128::MAX,
    ensures
        spec_after_volley(g, requested, latest_elapsed).wf(),
{
    let stats = preset_stats(g.preset);
    let fired = spec_rounds_fired(stats.shots_before_reload, g.shots_before_reload, requested);
    assert((requested - fired) * (g.fire_cooldown.duration as int) <= requested * (
    g.fire_cooldown.duration as int)) by (nonlinear_arith)
        requires
            0 <= fired <= requested,
    ;
}

/// A gun can fire again as soon as its reload completes: when a tick completes the reload,
/// the fire cooldown resumes already advanced by the whole reload duration, whatever the
/// frame's length. So the fire cooldown after the tick is the same for every tick that completes
/// the reload, and it has finished whenever the reload takes at least one fire cooldown.
pub proof fn lemma_reload_readies_fire(g: Gun, delta: u64, other_delta: u64)
    requires
        g.wf(),
        g.is_reloading(),
        g.reload_progress.ticked(delta).finished,
        g.reload_progress.ticked(other_delta).finished,
    ensures
        spec_tick_cooldowns(g, delta).0.fire_cooldown == spec_tick_cooldowns(g, other_delta).0.fire_cooldown,
        !spec_tick_cooldowns(g, delta).0.fire_cooldown.paused,
        g.reload_progress.duration >= g.fire_cooldown.duration
            ==> spec_tick_cooldowns(g, delta).0.fire_cooldown.finished,
        spec_tick_cooldowns(g, delta).0.fire_cooldown.elapsed == if g.fire_cooldown.finished {
            g.fire_cooldown.elapsed as int
        } else if g.fire_cooldown.elapsed + g.reload_progress.duration >= g.fire_cooldown.duration {
            g.fire_cooldown.duration as int
        } else {
            g.fire_cooldown.elapsed + g.reload_progress.duration
        },
{
}

/// The rounds of a volley are placed one fire cooldown apart, starting from the latest
/// round's lateness: the first offset is `latest_elapsed`, and each further round is one
/// cooldown earlier (its offset one cooldown larger). As many rounds are placed as are fired:
/// all requested ones, or what the magazine held.
pub proof fn lemma_volley_offsets_spaced(g: Gun, requested: u128, latest_elapsed: u128)
    requires
        requested * (g.fire_cooldown.duration as int) + latest_elapsed <= u128::MAX,
    ensures
        ({
            let offsets = spec_volley_offsets(g, requested, latest_elapsed);
            let max_shots = preset_stats(g.preset).shots_before_reload;
            &&& offsets.len() == if max_shots > 0 && (g.shots_before_reload as int) < requested {
                g.shots_before_reload as int
            } else {
                requested as int
            }
            &&& offsets.len() > 0 ==> offsets[0] == latest_elapsed
            &&& forall|i: int| 0 <= i && i + 1 < offsets.len() ==> #[trigger] offsets[i + 1] == offsets[i]
                + g.fire_cooldown.duration
        }),
{
    let offsets = spec_volley_offsets(g, requested, latest_elapsed);
    let c = g.fire_cooldown.duration as int;
    assert forall|i: int| 0 <= i && i + 1 < offsets.len() implies #[trigger] offsets[i + 1] == offsets[i]
        + g.fire_cooldown.duration by {
        assert((i + 1) * c <= requested * c) by (nonlinear_arith)
            requires
                i + 1 <= requested,
                c >= 0,
        ;
        assert((i + 1) * c == i * c + c) by (nonlinear_arith);
        assert(i * c >= 0) by (nonlinear_arith)
            requires
                i >= 0,
                c >= 0,
        ;
    }
}

/// A reload that completes fills the magazine to the preset's capacity, and the reload timer
/// stops.
pub proof fn lemma_completed_reload_fills_magazine(g: Gun, delta: u64)
    requires
        g.wf(),
        g.is_reloading(),
        g.reload_progress.ticked(delta).finished,
    ensures
        spec_tick_cooldowns(g, delta).0.shots_before_reload == preset_stats(g.preset).shots_before_reload,
        !spec_tick_cooldowns(g, delta).0.is_reloading(),
        !spec_tick_cooldowns(g, delta).1,
{
}

} // verus!
