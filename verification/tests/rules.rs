use spaceball::teams::{safe_team_color, team_color, Team, TeamColor, AI_DEFAULT_TEAM, PLAYER_DEFAULT_TEAM};
use spaceball::timer::{Timer, NANOS_PER_MILLI, NANOS_PER_SEC};
use spaceball::guns::{Gun, GunPreset, ProjectileSpawnSpace, GUN_PRESET_COUNT};
use spaceball::entropy::EntropyGenerator;
use spaceball::strings::{parse_usize, usize_to_decimal, str_equals, chars_of, string_from_chars};

#[test]
fn team_of_first_player_is_default_team() {
    assert_eq!(Team::from_player_handle(0), Team(PLAYER_DEFAULT_TEAM));
    assert_eq!(Team::from_player_handle(3), Team(4));
}

#[test]
fn distinct_handles_have_distinct_teams() {
    let teams: Vec<u8> = (0..20).map(|h| Team::from_player_handle(h).0).collect();
    for i in 0..teams.len() {
        for j in (i + 1)..teams.len() {
            assert_ne!(teams[i], teams[j]);
        }
    }
    assert_eq!(Team::from_player_handle(8).0, AI_DEFAULT_TEAM);
}

#[test]
fn team_colors_cover_nine_teams() {
    assert_eq!(safe_team_color(0), None);
    assert_eq!(safe_team_color(1), Some(TeamColor::Cyan));
    assert_eq!(safe_team_color(9), Some(TeamColor::Silver));
    assert_eq!(safe_team_color(10), None);
    assert_eq!(team_color(2), TeamColor::Crimson);
    assert_eq!(Team(8).color(), TeamColor::Orchid);
    assert_eq!(Team(200).safe_color(), None);
}

#[test]
fn timer_finishes_once_and_clamps() {
    let mut t = Timer::new(100);
    t.tick(40);
    assert!(!t.finished() && !t.just_finished());
    assert_eq!(t.elapsed(), 40);
    assert_eq!(t.remaining(), 60);
    t.tick(70);
    assert!(t.finished() && t.just_finished());
    assert_eq!(t.elapsed(), 100);
    t.tick(5);
    assert!(t.finished() && !t.just_finished());
    t.reset();
    assert!(!t.finished());
    assert_eq!(t.elapsed(), 0);
}

#[test]
fn paused_timer_does_not_advance() {
    let mut t = Timer::new(NANOS_PER_SEC);
    t.pause();
    t.tick(2 * NANOS_PER_SEC);
    assert!(!t.finished());
    assert_eq!(t.elapsed(), 0);
    t.unpause();
    t.tick(NANOS_PER_SEC);
    assert!(t.finished());
    t.set_duration(5);
    assert_eq!(t.duration(), 5);
    assert_eq!(Timer::default(), Timer::new(0));
}

#[test]
fn timer_tick_saturates() {
    let mut t = Timer::new(u64::MAX);
    t.tick(u64::MAX - 1);
    t.tick(u64::MAX - 1);
    assert!(t.finished());
    assert_eq!(t.elapsed(), u64::MAX);
}

#[test]
fn gun_preset_stats_table() {
    assert_eq!(GunPreset::default(), GunPreset::Regular);
    let regular = GunPreset::Regular.stats();
    assert_eq!(regular.fire_cooldown, 100 * NANOS_PER_MILLI);
    assert_eq!(regular.shots_before_reload, 0);
    assert_eq!(regular.projectiles_per_shot, 1);
    assert_eq!(GunPreset::Imprecise.stats().shots_before_reload, 15);
    assert_eq!(GunPreset::Imprecise.stats().reload_time, 500 * NANOS_PER_MILLI);
    assert_eq!(GunPreset::Scattershot.stats().projectiles_per_shot, 12);
    assert_eq!(GunPreset::Typhoon.stats().projectile_spawn_point, ProjectileSpawnSpace::Perimeter);
    assert_eq!(GunPreset::Typhoon.stats().projectiles_per_shot, 64);
    assert!(GunPreset::RailGun.stats().friendly_fire);
    assert!(GunPreset::RailGun.has_extra_projectile_components());
    assert!(!GunPreset::LaserGun.has_extra_projectile_components());
    assert_eq!(GunPreset::LaserGun.stats().fire_cooldown, 5 * NANOS_PER_MILLI);
}

#[test]
fn random_presets_are_valid() {
    let mut rng = EntropyGenerator::new(42);
    for _ in 0..50 {
        let p = GunPreset::random(&mut rng);
        let all = [
            GunPreset::Regular,
            GunPreset::Imprecise,
            GunPreset::RailGun,
            GunPreset::Scattershot,
            GunPreset::Typhoon,
            GunPreset::LaserGun,
        ];
        assert!(all.contains(&p));
    }
    assert_eq!(GUN_PRESET_COUNT, 6);
}

#[test]
fn random_presets_follow_the_generator() {
    let mut a = EntropyGenerator::new(77);
    let mut b = EntropyGenerator::new(77);
    let from_a: Vec<GunPreset> = (0..20).map(|_| GunPreset::random(&mut a)).collect();
    let from_b: Vec<GunPreset> = (0..20).map(|_| GunPreset::random(&mut b)).collect();
    assert_eq!(from_a, from_b);
    // the preset is the one at the index drawn below the number of presets
    let mut c = EntropyGenerator::new(77);
    for p in &from_a {
        assert_eq!(*p, GunPreset::from_index(c.index_below(GUN_PRESET_COUNT)));
    }
    // not always the same preset
    assert!(from_a.iter().any(|p| *p != from_a[0]));
}

#[test]
fn new_gun_is_ready_to_fire() {
    let gun = Gun::new(GunPreset::Imprecise, EntropyGenerator::new(1));
    assert!(gun.can_fire());
    assert_eq!(gun.shots_before_reload, 15);
}

#[test]
fn magazine_empties_and_reload_refills() {
    let mut gun = Gun::new(GunPreset::Imprecise, EntropyGenerator::new(1));
    let offsets = gun.fire_rounds(Some((16, 0)));
    // only the fifteen rounds in the magazine are fired, one cooldown apart
    assert_eq!(offsets.len(), 15);
    assert_eq!(offsets[0], 0);
    assert_eq!(offsets[1], 100 * NANOS_PER_MILLI as u128);
    // the round that was not fired counts towards the reload (100 ms of its 500 ms)
    assert_eq!(gun.shots_before_reload, 0);
    assert!(!gun.can_fire());
    assert!(!gun.tick_cooldowns(300 * NANOS_PER_MILLI));
    assert_eq!(gun.shots_before_reload, 0);
    assert!(!gun.tick_cooldowns(100 * NANOS_PER_MILLI));
    assert_eq!(gun.shots_before_reload, 15);
    assert!(gun.can_fire());
}

#[test]
fn overdue_rounds_count_towards_the_reload() {
    let mut gun = Gun::new(GunPreset::Imprecise, EntropyGenerator::new(1));
    let offsets = gun.fire_rounds(Some((20, 0)));
    assert_eq!(offsets.len(), 15);
    // five unfired rounds make up the whole 500 ms reload
    assert_eq!(gun.shots_before_reload, 15);
}

#[test]
fn single_shot_without_fast_forward() {
    let mut gun = Gun::new(GunPreset::Regular, EntropyGenerator::new(3));
    let offsets = gun.fire_rounds(None);
    assert_eq!(offsets, vec![0u128]);
    assert!(!gun.fire_cooldown.finished());
    assert!(!gun.tick_cooldowns(50 * NANOS_PER_MILLI));
    assert!(gun.tick_cooldowns(50 * NANOS_PER_MILLI));
}

#[test]
fn handle_gunfire_fires_after_cooldown() {
    let mut gun = Gun::new(GunPreset::Regular, EntropyGenerator::new(5));
    let shots = gun.handle_gunfire(10, true, false);
    assert!(!shots.is_empty());
    let none = gun.handle_gunfire(10, false, false);
    assert!(none.is_empty());
    let eject = gun.eject_shot_and_check_if_empty();
    assert!(!eject);
}

#[test]
fn start_reloading_blocks_fire() {
    let mut gun = Gun::new(GunPreset::Imprecise, EntropyGenerator::new(9));
    gun.start_reloading();
    assert!(!gun.can_fire());
    let shots = gun.handle_gunfire(10 * NANOS_PER_MILLI, true, false);
    assert!(shots.is_empty());
}

#[test]
fn firing_mid_reload_keeps_an_empty_magazine_reloading() {
    let mut gun = Gun::new(GunPreset::Imprecise, EntropyGenerator::new(9));
    gun.fire_rounds(Some((13, 0)));
    assert_eq!(gun.shots_before_reload, 2);
    gun.start_reloading();
    // two rounds left, three due: the magazine empties and the reload goes on
    let offsets = gun.fire_rounds(Some((3, 0)));
    assert_eq!(offsets.len(), 2);
    assert_eq!(gun.shots_before_reload, 0);
    assert!(!gun.reload_progress.paused());
    assert!(!gun.can_fire());
}

#[test]
fn decimal_round_trip() {
    for n in [0usize, 7, 10, 99, 12345, usize::MAX] {
        let s = usize_to_decimal(n);
        assert_eq!(s, n.to_string());
        let chars: Vec<char> = s.chars().collect();
        assert_eq!(parse_usize(&chars), Some(n));
    }
}

#[test]
fn parse_usize_like_std() {
    for text in ["", "+", "+12", "-1", "1a", "007", "18446744073709551616", "18446744073709551615"] {
        let chars: Vec<char> = text.chars().collect();
        assert_eq!(parse_usize(&chars), text.parse::<usize>().ok(), "{}", text);
    }
}

#[test]
fn string_helpers() {
    assert!(str_equals("main", "main"));
    assert!(!str_equals("main", "mai"));
    assert!(!str_equals("exp", "exe"));
    let chars = chars_of("héllo");
    assert_eq!(chars.len(), 5);
    assert_eq!(string_from_chars(&chars), "héllo");
}

#[test]
fn shuffled_indices_is_a_permutation() {
    let mut rng = EntropyGenerator::new(7);
    let mut order = rng.shuffled_indices(10);
    order.sort();
    assert_eq!(order, (0..10).collect::<Vec<usize>>());
    let mut fork = rng.fork();
    assert!(fork.index_below(3) < 3);
    assert_eq!(rng.shuffled_indices(0), Vec::<usize>::new());
}

#[test]
fn seeded_generators_agree() {
    let mut a = EntropyGenerator::new(11);
    let mut b = EntropyGenerator::new(11);
    assert_eq!(a.shuffled_indices(8), b.shuffled_indices(8));
    let mut d = EntropyGenerator::default();
    let mut z = EntropyGenerator::new(0);
    assert_eq!(d.index_below(1000), z.index_below(1000));
}

#[test]
fn forks_of_equal_generators_agree() {
    let mut a = EntropyGenerator::new(21);
    let mut b = EntropyGenerator::new(21);
    let mut fa = a.fork();
    let mut fb = b.fork();
    assert_eq!(fa.shuffled_indices(12), fb.shuffled_indices(12));
    assert_eq!(a.shuffled_indices(12), b.shuffled_indices(12));
    // the parent advanced: its next draws differ from a fresh generator's
    let mut fresh = EntropyGenerator::new(21);
    let mut parent = EntropyGenerator::new(21);
    let _ = parent.fork();
    assert_ne!(parent.shuffled_indices(20), fresh.shuffled_indices(20));
}
