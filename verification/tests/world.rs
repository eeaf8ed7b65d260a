use std::collections::VecDeque;
use spaceball::characters::{
    handle_death, handle_gun_cleanup, handle_gun_picking, lets_gear_go, should_be_damaged, Bullet, Dying, LastUnequippedAt,
    PlayerControlled, MAX_FREE_WEAPONS,
};
use spaceball::entropy::EntropyGenerator;
use spaceball::guns::GunPreset;
use spaceball::physics::{
    cleanup_ongoing_collisions, collision_group_bits, try_get_components_from_entities, update_ongoing_collisions,
    CollisionEvent, CollisionLayer, OngoingCollisions,
};
use spaceball::players::{PlayerData, PlayerDied, PlayerJoined, PlayerRegistry};
use spaceball::scenes::{
    assign_spawn_points, enqueue_respawns, summon_scene, handle_player_respawning, handle_respawn_point_occupation, reset_spawn_queue,
    SceneSelector, SpawnPoint, SpawnQueue, RESPAWN_TIMEOUT,
};
use spaceball::teams::Team;

#[test]
fn scene_names() {
    assert_eq!(SceneSelector::try_from("m".to_string()), Ok(SceneSelector::Main));
    assert_eq!(SceneSelector::try_from("master".to_string()), Ok(SceneSelector::Main));
    assert_eq!(SceneSelector::try_from("exp".to_string()), Ok(SceneSelector::Experimental));
    assert_eq!(SceneSelector::try_from("e".to_string()), Ok(SceneSelector::Experimental));
    assert_eq!(
        SceneSelector::try_from("Main".to_string()),
        Err("Nothing too bad, should use the default scene")
    );
}

#[test]
fn spawn_point_countdown() {
    let mut p = SpawnPoint::default();
    assert!(p.is_free());
    assert!(!p.tick(RESPAWN_TIMEOUT));
    p.occupy(3);
    assert!(!p.is_free());
    assert!(!p.tick(RESPAWN_TIMEOUT - 1));
    assert!(p.tick(1));
    p.free();
    assert!(p.is_free());
    p.occupy(4);
    p.skip_timeout();
    assert!(p.timeout.finished());
}

fn queue_of(q: &SpawnQueue) -> Vec<(usize, bool)> {
    q.0.iter().cloned().collect()
}

#[test]
fn respawn_queue_skips_known_players() {
    let mut points = vec![SpawnPoint::default(), SpawnPoint::default()];
    points[0].occupy(1);
    let mut queue = SpawnQueue::default();
    enqueue_respawns(
        &mut queue,
        &points,
        &vec![PlayerJoined { player_handle: 2 }, PlayerJoined { player_handle: 2 }],
        &vec![PlayerDied { player_handle: 1, killed_by: None }, PlayerDied { player_handle: 3, killed_by: Some(2) }],
    );
    assert_eq!(queue_of(&queue), vec![(2, true), (3, false)]);
}

#[test]
fn waiting_players_take_free_points_in_order() {
    let mut points = vec![SpawnPoint::default(), SpawnPoint::default(), SpawnPoint::default()];
    points[1].occupy(9);
    let mut queue = SpawnQueue(VecDeque::from(vec![(4, true), (5, false), (6, false)]));
    let taken = assign_spawn_points(&mut points, &mut queue, &vec![2, 1, 0]);
    assert_eq!(taken, vec![2, 0]);
    assert_eq!(points[2].occupant_handle, Some(4));
    assert!(points[2].timeout.finished());
    assert_eq!(points[0].occupant_handle, Some(5));
    assert!(!points[0].timeout.finished());
    assert_eq!(points[1].occupant_handle, Some(9));
    assert_eq!(queue_of(&queue), vec![(6, false)]);
    reset_spawn_queue(&mut queue);
    assert!(queue.0.is_empty());
}

#[test]
fn occupation_places_everyone_once() {
    let mut points = vec![SpawnPoint::default(), SpawnPoint::default()];
    let mut queue = SpawnQueue::default();
    let mut rng = EntropyGenerator::new(3);
    let taken = handle_respawn_point_occupation(
        &vec![PlayerJoined { player_handle: 0 }, PlayerJoined { player_handle: 1 }, PlayerJoined { player_handle: 2 }],
        &vec![],
        &mut points,
        &mut rng,
        &mut queue,
    );
    assert_eq!(taken.len(), 2);
    let mut placed: Vec<usize> = points.iter().filter_map(|p| p.occupant_handle).collect();
    placed.extend(queue.0.iter().map(|(h, _)| *h));
    placed.sort();
    assert_eq!(placed, vec![0, 1, 2]);
    let none = handle_respawn_point_occupation(&vec![], &vec![], &mut points, &mut rng, &mut SpawnQueue::default());
    assert!(none.is_empty());
}

#[test]
fn respawning_frees_points() {
    let mut players = PlayerRegistry::default();
    players.0.push(PlayerData::from_team(3));
    players.0.push(PlayerData::from_team(4));
    let mut points = vec![SpawnPoint::default(), SpawnPoint::default(), SpawnPoint::default()];
    points[0].occupy(1);
    points[0].skip_timeout();
    points[2].occupy(0);
    let mut rng = EntropyGenerator::new(8);
    let respawns = handle_player_respawning(&mut points, &players, 1, &mut rng, 1);
    assert_eq!(respawns.len(), 1);
    assert_eq!(respawns[0].point, 0);
    assert_eq!(respawns[0].player_handle, 1);
    assert_eq!(respawns[0].team, Team(4));
    assert!(respawns[0].is_local);
    assert!(points[0].is_free());
    assert!(!points[2].is_free());
    let later = handle_player_respawning(&mut points, &players, 1, &mut rng, RESPAWN_TIMEOUT);
    assert_eq!(later.len(), 1);
    assert!(!later[0].is_local);
    assert_eq!(later[0].team, Team(3));
}

#[test]
fn occupation_follows_the_match_generator() {
    let mut points = vec![SpawnPoint::default(), SpawnPoint::default(), SpawnPoint::default()];
    let mut queue = SpawnQueue::default();
    let mut rng = EntropyGenerator::new(17);
    let mut expected = EntropyGenerator::new(17);
    let order = expected.shuffled_indices(3);
    let taken = handle_respawn_point_occupation(
        &vec![PlayerJoined { player_handle: 5 }, PlayerJoined { player_handle: 6 }],
        &vec![],
        &mut points,
        &mut rng,
        &mut queue,
    );
    assert_eq!(taken, order[..2].to_vec());
    assert_eq!(points[order[0]].occupant_handle, Some(5));
    assert_eq!(points[order[1]].occupant_handle, Some(6));
    assert_eq!(rng.shuffled_indices(9), expected.shuffled_indices(9));
    // with nobody waiting the generator is left alone
    let mut idle = EntropyGenerator::new(4);
    handle_respawn_point_occupation(&vec![], &vec![], &mut points, &mut idle, &mut SpawnQueue::default());
    assert_eq!(idle.shuffled_indices(9), EntropyGenerator::new(4).shuffled_indices(9));
}

#[test]
fn respawning_forks_then_draws_the_gun() {
    let mut players = PlayerRegistry::default();
    players.0.push(PlayerData::from_team(1));
    players.0.push(PlayerData::from_team(2));
    let mut points = vec![SpawnPoint::default(), SpawnPoint::default()];
    points[0].occupy(0);
    points[0].skip_timeout();
    points[1].occupy(1);
    points[1].skip_timeout();
    let mut rng = EntropyGenerator::new(31);
    let respawns = handle_player_respawning(&mut points, &players, 0, &mut rng, 1);
    assert_eq!(respawns.len(), 2);
    let mut expected = EntropyGenerator::new(31);
    for respawn in respawns {
        let mut character = expected.fork();
        let gun = GunPreset::random(&mut expected);
        assert_eq!(respawn.gun, gun);
        let mut given = respawn.entropy;
        assert_eq!(given.shuffled_indices(9), character.shuffled_indices(9));
    }
    assert_eq!(rng.shuffled_indices(9), expected.shuffled_indices(9));
}

#[test]
fn collision_groups_sum_bits() {
    assert_eq!(collision_group_bits(&CollisionLayer::all()), 15);
    assert_eq!(collision_group_bits(&vec![CollisionLayer::Projectile]), 4);
    assert_eq!(collision_group_bits(&vec![]), 0);
    assert_eq!(CollisionLayer::Obstacle.bits(), 8);
}

#[test]
fn contacts_start_stop_and_clean_up() {
    let mut bodies = vec![(1u64, OngoingCollisions::default()), (2u64, OngoingCollisions::default())];
    update_ongoing_collisions(
        &vec![CollisionEvent::Started(1, 2), CollisionEvent::Started(1, 3), CollisionEvent::Stopped(3, 1)],
        &mut bodies,
    );
    assert!(bodies[0].1.contains(&2));
    assert!(!bodies[0].1.contains(&3));
    assert!(bodies[1].1.contains(&1));
    assert_eq!(bodies[0].1.len(), 1);
    cleanup_ongoing_collisions(&vec![2], &mut bodies);
    assert!(bodies[0].1.is_empty());
    assert!(!bodies[1].1.is_empty());
}

#[test]
fn component_pairs() {
    assert_eq!(try_get_components_from_entities(1, 2, true, true, false, false), Some((1, 2)));
    assert_eq!(try_get_components_from_entities(1, 2, false, false, true, true), Some((2, 1)));
    assert_eq!(try_get_components_from_entities(1, 2, true, false, false, false), None);
}

#[test]
fn deaths_and_damage() {
    let player = Some(PlayerControlled { handle: 3 });
    assert_eq!(
        handle_death(true, player, Dying { by_shooter: Some(1) }),
        Some(PlayerDied { player_handle: 3, killed_by: Some(1) })
    );
    assert_eq!(handle_death(false, player, Dying::default()), None);
    assert_eq!(handle_death(true, None, Dying::default()), None);
    assert!(should_be_damaged(false, Team(1), None));
    assert!(!should_be_damaged(false, Team(1), Some(Team(1))));
    assert!(should_be_damaged(true, Team(1), Some(Team(1))));
    assert!(should_be_damaged(false, Team(1), Some(Team(2))));
    assert!(lets_gear_go(false, true, true));
    assert!(!lets_gear_go(true, false, false));
    assert_eq!(Bullet::new(GunPreset::Typhoon).get_gun_type(), GunPreset::Typhoon);
}

#[test]
fn oldest_free_gun_is_cleaned_up() {
    let few: Vec<(u64, LastUnequippedAt)> = (0..MAX_FREE_WEAPONS as u64).map(|i| (i, LastUnequippedAt(i))).collect();
    assert_eq!(handle_gun_cleanup(&few), None);
    let many = vec![
        (10, LastUnequippedAt(50)),
        (11, LastUnequippedAt(20)),
        (12, LastUnequippedAt(30)),
        (13, LastUnequippedAt(20)),
        (14, LastUnequippedAt(90)),
        (15, LastUnequippedAt(70)),
    ];
    assert_eq!(handle_gun_cleanup(&many), Some(11));
}

#[test]
fn touching_characters_pick_guns_up() {
    let mut collisions = OngoingCollisions::default();
    let chars = vec![(1u64, true), (2u64, true), (3u64, false)];
    assert!(handle_gun_picking(&collisions, &chars).is_empty());
    collisions.0.insert(2);
    collisions.0.insert(3);
    assert_eq!(handle_gun_picking(&collisions, &chars), vec![2]);
}

#[test]
fn scene_summoned_by_default() {
    assert_eq!(summon_scene(None), SceneSelector::Main);
    assert_eq!(summon_scene(Some(SceneSelector::Experimental)), SceneSelector::Experimental);
}

#[test]
fn registry_lookup_and_change() {
    let mut players = PlayerRegistry::default();
    players.0.push(PlayerData::from_team(2));
    if let Some(p) = players.get_mut(0) {
        p.kills = 4;
    }
    assert!(players.get_mut(1).is_none());
    assert_eq!(players.get(0).map(|p| p.kills), Some(4));
    assert!(players.get(3).is_none());
    assert!(players.set_name(0, "Ivy".to_string()));
    assert!(!players.set_name(1, "Ivy".to_string()));
    assert_eq!(players.len(), 1);
    assert_eq!(PlayerData::from_player_handle(2).team, Team(3));
}

#[test]
fn presets_by_position() {
    assert_eq!(GunPreset::from_index(0), GunPreset::Regular);
    assert_eq!(GunPreset::from_index(4), GunPreset::Typhoon);
    assert_eq!(GunPreset::from_index(5), GunPreset::LaserGun);
    assert_eq!(GunPreset::from_index(100), GunPreset::LaserGun);
}
