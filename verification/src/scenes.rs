use vstd::prelude::*;
use std::collections::VecDeque;
use rand::rngs::StdRng;
use crate::entropy::{EntropyGenerator, is_permutation_of_range, index_range, shuffled, forked_rng, drawn_below};
use crate::guns::{GunPreset, preset_at, GUN_PRESET_COUNT};
use crate::players::{PlayerDied, PlayerJoined, PlayerRegistry};
use crate::strings::str_equals;
use crate::teams::{PlayerHandle, Team};
use crate::timer::{Timer, NANOS_PER_MILLI};

verus! {

/// Specifier of the scene to load.
#[derive(Clone, Copy, Debug, PartialEq, Eq, Structural)]
pub enum SceneSelector {
    Main,
    Experimental,
}

/// The scene a name selects: `m`, `main` or `master` the main one, `experimental`, `exp` or
/// `e` the experimental one.
pub open spec fn scene_named(name: Seq<char>) -> Option<SceneSelector> {
    if name == "m"@ || name == "main"@ || name == "master"@ {
        Some(SceneSelector::Main)
    } else if name == "experimental"@ || name == "exp"@ || name == "e"@ {
        Some(SceneSelector::Experimental)
    } else {
        None
    }
}

impl SceneSelector {
    /// The scene a name selects (see [`scene_named`]); any other name is refused with a
    /// message that the default scene should be used.
    pub fn try_from(value: String) -> (scene: Result<SceneSelector, &'static str>)
        ensures
            match scene_named(value@) {
                Some(s) => scene == Ok::<SceneSelector, &'static str>(s),
                None => scene matches Err(message) && message@ == "Nothing too bad, should use the default scene"@,
            },
    {
        let v = value.as_str();
        if str_equals(v, "m") || str_equals(v, "main") || str_equals(v, "master") {
            Ok(SceneSelector::Main)
        } else if str_equals(v, "experimental") || str_equals(v, "exp") || str_equals(v, "e") {
            Ok(SceneSelector::Experimental)
        } else {
            Err("Nothing too bad, should use the default scene")
        }
    }
}

/// The scene to set up on entering a game: the selected one, the main one by default.
pub fn summon_scene(scene: Option<SceneSelector>) -> (summoned: SceneSelector)
    ensures
        summoned == match scene {
            Some(s) => s,
            None => SceneSelector::Main,
        },
{
    match scene {
        None => SceneSelector::Main,
        Some(s) => s,
    }
}

/// How long a player waits at a spawn point before respawning, in nanoseconds.
pub const RESPAWN_TIMEOUT: u64 = 3500 * NANOS_PER_MILLI;

/// A place where players respawn: whom it holds, and the countdown until they respawn.
#[derive(Clone, Copy, Debug, PartialEq, Eq, Structural)]
pub struct SpawnPoint {
    pub occupant_handle: Option<PlayerHandle>,
    pub timeout: Timer,
}

impl SpawnPoint {
    /// The point after taking in a player: the countdown starts over, running, and is over at
    /// once when the player is to respawn immediately.
    pub open spec fn spec_occupied(self, player: PlayerHandle, immediately: bool) -> SpawnPoint {
        let started = Timer { paused: false, ..self.timeout.spec_reset() };
        SpawnPoint {
            occupant_handle: Some(player),
            timeout: if immediately { started.ticked(started.duration) } else { started },
        }
    }

    /// The point after letting its occupant go: empty, with the countdown paused.
    pub open spec fn spec_freed(self) -> SpawnPoint {
        SpawnPoint { occupant_handle: None, timeout: Timer { paused: true, ..self.timeout } }
    }

    /// Whether nobody occupies the point.
    pub fn is_free(&self) -> (free: bool)
        ensures
            free <==> self.occupant_handle is None,
    {
        self.occupant_handle.is_none()
    }

    /// A player takes the point: the countdown starts over.
    pub fn occupy(&mut self, occupant_handle: PlayerHandle)
        ensures
            *final(self) == old(self).spec_occupied(occupant_handle, false),
    {
        self.occupant_handle = Some(occupant_handle);
        self.timeout.reset();
        self.timeout.unpause();
    }

    /// The occupant leaves; the countdown pauses.
    pub fn free(&mut self)
        ensures
            *final(self) == old(self).spec_freed(),
    {
        self.occupant_handle = None;
        self.timeout.pause();
    }

    /// Advances the countdown; tells whether it is over.
    pub fn tick(&mut self, time_delta: u64) -> (over: bool)
        ensures
            final(self).timeout == old(self).timeout.ticked(time_delta),
            final(self).occupant_handle == old(self).occupant_handle,
            over == final(self).timeout.finished,
    {
        self.timeout.tick(time_delta);
        self.timeout.finished()
    }

    /// Runs the countdown out at once.
    pub fn skip_timeout(&mut self)
        ensures
            final(self).timeout == old(self).timeout.ticked(old(self).timeout.duration),
            final(self).occupant_handle == old(self).occupant_handle,
    {
        let duration = self.timeout.duration();
        self.timeout.tick(duration);
    }
}

impl Default for SpawnPoint {
    /// An empty point with a paused countdown of [`RESPAWN_TIMEOUT`].
    fn default() -> (point: Self)
        ensures
            point.occupant_handle is None,
            point.timeout == (Timer { paused: true, ..Timer::spec_new(RESPAWN_TIMEOUT) }),
    {
        let mut timeout = Timer::new(RESPAWN_TIMEOUT);
        timeout.pause();
        SpawnPoint { occupant_handle: None, timeout }
    }
}

/// Players waiting for a spawn point, first come first served, each with whether it skips the
/// countdown.
#[derive(Debug)]
pub struct SpawnQueue(pub VecDeque<(PlayerHandle, bool)>);

impl Default for SpawnQueue {
    fn default() -> (queue: Self)
        ensures
            queue.0@ == Seq::<(PlayerHandle, bool)>::empty(),
    {
        SpawnQueue(VecDeque::new())
    }
}

/// Whether a player waits in the queue.
pub open spec fn is_queued(queue: Seq<(PlayerHandle, bool)>, player: PlayerHandle) -> bool {
    exists|i: int| 0 <= i < queue.len() && (#[trigger] queue[i]).0 == player
}

/// Whether a player occupies one of the points.
pub open spec fn is_occupying(points: Seq<SpawnPoint>, player: PlayerHandle) -> bool {
    exists|i: int| 0 <= i < points.len() && (#[trigger] points[i]).occupant_handle == Some(player)
}

/// The queue after the requests, in order: a player is queued (with whether to skip the
/// countdown) unless already queued or occupying a point.
pub open spec fn enqueue_all(
    queue: Seq<(PlayerHandle, bool)>,
    points: Seq<SpawnPoint>,
    requests: Seq<(PlayerHandle, bool)>,
) -> Seq<(PlayerHandle, bool)>
    decreases requests.len(),
{
    if requests.len() == 0 {
        queue
    } else {
        let before = enqueue_all(queue, points, requests.drop_last());
        let (player, immediately) = requests.last();
        if is_queued(before, player) || is_occupying(points, player) {
            before
        } else {
            before.push((player, immediately))
        }
    }
}

/// The respawn requests of a frame: joined players (who skip the countdown), then dead ones.
pub open spec fn respawn_requests(joined: Seq<PlayerJoined>, died: Seq<PlayerDied>) -> Seq<(PlayerHandle, bool)> {
    joined.map_values(|e: PlayerJoined| (e.player_handle, true)) + died.map_values(
        |e: PlayerDied| (e.player_handle, false),
    )
}

/// The free points, in the given order.
pub open spec fn free_in_order(points: Seq<SpawnPoint>, order: Seq<usize>) -> Seq<usize>
    decreases order.len(),
{
    if order.len() == 0 {
        Seq::empty()
    } else {
        let before = free_in_order(points, order.drop_last());
        if points[order.last() as int].occupant_handle is None {
            before.push(order.last())
        } else {
            before
        }
    }
}

/// The number of waiting players that get a point: one per free point, as long as there are
/// players waiting.
pub open spec fn assigned_count(points: Seq<SpawnPoint>, queue: Seq<(PlayerHandle, bool)>, order: Seq<usize>) -> int {
    let free = free_in_order(points, order);
    if free.len() < queue.len() {
        free.len() as int
    } else {
        queue.len() as int
    }
}

/// Whether `after` is `before` with the first `n` waiting players put, in turn, on the free
/// points in the given order, every other point unchanged.
pub open spec fn points_assigned(
    before: Seq<SpawnPoint>,
    after: Seq<SpawnPoint>,
    queue: Seq<(PlayerHandle, bool)>,
    order: Seq<usize>,
) -> bool {
    let free = free_in_order(before, order);
    let n = assigned_count(before, queue, order);
    &&& after.len() == before.len()
    &&& forall|k: int| 0 <= k < n ==> #[trigger] after[free[k] as int] == before[free[k] as int].spec_occupied(
        queue[k].0,
        queue[k].1,
    )
    &&& forall|p: int| 0 <= p < before.len() && !(exists|k: int| 0 <= k < n && #[trigger] free[k] == p)
        ==> #[trigger] after[p] == before[p]
}

proof fn lemma_free_in_order_step(points: Seq<SpawnPoint>, order: Seq<usize>, i: int)
    requires
        0 <= i < order.len(),
    ensures
        free_in_order(points, order.subrange(0, i + 1)) == if points[order[i] as int].occupant_handle is None {
            free_in_order(points, order.subrange(0, i)).push(order[i])
        } else {
            free_in_order(points, order.subrange(0, i))
        },
{
    assert(order.subrange(0, i + 1).drop_last() =~= order.subrange(0, i));
}

proof fn lemma_free_in_order_facts(points: Seq<SpawnPoint>, order: Seq<usize>)
    requires
        forall|i: int| 0 <= i < order.len() ==> #[trigger] order[i] < points.len(),
        forall|i: int, j: int| 0 <= i < j < order.len() ==> order[i] != order[j],
    ensures
        free_in_order(points, order).len() <= order.len(),
        forall|k: int| 0 <= k < free_in_order(points, order).len() ==> {
            &&& #[trigger] free_in_order(points, order)[k] < points.len()
            &&& points[free_in_order(points, order)[k] as int].occupant_handle is None
            &&& order.contains(free_in_order(points, order)[k])
        },
        forall|k: int, l: int| 0 <= k < l < free_in_order(points, order).len() ==> free_in_order(points, order)[k]
            != free_in_order(points, order)[l],
    decreases order.len(),
{
    if order.len() > 0 {
        let rest = order.drop_last();
        lemma_free_in_order_facts(points, rest);
        let before = free_in_order(points, rest);
        assert forall|k: int| 0 <= k < before.len() implies before[k] != order.last() by {
            assert(rest.contains(before[k]));
            let w = choose|w: int| 0 <= w < rest.len() && rest[w] == before[k];
            assert(order[w] == rest[w]);
        }
        assert forall|k: int| 0 <= k < before.len() implies order.contains(#[trigger] before[k]) by {
            assert(rest.contains(before[k]));
            let w = choose|w: int| 0 <= w < rest.len() && rest[w] == before[k];
            assert(order[w] == before[k]);
        }
        assert(order[order.len() - 1] == order.last());
    }
}

/// Puts the waiting players on the free points, visiting the points in the given order: each
/// free point takes the first waiting player (its countdown run out at once for a player that
/// skips it), until no player waits. Returns the points that were taken.
pub fn assign_spawn_points(points: &mut Vec<SpawnPoint>, queue: &mut SpawnQueue, order: &Vec<usize>) -> (taken: Vec<usize>)
    requires
        is_permutation_of_range(order@, old(points)@.len()),
    ensures
        points_assigned(old(points)@, final(points)@, old(queue).0@, order@),
        final(queue).0@ == old(queue).0@.skip(assigned_count(old(points)@, old(queue).0@, order@)),
        taken@ == free_in_order(old(points)@, order@).take(assigned_count(old(points)@, old(queue).0@, order@)),
{
    let ghost start = points@;
    let ghost waiting = queue.0@;
    proof {
        lemma_free_in_order_facts(start, order@);
    }
    let mut taken: Vec<usize> = Vec::new();
    let mut i: usize = 0;
    while i < order.len()
        invariant
            is_permutation_of_range(order@, start.len()),
            i <= order@.len(),
            points@.len() == start.len(),
            taken@ == free_in_order(start, order@.subrange(0, i as int)).take(taken@.len() as int),
            taken@.len() <= waiting.len(),
            taken@.len() < free_in_order(start, order@.subrange(0, i as int)).len() ==> taken@.len() == waiting.len(),
            taken@.len() <= free_in_order(start, order@.subrange(0, i as int)).len(),
            queue.0@ == waiting.skip(taken@.len() as int),
            forall|k: int| 0 <= k < taken@.len() ==> #[trigger] points@[taken@[k] as int] == start[taken@[k] as int].spec_occupied(
                waiting[k].0,
                waiting[k].1,
            ),
            forall|p: int| 0 <= p < start.len() && !taken@.contains(p as usize) ==> #[trigger] points@[p] == start[p],
            forall|k: int, l: int| 0 <= k < l < taken@.len() ==> taken@[k] != taken@[l],
            forall|k: int| 0 <= k < taken@.len() ==> #[trigger] taken@[k] < start.len(),
        decreases order@.len() - i,
    {
        let p = order[i];
        proof {
            lemma_free_in_order_step(start, order@, i as int);
            lemma_free_in_order_facts(start, order@.subrange(0, i + 1));
        }
        proof {
            if taken@.contains(p) {
                let w = choose|w: int| 0 <= w < taken@.len() && taken@[w] == p;
                assert(order@.subrange(0, i as int).contains(p)) by {
                    lemma_free_in_order_facts(start, order@.subrange(0, i as int));
                    assert(free_in_order(start, order@.subrange(0, i as int))[w] == p);
                }
                let v = choose|v: int| 0 <= v < i && order@.subrange(0, i as int)[v] == p;
                assert(order@[v] == order@[i as int]);
            }
            assert(points@[p as int] == start[p as int]);
        }
        if points[p].is_free() {
            match queue.0.pop_front() {
                Some((player, immediately)) => {
                    let ghost before_taken = taken@;
                    let ghost before_points = points@;
                    proof {
                        assert(before_taken.len() < waiting.len());
                    }
                    let mut point = points[p];
                    point.occupy(player);
                    if immediately {
                        point.skip_timeout();
                    }
                    points.set(p, point);
                    taken.push(p);
                    proof {
                        assert(points@ == before_points.update(p as int, point));
                        assert(taken@[taken@.len() - 1] == p);
                        assert(waiting[before_taken.len() as int] == (player, immediately));
                        assert(queue.0@ =~= waiting.skip(taken@.len() as int));
                        assert forall|q: int| 0 <= q < start.len() && !taken@.contains(q as usize) implies #[trigger] points@[q]
                            == start[q] by {
                            assert(!before_taken.contains(q as usize)) by {
                                if before_taken.contains(q as usize) {
                                    let w = choose|w: int| 0 <= w < before_taken.len() && before_taken[w] == q as usize;
                                    assert(taken@[w] == q as usize);
                                }
                            }
                        }
                        assert forall|k: int| 0 <= k < taken@.len() implies #[trigger] points@[taken@[k] as int]
                            == start[taken@[k] as int].spec_occupied(waiting[k].0, waiting[k].1) by {
                            if k < before_taken.len() {
                                assert(taken@[k] == before_taken[k]);
                                assert(before_taken[k] != p);
                            }
                        }
                        assert(taken@ =~= free_in_order(start, order@.subrange(0, i + 1)).take(taken@.len() as int));
                    }
                },
                None => {
                    proof {
                        assert(taken@.len() == waiting.len());
                    }
                },
            }
        }
        i = i + 1;
    }
    proof {
        assert(order@.subrange(0, order@.len() as int) =~= order@);
        let free = free_in_order(start, order@);
        let n = assigned_count(start, waiting, order@);
        assert(taken@.len() == n);
        assert forall|k: int| 0 <= k < n implies #[trigger] free[k] == taken@[k] by {}
        assert forall|q: int| 0 <= q < start.len() && !(exists|k: int| 0 <= k < n && #[trigger] free[k] == q)
            implies #[trigger] points@[q] == start[q] by {
            if taken@.contains(q as usize) {
                let w = choose|w: int| 0 <= w < taken@.len() && taken@[w] == q as usize;
                assert(free[w] == q);
            }
        }
    }
    taken
}

fn queued(queue: &SpawnQueue, player: PlayerHandle) -> (b: bool)
    ensures
        b <==> is_queued(queue.0@, player),
{
    let mut i: usize = 0;
    while i < queue.0.len()
        invariant
            i <= queue.0@.len(),
            forall|j: int| 0 <= j < i ==> (#[trigger] queue.0@[j]).0 != player,
        decreases queue.0@.len() - i,
    {
        if queue.0[i].0 == player {
            assert(queue.0@[i as int].0 == player);
            return true;
        }
        i = i + 1;
    }
    false
}

fn occupying(points: &Vec<SpawnPoint>, player: PlayerHandle) -> (b: bool)
    ensures
        b <==> is_occupying(points@, player),
{
    let mut i: usize = 0;
    while i < points.len()
        invariant
            i <= points@.len(),
            forall|j: int| 0 <= j < i ==> (#[trigger] points@[j]).occupant_handle != Some(player),
        decreases points@.len() - i,
    {
        if points[i].occupant_handle == Some(player) {
            assert(points@[i as int].occupant_handle == Some(player));
            return true;
        }
        i = i + 1;
    }
    false
}

/// Every player is in at most one place: waiting once in the queue, or at one spawn point.
pub open spec fn spawn_state_wf(points: Seq<SpawnPoint>, queue: Seq<(PlayerHandle, bool)>) -> bool {
    &&& forall|i: int, j: int| 0 <= i < j < queue.len() ==> (#[trigger] queue[i]).0 != (#[trigger] queue[j]).0
    &&& forall|i: int, j: int| 0 <= i < j < points.len() && (#[trigger] points[i]).occupant_handle is Some
        ==> points[i].occupant_handle != (#[trigger] points[j]).occupant_handle
    &&& forall|i: int| 0 <= i < queue.len() ==> !is_occupying(points, (#[trigger] queue[i]).0)
}

/// Queueing respawn requests keeps every player in at most one place, and afterwards each
/// requested player waits in the queue or holds a point.
pub proof fn lemma_enqueue_keeps_players_unique(
    points: Seq<SpawnPoint>,
    queue: Seq<(PlayerHandle, bool)>,
    requests: Seq<(PlayerHandle, bool)>,
)
    requires
        spawn_state_wf(points, queue),
    ensures
        spawn_state_wf(points, enqueue_all(queue, points, requests)),
        forall|r: int| 0 <= r < requests.len() ==> is_queued(enqueue_all(queue, points, requests), (#[trigger] requests[r]).0)
            || is_occupying(points, requests[r].0),
        forall|i: int| 0 <= i < queue.len() ==> #[trigger] enqueue_all(queue, points, requests)[i] == queue[i],
        enqueue_all(queue, points, requests).len() >= queue.len(),
    decreases requests.len(),
{
    if requests.len() > 0 {
        let rest = requests.drop_last();
        lemma_enqueue_keeps_players_unique(points, queue, rest);
        let before = enqueue_all(queue, points, rest);
        let (player, immediately) = requests.last();
        let after = enqueue_all(queue, points, requests);
        if !(is_queued(before, player) || is_occupying(points, player)) {
            assert(after == before.push((player, immediately)));
            assert forall|i: int, j: int| 0 <= i < j < after.len() implies (#[trigger] after[i]).0 != (#[trigger] after[j]).0 by {
                if j == before.len() {
                    assert(before[i] == after[i]);
                }
            }
            assert forall|i: int| 0 <= i < after.len() implies !is_occupying(points, (#[trigger] after[i]).0) by {
                if i < before.len() {
                    assert(before[i] == after[i]);
                }
            }
        }
        assert forall|r: int| 0 <= r < requests.len() implies is_queued(after, (#[trigger] requests[r]).0)
            || is_occupying(points, requests[r].0) by {
            if r < rest.len() {
                assert(rest[r] == requests[r]);
                if is_queued(before, rest[r].0) {
                    let w = choose|w: int| 0 <= w < before.len() && (#[trigger] before[w]).0 == rest[r].0;
                    assert(after[w] == before[w]);
                }
            } else if !(is_queued(before, player) || is_occupying(points, player)) {
                assert(after[before.len() as int].0 == player);
            } else if is_queued(before, player) {
                let w = choose|w: int| 0 <= w < before.len() && (#[trigger] before[w]).0 == player;
                assert(after[w] == before[w]);
            }
        }
    }
}

/// Putting waiting players on free points keeps every player in at most one place: the
/// players taken leave the queue for distinct points that were free.
pub proof fn lemma_assignment_keeps_players_unique(
    before: Seq<SpawnPoint>,
    after: Seq<SpawnPoint>,
    queue: Seq<(PlayerHandle, bool)>,
    order: Seq<usize>,
)
    requires
        spawn_state_wf(before, queue),
        is_permutation_of_range(order, before.len()),
        points_assigned(before, after, queue, order),
    ensures
        spawn_state_wf(after, queue.skip(assigned_count(before, queue, order))),
        forall|i: int| 0 <= i < queue.len() ==> is_queued(queue.skip(assigned_count(before, queue, order)), (#[trigger] queue[i]).0)
            || is_occupying(after, queue[i].0),
        forall|p: PlayerHandle| is_occupying(before, p) ==> #[trigger] is_occupying(after, p),
{
    lemma_free_in_order_facts(before, order);
    let free = free_in_order(before, order);
    let n = assigned_count(before, queue, order);
    let rest = queue.skip(n);
    assert forall|p: int| 0 <= p < before.len() && before[p].occupant_handle is Some implies #[trigger] after[p] == before[p] by {
        if exists|k: int| 0 <= k < n && #[trigger] free[k] == p {
            let k = choose|k: int| 0 <= k < n && #[trigger] free[k] == p;
            assert(before[free[k] as int].occupant_handle is None);
        }
    }
    // Where a point holds someone afterwards: the same as before, or a newly taken player.
    assert forall|p: int| 0 <= p < before.len() && (#[trigger] after[p]).occupant_handle is Some implies
        after[p] == before[p] || exists|k: int| 0 <= k < n && free[k] == p && after[p].occupant_handle == Some(#[trigger] queue[k].0) by {
        if exists|k: int| 0 <= k < n && #[trigger] free[k] == p {
            let k = choose|k: int| 0 <= k < n && #[trigger] free[k] == p;
            assert(after[free[k] as int].occupant_handle == Some(queue[k].0));
        }
    }
    assert forall|i: int, j: int| 0 <= i < j < after.len() && (#[trigger] after[i]).occupant_handle is Some
        implies after[i].occupant_handle != (#[trigger] after[j]).occupant_handle by {
        if after[i].occupant_handle == after[j].occupant_handle {
            let h = after[i].occupant_handle->0;
            if after[i] == before[i] && after[j] == before[j] {
            } else if after[i] == before[i] {
                let l = choose|l: int| 0 <= l < n && free[l] == j && after[j].occupant_handle == Some(#[trigger] queue[l].0);
                assert(is_occupying(before, queue[l].0)) by {
                    assert(before[i].occupant_handle == Some(queue[l].0));
                }
            } else if after[j] == before[j] {
                let k = choose|k: int| 0 <= k < n && free[k] == i && after[i].occupant_handle == Some(#[trigger] queue[k].0);
                assert(is_occupying(before, queue[k].0)) by {
                    assert(before[j].occupant_handle == Some(queue[k].0));
                }
            } else {
                let k = choose|k: int| 0 <= k < n && free[k] == i && after[i].occupant_handle == Some(#[trigger] queue[k].0);
                let l = choose|l: int| 0 <= l < n && free[l] == j && after[j].occupant_handle == Some(#[trigger] queue[l].0);
                if k < l {
                    assert(queue[k].0 != queue[l].0);
                } else if l < k {
                    assert(queue[l].0 != queue[k].0);
                }
            }
        }
    }
    assert forall|i: int, j: int| 0 <= i < j < rest.len() implies (#[trigger] rest[i]).0 != (#[trigger] rest[j]).0 by {
        assert(rest[i] == queue[i + n]);
        assert(rest[j] == queue[j + n]);
    }
    assert forall|i: int| 0 <= i < rest.len() implies !is_occupying(after, (#[trigger] rest[i]).0) by {
        assert(rest[i] == queue[i + n]);
        if is_occupying(after, rest[i].0) {
            let p = choose|p: int| 0 <= p < after.len() && (#[trigger] after[p]).occupant_handle == Some(rest[i].0);
            if after[p] == before[p] {
                assert(is_occupying(before, queue[i + n].0));
            } else {
                let k = choose|k: int| 0 <= k < n && free[k] == p && after[p].occupant_handle == Some(#[trigger] queue[k].0);
                assert(queue[k].0 != queue[i + n].0);
            }
        }
    }
    assert forall|i: int| 0 <= i < queue.len() implies is_queued(rest, (#[trigger] queue[i]).0) || is_occupying(after, queue[i].0) by {
        if i < n {
            assert(after[free[i] as int].occupant_handle == Some(queue[i].0));
        } else {
            assert(rest[i - n] == queue[i]);
        }
    }
    assert forall|p: PlayerHandle| is_occupying(before, p) implies #[trigger] is_occupying(after, p) by {
        let w = choose|w: int| 0 <= w < before.len() && (#[trigger] before[w]).occupant_handle == Some(p);
        assert(after[w] == before[w]);
    }
}

/// Queues a player for respawning unless already queued or occupying a point.
fn queue_for_respawn(queue: &mut SpawnQueue, points: &Vec<SpawnPoint>, player: PlayerHandle, immediately: bool)
    ensures
        final(queue).0@ == if is_queued(old(queue).0@, player) || is_occupying(points@, player) {
            old(queue).0@
        } else {
            old(queue).0@.push((player, immediately))
        },
{
    if !queued(queue, player) && !occupying(points, player) {
        queue.0.push_back((player, immediately));
    }
}

/// Queues the players of the frame's joins (who skip the countdown), then of its deaths, each
/// unless already queued or occupying a point.
pub fn enqueue_respawns(queue: &mut SpawnQueue, points: &Vec<SpawnPoint>, joined: &Vec<PlayerJoined>, died: &Vec<PlayerDied>)
    ensures
        final(queue).0@ == enqueue_all(old(queue).0@, points@, respawn_requests(joined@, died@)),
{
    let ghost q0 = queue.0@;
    let ghost requests = respawn_requests(joined@, died@);
    let mut i: usize = 0;
    while i < joined.len()
        invariant
            i <= joined@.len(),
            requests == respawn_requests(joined@, died@),
            queue.0@ == enqueue_all(q0, points@, requests.subrange(0, i as int)),
        decreases joined@.len() - i,
    {
        proof {
            assert(requests.subrange(0, i + 1).drop_last() =~= requests.subrange(0, i as int));
            assert(requests[i as int] == (joined@[i as int].player_handle, true));
        }
        queue_for_respawn(queue, points, joined[i].player_handle, true);
        i = i + 1;
    }
    let mut k: usize = 0;
    while k < died.len()
        invariant
            k <= died@.len(),
            requests == respawn_requests(joined@, died@),
            requests.len() == joined@.len() + died@.len(),
            queue.0@ == enqueue_all(q0, points@, requests.subrange(0, joined@.len() + k)),
        decreases died@.len() - k,
    {
        proof {
            let n = joined@.len() + k;
            assert(requests.subrange(0, n + 1).drop_last() =~= requests.subrange(0, n));
            assert(requests[n] == (died@[k as int].player_handle, false));
        }
        queue_for_respawn(queue, points, died[k].player_handle, false);
        k = k + 1;
    }
    proof {
        assert(requests.subrange(0, requests.len() as int) =~= requests);
    }
}

/// Queues the frame's joined and dead players for respawning (see [`enqueue_respawns`]) and,
/// when anybody waits, puts the waiting players on the free spawn points visited in the order
/// the match's generator shuffles the points into (see [`assign_spawn_points`]). Returns the
/// points that were taken.
pub fn handle_respawn_point_occupation(
    joined: &Vec<PlayerJoined>,
    died: &Vec<PlayerDied>,
    points: &mut Vec<SpawnPoint>,
    entropy: &mut EntropyGenerator,
    queue: &mut SpawnQueue,
) -> (taken: Vec<usize>)
    ensures
        ({
            let waiting = enqueue_all(old(queue).0@, old(points)@, respawn_requests(joined@, died@));
            let (order, rng_after) = shuffled(old(entropy).0, index_range(old(points)@.len()));
            if waiting.len() == 0 {
                &&& final(points)@ == old(points)@
                &&& final(queue).0@ == waiting
                &&& taken@.len() == 0
                &&& final(entropy).0 == old(entropy).0
            } else {
                &&& is_permutation_of_range(order, old(points)@.len())
                &&& points_assigned(old(points)@, final(points)@, waiting, order)
                &&& final(queue).0@ == waiting.skip(assigned_count(old(points)@, waiting, order))
                &&& taken@ == free_in_order(old(points)@, order).take(assigned_count(old(points)@, waiting, order))
                &&& final(entropy).0 == rng_after
            }
        }),
        spawn_state_wf(old(points)@, old(queue).0@) ==> {
            &&& spawn_state_wf(final(points)@, final(queue).0@)
            &&& forall|r: int| 0 <= r < respawn_requests(joined@, died@).len() ==> is_queued(
                final(queue).0@,
                (#[trigger] respawn_requests(joined@, died@)[r]).0,
            ) || is_occupying(final(points)@, respawn_requests(joined@, died@)[r].0)
        },
{
    let ghost requests = respawn_requests(joined@, died@);
    let ghost p0 = points@;
    let ghost q0 = queue.0@;
    proof {
        if spawn_state_wf(points@, queue.0@) {
            lemma_enqueue_keeps_players_unique(points@, queue.0@, requests);
        }
    }
    enqueue_respawns(queue, points, joined, died);
    if queue.0.len() == 0 {
        proof {
            assert forall|r: int| 0 <= r < requests.len() && is_queued(queue.0@, requests[r].0) implies false by {
                let w = choose|w: int| 0 <= w < queue.0@.len() && (#[trigger] queue.0@[w]).0 == requests[r].0;
            }
        }
        return Vec::new();
    }
    let ghost before_points = points@;
    let ghost waiting = queue.0@;
    let order = entropy.shuffled_indices(points.len());
    let taken = assign_spawn_points(points, queue, &order);
    proof {
        if spawn_state_wf(p0, q0) {
            lemma_assignment_keeps_players_unique(before_points, points@, waiting, order@);
            assert forall|r: int| 0 <= r < requests.len() implies is_queued(queue.0@, (#[trigger] requests[r]).0)
                || is_occupying(points@, requests[r].0) by {
                if is_queued(waiting, requests[r].0) {
                    let w = choose|w: int| 0 <= w < waiting.len() && (#[trigger] waiting[w]).0 == requests[r].0;
                    assert(is_queued(queue.0@, waiting[w].0) || is_occupying(points@, waiting[w].0));
                } else {
                    assert(is_occupying(before_points, requests[r].0));
                }
            }
        }
        assert(is_permutation_of_range(order@, before_points.len()));
    }
    taken
}

/// Letting occupants go keeps every player in at most one place.
pub proof fn lemma_freeing_keeps_players_unique(
    before: Seq<SpawnPoint>,
    after: Seq<SpawnPoint>,
    queue: Seq<(PlayerHandle, bool)>,
)
    requires
        spawn_state_wf(before, queue),
        after.len() == before.len(),
        forall|i: int| 0 <= i < before.len() ==> (#[trigger] after[i]).occupant_handle == before[i].occupant_handle
            || after[i].occupant_handle is None,
    ensures
        spawn_state_wf(after, queue),
{
    assert forall|i: int| 0 <= i < queue.len() implies !is_occupying(after, (#[trigger] queue[i]).0) by {
        if is_occupying(after, queue[i].0) {
            let p = choose|p: int| 0 <= p < after.len() && (#[trigger] after[p]).occupant_handle == Some(queue[i].0);
            assert(before[p].occupant_handle == Some(queue[i].0));
        }
    }
    assert forall|i: int, j: int| 0 <= i < j < after.len() && (#[trigger] after[i]).occupant_handle is Some
        implies after[i].occupant_handle != (#[trigger] after[j]).occupant_handle by {
        assert(before[i].occupant_handle == after[i].occupant_handle);
    }
}

/// A player who respawns: at which point, with which team and loadout.
#[derive(Debug)]
pub struct Respawn {
    /// The point the player respawns at.
    pub point: usize,
    pub player_handle: PlayerHandle,
    /// The team the player is registered with.
    pub team: Team,
    /// Whether the player is the local one.
    pub is_local: bool,
    /// The gun the player respawns with.
    pub gun: GunPreset,
    /// The randomness given to the respawned character.
    pub entropy: EntropyGenerator,
}

/// The generator a respawn hands to the character: forked from the match's generator.
pub open spec fn respawn_entropy(rng: StdRng) -> StdRng {
    forked_rng(rng).0
}

/// The gun a respawn draws from the match's generator, after the fork.
pub open spec fn respawn_gun(rng: StdRng) -> GunPreset {
    preset_at(drawn_below(forked_rng(rng).1, GUN_PRESET_COUNT as u64).0 as int)
}

/// The match's generator after `count` respawns, each forking a generator for the character and
/// then drawing its gun.
pub open spec fn rng_after_respawns(rng: StdRng, count: nat) -> StdRng
    decreases count,
{
    if count == 0 {
        rng
    } else {
        let before = rng_after_respawns(rng, (count - 1) as nat);
        drawn_below(forked_rng(before).1, GUN_PRESET_COUNT as u64).1
    }
}

/// The occupant of every occupied point whose countdown a frame of `frame` nanoseconds runs
/// out (counting down only at occupied points) respawns there, with its registered team and a
/// random gun, and the point is freed. Returns the respawns, in the order of the points; each
/// forks a generator for its character from the match's generator and then draws its gun from
/// it, in that order.
pub fn handle_player_respawning(
    points: &mut Vec<SpawnPoint>,
    players: &PlayerRegistry,
    local_player: PlayerHandle,
    entropy: &mut EntropyGenerator,
    frame: u64,
) -> (respawns: Vec<Respawn>)
    requires
        forall|i: int| 0 <= i < old(points)@.len() ==> match (#[trigger] old(points)@[i]).occupant_handle {
            Some(h) => h < players.0@.len(),
            None => true,
        },
    ensures
        final(points)@.len() == old(points)@.len(),
        forall|i: int| 0 <= i < old(points)@.len() ==> #[trigger] final(points)@[i] == {
            let point = old(points)@[i];
            if point.occupant_handle is None {
                point
            } else if point.timeout.ticked(frame).finished {
                SpawnPoint { timeout: point.timeout.ticked(frame), ..point }.spec_freed()
            } else {
                SpawnPoint { timeout: point.timeout.ticked(frame), ..point }
            }
        },
        forall|k: int| 0 <= k < respawns@.len() ==> {
            let r = #[trigger] respawns@[k];
            &&& r.point < old(points)@.len()
            &&& old(points)@[r.point as int].occupant_handle == Some(r.player_handle)
            &&& old(points)@[r.point as int].timeout.ticked(frame).finished
            &&& r.team == players.0@[r.player_handle as int].team
            &&& r.is_local == (r.player_handle == local_player)
            &&& r.entropy.0 == respawn_entropy(rng_after_respawns(old(entropy).0, k as nat))
            &&& r.gun == respawn_gun(rng_after_respawns(old(entropy).0, k as nat))
        },
        final(entropy).0 == rng_after_respawns(old(entropy).0, respawns@.len()),
        forall|k: int, l: int| 0 <= k < l < respawns@.len() ==> respawns@[k].point < respawns@[l].point,
        forall|i: int| 0 <= i < old(points)@.len() && old(points)@[i].occupant_handle is Some
            && old(points)@[i].timeout.ticked(frame).finished ==> exists|k: int| 0 <= k < respawns@.len()
            && #[trigger] respawns@[k].point == i,
{
    let ghost start = points@;
    let ghost e0 = entropy.0;
    let mut respawns: Vec<Respawn> = Vec::new();
    let mut i: usize = 0;
    while i < points.len()
        invariant
            i <= points@.len() == start.len(),
            forall|j: int| 0 <= j < start.len() ==> match (#[trigger] start[j]).occupant_handle {
                Some(h) => h < players.0@.len(),
                None => true,
            },
            forall|j: int| i <= j < start.len() ==> #[trigger] points@[j] == start[j],
            forall|j: int| 0 <= j < i ==> #[trigger] points@[j] == {
                let point = start[j];
                if point.occupant_handle is None {
                    point
                } else if point.timeout.ticked(frame).finished {
                    SpawnPoint { timeout: point.timeout.ticked(frame), ..point }.spec_freed()
                } else {
                    SpawnPoint { timeout: point.timeout.ticked(frame), ..point }
                }
            },
            forall|k: int| 0 <= k < respawns@.len() ==> {
                let r = #[trigger] respawns@[k];
                &&& r.point < i
                &&& start[r.point as int].occupant_handle == Some(r.player_handle)
                &&& start[r.point as int].timeout.ticked(frame).finished
                &&& r.team == players.0@[r.player_handle as int].team
                &&& r.is_local == (r.player_handle == local_player)
                &&& r.entropy.0 == respawn_entropy(rng_after_respawns(e0, k as nat))
                &&& r.gun == respawn_gun(rng_after_respawns(e0, k as nat))
            },
            entropy.0 == rng_after_respawns(e0, respawns@.len()),
            forall|k: int, l: int| 0 <= k < l < respawns@.len() ==> respawns@[k].point < respawns@[l].point,
            forall|j: int| 0 <= j < i && start[j].occupant_handle is Some && start[j].timeout.ticked(frame).finished
                ==> exists|k: int| 0 <= k < respawns@.len() && #[trigger] respawns@[k].point == j,
        decreases start.len() - i,
    {
        let mut point = points[i];
        match point.occupant_handle {
            None => {},
            Some(player_handle) => {
                let over = point.tick(frame);
                if over {
                    let team = players.0[player_handle].team;
                    let character_entropy = entropy.fork();
                    let gun = GunPreset::random(entropy);
                    let ghost before = respawns@;
                    respawns.push(Respawn {
                        point: i,
                        player_handle,
                        team,
                        is_local: player_handle == local_player,
                        gun,
                        entropy: character_entropy,
                    });
                    point.free();
                    proof {
                        assert(respawns@[before.len() as int].point == i);
                        assert(rng_after_respawns(e0, respawns@.len()) == drawn_below(
                            forked_rng(rng_after_respawns(e0, before.len())).1,
                            GUN_PRESET_COUNT as u64,
                        ).1);
                        assert forall|j: int| 0 <= j < i + 1 && start[j].occupant_handle is Some
                            && start[j].timeout.ticked(frame).finished implies exists|k: int| 0 <= k < respawns@.len()
                            && #[trigger] respawns@[k].point == j by {
                            if j < i {
                                let k = choose|k: int| 0 <= k < before.len() && #[trigger] before[k].point == j;
                                assert(respawns@[k].point == j);
                            } else {
                                assert(respawns@[before.len() as int].point == j);
                            }
                        }
                    }
                }
                points.set(i, point);
            },
        }
        i = i + 1;
    }
    respawns
}

/// Empties the spawn queue.
pub fn reset_spawn_queue(queue: &mut SpawnQueue)
    ensures
        final(queue).0@ == Seq::<(PlayerHandle, bool)>::empty(),
{
    queue.0.clear();
}

} // verus!
