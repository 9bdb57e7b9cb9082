//! Worker agents and their behavioural lifecycle.
//!
//! A worker starts **Foraging**: it claims the first unclaimed currency
//! pickup within its detection box, walks straight toward it, and on arrival
//! collects it and becomes **Employed**.  An employed worker holding a coin
//! is assigned to the first house with room and becomes **Working**.  A
//! working worker claims the first unassigned crop plot and commutes between
//! it and its house, gated by the world clock's work window.
//!
//! State transitions and pickup despawns are deferred: a stage records them,
//! and they take effect at the end of the tick, so each stage sees the
//! states the tick started with.

use vstd::prelude::*;
use crate::geom::Pos;
use crate::geom::Tile;
use crate::geom::unit_axis_s;
use crate::geom::unit_milli;
use crate::geom::step_axis_const;
use crate::geom::step_axis_decay;
use crate::geom::MILLI;
use crate::geom::MAX_TICK_MS;
use crate::player::CoinsSpawned;

verus! {

/// Half-width of the box, in milli-units, within which a forager notices a
/// pickup (8 tiles, on each axis separately).
pub const WORKER_VIEW_DISTANCE: i64 = 8000;

/// A forager within this distance of its claimed pickup collects it
/// (0.1 tile).
pub const COIN_COLLECT_OFFSET: i64 = 100;

/// A working agent within this distance of its plot counts as tending it
/// (1 tile).
pub const CROP_NEAR_DISTANCE: i64 = 1000;

/// The lifecycle states, in the order they are reached; there is no way
/// back.
#[derive(Clone, Copy, PartialEq, Eq, Structural, Debug)]
pub enum WorkerState {
    Foraging,
    Employed,
    Working,
}

/// Per-agent fields of the behavioural state machine.
#[derive(Clone, Copy, PartialEq, Eq, Structural, Debug)]
pub struct WorkerData {
    /// Currency the agent holds; an agent stops foraging at one unit.
    pub coins: i32,
    /// Tile of the assigned house; (0, 0) until one is assigned.
    pub house_pos: Tile,
    pub house_assigned: bool,
    /// Position of the claimed crop plot, while one is claimed.
    pub target_crop_pos: Option<Pos>,
    /// Identity of the claimed crop plot.
    pub target_crop_entity: Option<u64>,
    /// The agent is close enough to its plot to be tending it.
    pub target_crop_active: bool,
    /// Position of the claimed pickup, while one is claimed.
    pub target_coin_pos: Option<Pos>,
    /// Unit direction (milli-scaled) from the pickup toward the agent's
    /// position at claim time; the agent walks against it.
    pub target_coin_dir: Option<Pos>,
    /// Identity of the claimed pickup.
    pub target_coin_entity: Option<u64>,
}

/// A worker agent entity.
#[derive(Clone, Copy, PartialEq, Eq, Structural, Debug)]
pub struct Worker {
    pub id: u64,
    pub pos: Pos,
    /// State the stages of the current tick see.
    pub state: WorkerState,
    /// State the agent will hold from the next tick on; stages record
    /// transitions here and the end of the tick commits them.
    pub state_next: WorkerState,
    pub data: WorkerData,
}

/// An ephemeral currency pickup entity at a tile.
#[derive(Clone, Copy, PartialEq, Eq, Structural, Debug)]
pub struct CoinPickup {
    pub id: u64,
    pub pos: Pos,
    /// The tile the pickup was dropped on, tracked in the drop-position set.
    pub tile: Tile,
    /// Queued for removal at the end of the tick.
    pub despawned: bool,
}

/// How many workers the town's housing allows for.
#[derive(Clone, Copy, PartialEq, Eq, Structural, Debug)]
pub struct WorkerAmount {
    pub total: i32,
}

/// A state transition a stage may record: stay, or advance one step.
pub open spec fn valid_transition_s(a: WorkerState, b: WorkerState) -> bool {
    ||| b == a
    ||| (a == WorkerState::Foraging && b == WorkerState::Employed)
    ||| (a == WorkerState::Employed && b == WorkerState::Working)
}

impl Worker {
    pub open spec fn wf(self) -> bool {
        &&& self.pos.wf()
        &&& 0 <= self.data.coins <= 1
        &&& valid_transition_s(self.state, self.state_next)
        &&& (self.data.target_coin_pos is Some <==> self.data.target_coin_entity is Some)
        &&& (self.data.target_coin_dir is Some <==> self.data.target_coin_entity is Some)
        &&& (self.data.target_coin_entity is Some ==> self.data.coins == 0)
        &&& (match self.data.target_coin_pos {
            Some(p) => p.wf(),
            None => true,
        })
        &&& (match self.data.target_coin_dir {
            Some(d) => -MILLI <= d.x <= MILLI && -MILLI <= d.y <= MILLI,
            None => true,
        })
        &&& (self.data.target_crop_pos is Some <==> self.data.target_crop_entity is Some)
        &&& (match self.data.target_crop_pos {
            Some(p) => p.wf(),
            None => true,
        })
    }

    /// A freshly spawned agent: foraging, empty-handed, unhoused, with no
    /// targets.
    pub open spec fn fresh_s(id: u64, pos: Pos) -> Worker {
        Worker {
            id,
            pos,
            state: WorkerState::Foraging,
            state_next: WorkerState::Foraging,
            data: WorkerData {
                coins: 0,
                house_pos: Tile { x: 0, y: 0 },
                house_assigned: false,
                target_crop_pos: None,
                target_crop_entity: None,
                target_crop_active: false,
                target_coin_pos: None,
                target_coin_dir: None,
                target_coin_entity: None,
            },
        }
    }

    pub fn fresh(id: u64, pos: Pos) -> (w: Worker)
        requires
            pos.wf(),
        ensures
            w == Worker::fresh_s(id, pos),
            w.wf(),
    {
        Worker {
            id,
            pos,
            state: WorkerState::Foraging,
            state_next: WorkerState::Foraging,
            data: WorkerData {
                coins: 0,
                house_pos: Tile { x: 0, y: 0 },
                house_assigned: false,
                target_crop_pos: None,
                target_crop_entity: None,
                target_crop_active: false,
                target_coin_pos: None,
                target_coin_dir: None,
                target_coin_entity: None,
            },
        }
    }
}

/// Some agent currently holds `id` as its claimed pickup.
pub open spec fn claimed_s(ws: Seq<Worker>, id: u64) -> bool {
    exists|k: int|
        0 <= k < ws.len() && (#[trigger] ws[k]).data.target_coin_entity == Some(id)
}

/// No two agents hold the same claimed pickup.
pub open spec fn single_claim_s(ws: Seq<Worker>) -> bool {
    forall|k1: int, k2: int|
        0 <= k1 < ws.len() && 0 <= k2 < ws.len() && k1 != k2 && (
        #[trigger] ws[k1]).data.target_coin_entity is Some && (
        #[trigger] ws[k2]).data.target_coin_entity is Some
            ==> ws[k1].data.target_coin_entity != ws[k2].data.target_coin_entity
}

pub fn coin_claimed_by_any(workers: &Vec<Worker>, id: u64) -> (r: bool)
    ensures
        r == claimed_s(workers@, id),
{
    let n: usize = workers.len();
    let mut k: usize = 0;
    while k < n
        invariant
            n == workers@.len(),
            k <= n,
            forall|j: int|
                0 <= j < k ==> (#[trigger] workers@[j]).data.target_coin_entity != Some(id),
        decreases n - k,
    {
        match workers[k].data.target_coin_entity {
            Some(t) => {
                if t == id {
                    return true;
                }
            },
            None => {},
        }
        k = k + 1;
    }
    false
}

/// Pickup `j` can be claimed by an agent standing at `wpos`: it is not
/// queued for despawn, lies within the detection box, and no agent holds it.
pub open spec fn claimable_s(ps: Seq<CoinPickup>, ws: Seq<Worker>, wpos: Pos, j: int) -> bool {
    &&& 0 <= j < ps.len()
    &&& !ps[j].despawned
    &&& wpos.within_s(ps[j].pos, WORKER_VIEW_DISTANCE as int)
    &&& !claimed_s(ws, ps[j].id)
}

/// The first pickup, in iteration order, that an agent at `wpos` may claim.
pub fn find_claimable_pickup(pickups: &Vec<CoinPickup>, workers: &Vec<Worker>, wpos: Pos) -> (r:
    Option<usize>)
    requires
        wpos.wf(),
        forall|j: int| 0 <= j < pickups@.len() ==> (#[trigger] pickups@[j]).pos.wf(),
    ensures
        match r {
            Some(j) => {
                &&& claimable_s(pickups@, workers@, wpos, j as int)
                &&& forall|jj: int| 0 <= jj < j ==> !claimable_s(pickups@, workers@, wpos, jj)
            },
            None => forall|jj: int| !claimable_s(pickups@, workers@, wpos, jj),
        },
{
    let n: usize = pickups.len();
    let mut j: usize = 0;
    while j < n
        invariant
            n == pickups@.len(),
            j <= n,
            wpos.wf(),
            forall|i: int| 0 <= i < n ==> (#[trigger] pickups@[i]).pos.wf(),
            forall|jj: int| 0 <= jj < j ==> !claimable_s(pickups@, workers@, wpos, jj),
        decreases n - j,
    {
        if !pickups[j].despawned && wpos.within(pickups[j].pos, WORKER_VIEW_DISTANCE) {
            if !coin_claimed_by_any(workers, pickups[j].id) {
                return Some(j);
            }
        }
        j = j + 1;
    }
    None
}

/// The first pickup with identity `id`, whether or not it is queued for
/// despawn: a pickup queued this tick is still visible until the tick ends.
pub fn find_pickup(pickups: &Vec<CoinPickup>, id: u64) -> (r: Option<usize>)
    ensures
        match r {
            Some(j) => {
                &&& 0 <= j < pickups@.len()
                &&& pickups@[j as int].id == id
                &&& forall|jj: int| 0 <= jj < j ==> (#[trigger] pickups@[jj]).id != id
            },
            None => forall|jj: int| 0 <= jj < pickups@.len() ==> (#[trigger] pickups@[jj]).id != id,
        },
{
    let n: usize = pickups.len();
    let mut j: usize = 0;
    while j < n
        invariant
            n == pickups@.len(),
            j <= n,
            forall|jj: int| 0 <= jj < j ==> (#[trigger] pickups@[jj]).id != id,
        decreases n - j,
    {
        if pickups[j].id == id {
            return Some(j);
        }
        j = j + 1;
    }
    None
}

/// The unit direction from `b` toward `a`, milli-scaled.
pub open spec fn unit_from_s(a: Pos, b: Pos) -> Pos {
    Pos {
        x: unit_axis_s(a.x - b.x, a.y - b.y) as i64,
        y: unit_axis_s(a.y - b.y, a.x - b.x) as i64,
    }
}

/// The agent after claiming pickup `p`: target position, identity, and the
/// unit direction from the pickup toward the agent recorded.
pub open spec fn coin_claimed_worker_s(w: Worker, p: CoinPickup) -> Worker {
    Worker {
        data: WorkerData {
            target_coin_pos: Some(p.pos),
            target_coin_dir: Some(unit_from_s(w.pos, p.pos)),
            target_coin_entity: Some(p.id),
            ..w.data
        },
        ..w
    }
}

/// The agent with its pickup claim cleared.
pub open spec fn coin_cleared_worker_s(w: Worker) -> Worker {
    Worker {
        data: WorkerData {
            target_coin_pos: None,
            target_coin_dir: None,
            target_coin_entity: None,
            ..w.data
        },
        ..w
    }
}

/// The agent right after collecting its pickup: it holds one coin, is due
/// to become Employed at the end of the tick, and its claim is cleared.
pub open spec fn coin_collected_worker_s(w: Worker) -> Worker {
    Worker {
        state_next: WorkerState::Employed,
        data: WorkerData {
            coins: 1,
            target_coin_pos: None,
            target_coin_dir: None,
            target_coin_entity: None,
            ..w.data
        },
        ..w
    }
}

/// The agent moved one straight-line step against its recorded direction.
pub open spec fn coin_moved_worker_s(w: Worker, dt: int) -> Worker {
    let dir = w.data.target_coin_dir->0;
    Worker {
        pos: Pos {
            x: crate::geom::step_const_s(w.pos.x as int, dir.x as int, dt) as i64,
            y: crate::geom::step_const_s(w.pos.y as int, dir.y as int, dt) as i64,
        },
        ..w
    }
}

/// An empty-handed agent with no claim may look for a pickup.
pub open spec fn wants_claim_s(w: Worker) -> bool {
    w.data.coins < 1 && w.data.target_coin_entity is None
}

/// Foraging, claim phase: an empty-handed agent with no claim takes the
/// first claimable pickup in iteration order, recording its position, its
/// identity, and the unit direction from the pickup toward the agent.  No
/// other agent and no pickup changes; an agent that cannot or need not
/// claim is untouched.
pub fn forage_acquire(workers: &mut Vec<Worker>, i: usize, pickups: &Vec<CoinPickup>)
    requires
        i < old(workers)@.len(),
        old(workers)@[i as int].wf(),
        forall|j: int| 0 <= j < pickups@.len() ==> (#[trigger] pickups@[j]).pos.wf(),
    ensures
        final(workers)@.len() == old(workers)@.len(),
        forall|k: int|
            0 <= k < old(workers)@.len() && k != i ==> final(workers)@[k] == old(workers)@[k],
        final(workers)@[i as int].wf(),
        !wants_claim_s(old(workers)@[i as int]) ==> final(workers)@[i as int] == old(workers)@[i as int],
        wants_claim_s(old(workers)@[i as int]) ==> ({
            let w = old(workers)@[i as int];
            &&& (forall|j: int| !claimable_s(pickups@, old(workers)@, w.pos, j)) ==> final(workers)@[i as int] == w
            &&& (exists|j: int| claimable_s(pickups@, old(workers)@, w.pos, j)) ==> (exists|j: int|
                {
                    &&& claimable_s(pickups@, old(workers)@, w.pos, j)
                    &&& forall|jj: int| 0 <= jj < j ==> !claimable_s(
                        pickups@,
                        old(workers)@,
                        w.pos,
                        jj,
                    )
                    &&& final(workers)@[i as int] == coin_claimed_worker_s(w, pickups@[j])
                })
        }),
        single_claim_s(old(workers)@) ==> single_claim_s(final(workers)@),
{
    let w: Worker = workers[i];
    if w.data.coins < 1 && w.data.target_coin_entity.is_none() {
        match find_claimable_pickup(pickups, workers, w.pos) {
            Some(j) => {
                let p: CoinPickup = pickups[j];
                let dx: i64 = w.pos.x - p.pos.x;
                let dy: i64 = w.pos.y - p.pos.y;
                let dir: Pos = unit_milli(dx, dy);
                let mut wnew: Worker = w;
                wnew.data.target_coin_pos = Some(p.pos);
                wnew.data.target_coin_dir = Some(dir);
                wnew.data.target_coin_entity = Some(p.id);
                workers[i] = wnew;
                proof {
                    assert(final(workers)@[i as int] == coin_claimed_worker_s(w, p));
                    assert forall|k1: int, k2: int|
                        single_claim_s(old(workers)@) && 0 <= k1 < workers@.len() && 0 <= k2
                            < workers@.len() && k1 != k2 && (
                        #[trigger] workers@[k1]).data.target_coin_entity is Some && (
                        #[trigger] workers@[k2]).data.target_coin_entity is Some implies
                        workers@[k1].data.target_coin_entity
                            != workers@[k2].data.target_coin_entity by {
                        if k1 == i as int || k2 == i as int {
                            let other = if k1 == i as int {
                                k2
                            } else {
                                k1
                            };
                            assert(workers@[other] == old(workers)@[other]);
                            assert(!claimed_s(old(workers)@, p.id));
                            assert(old(workers)@[other].data.target_coin_entity != Some(p.id));
                        }
                    }
                }
            },
            None => {},
        }
    }
}

/// Foraging, pursuit phase for an agent that holds a claim.  A claim whose
/// pickup is gone is dropped.  An agent within collection distance of its
/// claim collects it: it takes the coin, the pickup is queued for despawn,
/// the pickup's tile leaves the drop-position set, and the agent is due to
/// become Employed.  Otherwise the agent takes one straight-line step
/// toward the pickup.
pub fn forage_pursue(
    workers: &mut Vec<Worker>,
    i: usize,
    pickups: &mut Vec<CoinPickup>,
    coins_spawned: &mut CoinsSpawned,
    dt: u64,
)
    requires
        i < old(workers)@.len(),
        old(workers)@[i as int].wf(),
        old(workers)@[i as int].state == WorkerState::Foraging,
        old(coins_spawned).wf(),
        dt <= MAX_TICK_MS,
    ensures
        final(workers)@.len() == old(workers)@.len(),
        final(pickups)@.len() == old(pickups)@.len(),
        forall|k: int|
            0 <= k < old(workers)@.len() && k != i ==> final(workers)@[k] == old(workers)@[k],
        final(workers)@[i as int].wf(),
        final(coins_spawned).wf(),
        single_claim_s(old(workers)@) ==> single_claim_s(final(workers)@),
        old(workers)@[i as int].data.target_coin_entity is None ==> ({
            &&& final(workers)@[i as int] == old(workers)@[i as int]
            &&& *final(pickups) == *old(pickups)
            &&& *final(coins_spawned) == *old(coins_spawned)
        }),
        old(workers)@[i as int].data.target_coin_entity is Some ==> ({
            let w = old(workers)@[i as int];
            let tid = w.data.target_coin_entity->0;
            &&& (forall|jj: int| 0 <= jj < old(pickups)@.len() ==> (#[trigger] old(pickups)@[jj]).id != tid) ==> ({
                &&& final(workers)@[i as int] == coin_cleared_worker_s(w)
                &&& *final(pickups) == *old(pickups)
                &&& *final(coins_spawned) == *old(coins_spawned)
            })
            &&& (exists|jj: int| 0 <= jj < old(pickups)@.len() && (#[trigger] old(pickups)@[jj]).id == tid) ==> (exists|j: int|
                {
                    &&& 0 <= j < old(pickups)@.len()
                    &&& old(pickups)@[j].id == tid
                    &&& forall|jj: int| 0 <= jj < j ==> (#[trigger] old(pickups)@[jj]).id != tid
                    &&& if w.pos.within_s(w.data.target_coin_pos->0, COIN_COLLECT_OFFSET as int) {
                        &&& final(workers)@[i as int] == coin_collected_worker_s(w)
                        &&& final(pickups)@ == old(pickups)@.update(
                            j,
                            CoinPickup { despawned: true, ..old(pickups)@[j] },
                        )
                        &&& forall|x: Tile|
                            final(coins_spawned).positions@.contains(x) <==> (old(coins_spawned).positions@.contains(x) && x != old(pickups)@[j].tile)
                    } else {
                        &&& final(workers)@[i as int] == coin_moved_worker_s(w, dt as int)
                        &&& *final(pickups) == *old(pickups)
                        &&& *final(coins_spawned) == *old(coins_spawned)
                    }
                })
        }),
{
    let w: Worker = workers[i];
    let tid: u64 = match w.data.target_coin_entity {
        Some(t) => t,
        None => {
            return ;
        },
    };
    match find_pickup(pickups, tid) {
        None => {
            let mut wnew: Worker = w;
            wnew.data.target_coin_pos = None;
            wnew.data.target_coin_dir = None;
            wnew.data.target_coin_entity = None;
            workers[i] = wnew;
            proof {
                assert(workers@[i as int] == coin_cleared_worker_s(w));
            }
        },
        Some(j) => {
            let tpos: Pos = w.data.target_coin_pos.unwrap();
            if w.pos.within(tpos, COIN_COLLECT_OFFSET) {
                let tile: Tile = pickups[j].tile;
                let mut wnew: Worker = w;
                wnew.data.coins = 1;
                wnew.state_next = WorkerState::Employed;
                wnew.data.target_coin_pos = None;
                wnew.data.target_coin_dir = None;
                wnew.data.target_coin_entity = None;
                workers[i] = wnew;
                let mut pnew: CoinPickup = pickups[j];
                pnew.despawned = true;
                pickups[j] = pnew;
                coins_spawned.remove(tile);
                proof {
                    assert(workers@[i as int] == coin_collected_worker_s(w));
                    assert(pickups@ == old(pickups)@.update(
                        j as int,
                        CoinPickup { despawned: true, ..old(pickups)@[j as int] },
                    ));
                }
            } else {
                let dir: Pos = w.data.target_coin_dir.unwrap();
                let nx: i64 = step_axis_const(w.pos.x, dir.x, dt);
                let ny: i64 = step_axis_const(w.pos.y, dir.y, dt);
                let mut wnew: Worker = w;
                wnew.pos = Pos { x: nx, y: ny };
                workers[i] = wnew;
                proof {
                    assert(workers@[i as int] == coin_moved_worker_s(w, dt as int));
                }
            }
        },
    }
}

/// The outcome of the pursuit phase for one agent, which depends only on
/// the agent itself and the pickup identities present when the tick began:
/// no claim means no change; a claim on a vanished pickup is dropped; a
/// claim within collection distance is collected; any other claim is walked
/// toward.
pub open spec fn forage_pursue_outcome_s(w: Worker, ps: Seq<CoinPickup>, dt: int) -> Worker {
    if w.data.target_coin_entity is None {
        w
    } else {
        let tid = w.data.target_coin_entity->0;
        if forall|j: int| 0 <= j < ps.len() ==> (#[trigger] ps[j]).id != tid {
            coin_cleared_worker_s(w)
        } else if w.pos.within_s(w.data.target_coin_pos->0, COIN_COLLECT_OFFSET as int) {
            coin_collected_worker_s(w)
        } else {
            coin_moved_worker_s(w, dt)
        }
    }
}

/// The first pickup carrying identity `tid` is queued for despawn in
/// `ps1`, and its tile is no longer tracked in `cs1`: what collecting that
/// pickup leaves behind.
pub open spec fn collected_pickup_marked_s(
    ps0: Seq<CoinPickup>,
    tid: u64,
    ps1: Seq<CoinPickup>,
    cs1: Seq<Tile>,
) -> bool {
    exists|jj: int|
        {
            &&& 0 <= jj < ps0.len()
            &&& (#[trigger] ps0[jj]).id == tid
            &&& forall|j2: int| 0 <= j2 < jj ==> (#[trigger] ps0[j2]).id != tid
            &&& ps1[jj].despawned
            &&& !cs1.contains(ps0[jj].tile)
        }
}

/// Why an idle forager may end the pass without a claim: every pickup was
/// out of reach for agent `k` the whole pass — already queued for despawn,
/// outside its detection box, or claimed by some other agent before or
/// during the pass.
pub open spec fn no_pickup_was_available_s(
    ws0: Seq<Worker>,
    k: int,
    ps0: Seq<CoinPickup>,
    ps1: Seq<CoinPickup>,
    ws1: Seq<Worker>,
) -> bool {
    forall|j: int|
        0 <= j < ps0.len() ==> {
            ||| (#[trigger] ps1[j]).despawned
            ||| !ws0[k].pos.within_s(ps0[j].pos, WORKER_VIEW_DISTANCE as int)
            ||| claimed_s(ws0, ps0[j].id)
            ||| exists|k2: int|
                0 <= k2 < ws1.len() && k2 != k && (#[trigger] ws1[k2]).data.target_coin_entity
                    == Some(ps0[j].id)
        }
}

/// What the foraging pass may do to an agent: identity, committed state,
/// housing and crop fields stay; the coin count never drops.
pub open spec fn forage_frame_s(a: Worker, b: Worker) -> bool {
    &&& b.id == a.id
    &&& b.state == a.state
    &&& b.data.house_pos == a.data.house_pos
    &&& b.data.house_assigned == a.data.house_assigned
    &&& b.data.target_crop_pos == a.data.target_crop_pos
    &&& b.data.target_crop_entity == a.data.target_crop_entity
    &&& b.data.target_crop_active == a.data.target_crop_active
    &&& a.data.coins <= b.data.coins
}

/// What the foraging pass may do to a pickup: only queue it for despawn.
pub open spec fn pickup_frame_s(a: CoinPickup, b: CoinPickup) -> bool {
    &&& b.id == a.id
    &&& b.pos == a.pos
    &&& b.tile == a.tile
    &&& (a.despawned ==> b.despawned)
}

/// Foraging stage: every Foraging agent first claims a pickup if it can,
/// then pursues its claim — dropping stale claims, collecting on arrival
/// (which queues the pickup's despawn, removes its tile from the
/// drop-position set and schedules the Employed transition), or walking one
/// step closer.  Each agent acts on the state its predecessors in iteration
/// order left behind; no two agents ever hold the same claim.
#[verifier::rlimit(100)]
pub fn worker_collect_coin(
    workers: &mut Vec<Worker>,
    pickups: &mut Vec<CoinPickup>,
    coins_spawned: &mut CoinsSpawned,
    dt: u64,
)
    requires
        forall|k: int| 0 <= k < old(workers)@.len() ==> (#[trigger] old(workers)@[k]).wf(),
        forall|j: int| 0 <= j < old(pickups)@.len() ==> (#[trigger] old(pickups)@[j]).pos.wf(),
        old(coins_spawned).wf(),
        single_claim_s(old(workers)@),
        dt <= MAX_TICK_MS,
    ensures
        final(workers)@.len() == old(workers)@.len(),
        final(pickups)@.len() == old(pickups)@.len(),
        forall|k: int| 0 <= k < final(workers)@.len() ==> (#[trigger] final(workers)@[k]).wf(),
        single_claim_s(final(workers)@),
        final(coins_spawned).wf(),
        forall|k: int|
            0 <= k < old(workers)@.len() ==> forage_frame_s(
                #[trigger] old(workers)@[k],
                final(workers)@[k],
            ),
        forall|k: int|
            0 <= k < old(workers)@.len() && (#[trigger] old(workers)@[k]).state
                != WorkerState::Foraging ==> final(workers)@[k] == old(workers)@[k],
        forall|j: int|
            0 <= j < old(pickups)@.len() ==> pickup_frame_s(
                #[trigger] old(pickups)@[j],
                final(pickups)@[j],
            ),
        forall|j: int| 0 <= j < final(pickups)@.len() ==> (#[trigger] final(pickups)@[j]).pos.wf(),
        forall|x: Tile|
            final(coins_spawned).positions@.contains(x) ==> old(coins_spawned).positions@.contains(x),
        forall|k: int|
            0 <= k < old(workers)@.len() && (#[trigger] old(workers)@[k]).state
                == WorkerState::Foraging && !wants_claim_s(old(workers)@[k]) ==> final(workers)@[k] == forage_pursue_outcome_s(old(workers)@[k], old(pickups)@, dt as int),
        forall|k: int|
            0 <= k < old(workers)@.len() && (#[trigger] old(workers)@[k]).state
                == WorkerState::Foraging && wants_claim_s(old(workers)@[k]) ==> (final(workers)@[k]
                == old(workers)@[k] || exists|j: int|
                {
                    &&& 0 <= j < old(pickups)@.len()
                    &&& !(#[trigger] old(pickups)@[j]).despawned
                    &&& old(workers)@[k].pos.within_s(
                        old(pickups)@[j].pos,
                        WORKER_VIEW_DISTANCE as int,
                    )
                    &&& final(workers)@[k] == forage_pursue_outcome_s(
                        coin_claimed_worker_s(old(workers)@[k], old(pickups)@[j]),
                        old(pickups)@,
                        dt as int,
                    )
                    &&& old(workers)@[k].pos.within_s(
                        old(pickups)@[j].pos,
                        COIN_COLLECT_OFFSET as int,
                    ) ==> collected_pickup_marked_s(
                        old(pickups)@,
                        old(pickups)@[j].id,
                        final(pickups)@,
                        final(coins_spawned).positions@,
                    )
                }),
        forall|k: int|
            (0 <= k < old(workers)@.len() && (#[trigger] old(workers)@[k]).state
                == WorkerState::Foraging && !wants_claim_s(old(workers)@[k]) && old(workers)@[k].data.target_coin_entity is Some && old(workers)@[k].pos.within_s(
                old(workers)@[k].data.target_coin_pos->0,
                COIN_COLLECT_OFFSET as int,
            ) && (exists|jj: int|
                0 <= jj < old(pickups)@.len() && (#[trigger] old(pickups)@[jj]).id == old(workers)@[k].data.target_coin_entity->0)) ==> collected_pickup_marked_s(
                old(pickups)@,
                old(workers)@[k].data.target_coin_entity->0,
                final(pickups)@,
                final(coins_spawned).positions@,
            ),
        forall|k: int|
            (0 <= k < old(workers)@.len() && (#[trigger] old(workers)@[k]).state
                == WorkerState::Foraging && wants_claim_s(old(workers)@[k])) ==> {
                ||| final(workers)@[k].data.target_coin_entity is Some
                ||| final(workers)@[k].data.coins == 1
                ||| no_pickup_was_available_s(
                    old(workers)@,
                    k,
                    old(pickups)@,
                    final(pickups)@,
                    final(workers)@,
                )
            },
{
    let n: usize = workers.len();
    let mut i: usize = 0;
    while i < n
        invariant
            n == workers@.len(),
            workers@.len() == old(workers)@.len(),
            pickups@.len() == old(pickups)@.len(),
            i <= n,
            dt <= MAX_TICK_MS,
            coins_spawned.wf(),
            single_claim_s(workers@),
            forall|k: int| 0 <= k < n ==> (#[trigger] workers@[k]).wf(),
            forall|k: int| i <= k < n ==> workers@[k] == old(workers)@[k],
            forall|k: int|
                0 <= k < n ==> forage_frame_s(#[trigger] old(workers)@[k], workers@[k]),
            forall|k: int|
                0 <= k < n && (#[trigger] old(workers)@[k]).state != WorkerState::Foraging
                    ==> workers@[k] == old(workers)@[k],
            forall|j: int|
                0 <= j < pickups@.len() ==> pickup_frame_s(
                    #[trigger] old(pickups)@[j],
                    pickups@[j],
                ),
            forall|j: int| 0 <= j < pickups@.len() ==> (#[trigger] pickups@[j]).pos.wf(),
            forall|x: Tile|
                coins_spawned.positions@.contains(x) ==> old(coins_spawned).positions@.contains(x),
            forall|k: int|
                0 <= k < i && (#[trigger] old(workers)@[k]).state == WorkerState::Foraging
                    && !wants_claim_s(old(workers)@[k]) ==> workers@[k]
                    == forage_pursue_outcome_s(old(workers)@[k], old(pickups)@, dt as int),
            forall|k: int|
                0 <= k < i && (#[trigger] old(workers)@[k]).state == WorkerState::Foraging
                    && wants_claim_s(old(workers)@[k]) ==> (workers@[k] == old(workers)@[k]
                    || exists|j: int|
                    {
                        &&& 0 <= j < old(pickups)@.len()
                        &&& !(#[trigger] old(pickups)@[j]).despawned
                        &&& old(workers)@[k].pos.within_s(
                            old(pickups)@[j].pos,
                            WORKER_VIEW_DISTANCE as int,
                        )
                        &&& workers@[k] == forage_pursue_outcome_s(
                            coin_claimed_worker_s(old(workers)@[k], old(pickups)@[j]),
                            old(pickups)@,
                            dt as int,
                        )
                        &&& old(workers)@[k].pos.within_s(
                            old(pickups)@[j].pos,
                            COIN_COLLECT_OFFSET as int,
                        ) ==> collected_pickup_marked_s(
                            old(pickups)@,
                            old(pickups)@[j].id,
                            pickups@,
                            coins_spawned.positions@,
                        )
                    }),
            forall|k: int|
                (0 <= k < i && (#[trigger] old(workers)@[k]).state == WorkerState::Foraging
                    && !wants_claim_s(old(workers)@[k]) && old(workers)@[k].data.target_coin_entity is Some && old(workers)@[k].pos.within_s(
                    old(workers)@[k].data.target_coin_pos->0,
                    COIN_COLLECT_OFFSET as int,
                ) && (exists|jj: int|
                    0 <= jj < old(pickups)@.len() && (#[trigger] old(pickups)@[jj]).id == old(workers)@[k].data.target_coin_entity->0)) ==> collected_pickup_marked_s(
                    old(pickups)@,
                    old(workers)@[k].data.target_coin_entity->0,
                    pickups@,
                    coins_spawned.positions@,
                ),
            forall|k: int|
                (0 <= k < i && (#[trigger] old(workers)@[k]).state == WorkerState::Foraging
                    && wants_claim_s(old(workers)@[k])) ==> {
                    ||| workers@[k].data.target_coin_entity is Some
                    ||| workers@[k].data.coins == 1
                    ||| no_pickup_was_available_s(
                        old(workers)@,
                        k,
                        old(pickups)@,
                        pickups@,
                        workers@,
                    )
                },
        decreases n - i,
    {
        let ghost pre_ws = workers@;
        let ghost pre_w = workers@[i as int];
        let ghost pre_ps = pickups@;
        let ghost pre_cs = coins_spawned.positions@;
        let foraging: bool = matches!(workers[i].state, WorkerState::Foraging);
        if foraging {
            forage_acquire(workers, i, pickups);
            let ghost mid_w = workers@[i as int];
            forage_pursue(workers, i, pickups, coins_spawned, dt);
            proof {
                let ii = i as int;
                let ws0 = old(workers)@;
                let ps0 = old(pickups)@;
                // pickup identities, positions and tiles never change during
                // the pass, despawn flags only turn on, and the drop set
                // only shrinks
                assert(forall|j: int|
                    0 <= j < ps0.len() ==> (#[trigger] pre_ps[j]).id == ps0[j].id && pre_ps[j].pos
                        == ps0[j].pos && pre_ps[j].tile == ps0[j].tile);
                assert(forall|j: int|
                    0 <= j < ps0.len() && (#[trigger] pre_ps[j]).despawned
                        ==> pickups@[j].despawned);
                assert(forall|x: Tile|
                    #[trigger] coins_spawned.positions@.contains(x) ==> pre_cs.contains(x));
                let ghost had_coin_target = pre_w.data.target_coin_entity is Some;
                if wants_claim_s(pre_w) && mid_w != pre_w {
                    let j = choose|j: int|
                        {
                            &&& claimable_s(pre_ps, pre_ws, pre_w.pos, j)
                            &&& forall|jj: int|
                                0 <= jj < j ==> !claimable_s(pre_ps, pre_ws, pre_w.pos, jj)
                            &&& mid_w == coin_claimed_worker_s(pre_w, pre_ps[j])
                        };
                    assert(!ps0[j].despawned);
                    assert(coin_claimed_worker_s(pre_w, pre_ps[j]) == coin_claimed_worker_s(
                        pre_w,
                        ps0[j],
                    ));
                    lemma_pursue_outcome_transfer(mid_w, pre_ps, ps0, workers@[ii], dt as int);
                    // the fresh claim is pursued at once: either collected,
                    // or still held while walking
                    assert(exists|jj: int|
                        0 <= jj < pre_ps.len() && (#[trigger] pre_ps[jj]).id
                            == mid_w.data.target_coin_entity->0);
                    if mid_w.pos.within_s(
                        mid_w.data.target_coin_pos->0,
                        COIN_COLLECT_OFFSET as int,
                    ) {
                        assert(workers@[ii] == coin_collected_worker_s(mid_w));
                        self_collect_marked(pre_ps, pre_cs, ps0, pickups@,
                            coins_spawned.positions@, mid_w.data.target_coin_entity->0);
                    } else {
                        assert(workers@[ii] == coin_moved_worker_s(mid_w, dt as int));
                    }
                    assert(workers@[ii].data.target_coin_entity is Some
                        || workers@[ii].data.coins == 1);
                } else if wants_claim_s(pre_w) {
                    assert(mid_w == pre_w);
                    lemma_pursue_outcome_transfer(pre_w, pre_ps, ps0, workers@[ii], dt as int);
                    // no claim was made although the agent looked: nothing
                    // was claimable at its step, which every later state
                    // still shows
                    assert(forall|jx: int| !claimable_s(pre_ps, pre_ws, pre_w.pos, jx)) by {
                        if exists|jx: int| claimable_s(pre_ps, pre_ws, pre_w.pos, jx) {
                            assert(mid_w.data.target_coin_entity is Some);
                        }
                    }
                    assert(no_pickup_was_available_s(ws0, ii, ps0, pickups@, workers@)) by {
                        assert forall|j: int| 0 <= j < ps0.len() implies {
                            ||| (#[trigger] pickups@[j]).despawned
                            ||| !ws0[ii].pos.within_s(ps0[j].pos, WORKER_VIEW_DISTANCE as int)
                            ||| claimed_s(ws0, ps0[j].id)
                            ||| exists|k2: int|
                                0 <= k2 < workers@.len() && k2 != ii && (
                                #[trigger] workers@[k2]).data.target_coin_entity == Some(
                                    ps0[j].id,
                                )
                        } by {
                            if !pickups@[j].despawned && ws0[ii].pos.within_s(
                                ps0[j].pos,
                                WORKER_VIEW_DISTANCE as int,
                            ) && !claimed_s(ws0, ps0[j].id) {
                                assert(!claimable_s(pre_ps, pre_ws, pre_w.pos, j));
                                assert(!pre_ps[j].despawned);
                                assert(pre_w.pos == ws0[ii].pos);
                                assert(pre_w.pos.within_s(
                                    pre_ps[j].pos,
                                    WORKER_VIEW_DISTANCE as int,
                                ));
                                assert(claimed_s(pre_ws, pre_ps[j].id));
                                let k2 = choose|k2: int|
                                    0 <= k2 < pre_ws.len() && (
                                    #[trigger] pre_ws[k2]).data.target_coin_entity == Some(
                                        pre_ps[j].id,
                                    );
                                if k2 >= ii {
                                    assert(pre_ws[k2] == ws0[k2]);
                                    assert(claimed_s(ws0, ps0[j].id));
                                } else {
                                    assert(workers@[k2] == pre_ws[k2]);
                                }
                            }
                        }
                    }
                } else {
                    assert(mid_w == pre_w);
                    lemma_pursue_outcome_transfer(pre_w, pre_ps, ps0, workers@[ii], dt as int);
                    // an agent arriving at a surviving claim really collects
                    // it: the pickup is queued for despawn and its tile
                    // leaves the drop set
                    if had_coin_target && pre_w.pos.within_s(
                        pre_w.data.target_coin_pos->0,
                        COIN_COLLECT_OFFSET as int,
                    ) && exists|jj: int|
                        0 <= jj < ps0.len() && (#[trigger] ps0[jj]).id
                            == pre_w.data.target_coin_entity->0 {
                        assert(exists|jj: int|
                            0 <= jj < pre_ps.len() && (#[trigger] pre_ps[jj]).id
                                == pre_w.data.target_coin_entity->0) by {
                            let jw = choose|jj: int|
                                0 <= jj < ps0.len() && (#[trigger] ps0[jj]).id
                                    == pre_w.data.target_coin_entity->0;
                            assert(pre_ps[jw].id == ps0[jw].id);
                        }
                        self_collect_marked(pre_ps, pre_cs, ps0, pickups@,
                            coins_spawned.positions@, pre_w.data.target_coin_entity->0);
                    }
                }
                // clauses already settled for earlier agents survive this step
                assert forall|k: int|
                    (0 <= k < ii && (#[trigger] ws0[k]).state == WorkerState::Foraging
                        && !wants_claim_s(ws0[k]) && ws0[k].data.target_coin_entity is Some
                        && ws0[k].pos.within_s(
                        ws0[k].data.target_coin_pos->0,
                        COIN_COLLECT_OFFSET as int,
                    ) && (exists|jj: int|
                        0 <= jj < ps0.len() && (#[trigger] ps0[jj]).id
                            == ws0[k].data.target_coin_entity->0)) implies
                    collected_pickup_marked_s(
                        ps0,
                        ws0[k].data.target_coin_entity->0,
                        pickups@,
                        coins_spawned.positions@,
                    ) by {
                    lemma_marked_stable(
                        ps0,
                        ws0[k].data.target_coin_entity->0,
                        pre_ps,
                        pre_cs,
                        pickups@,
                        coins_spawned.positions@,
                    );
                }
                assert forall|k: int|
                    (0 <= k < ii && (#[trigger] ws0[k]).state == WorkerState::Foraging
                        && wants_claim_s(ws0[k])) implies {
                    ||| workers@[k].data.target_coin_entity is Some
                    ||| workers@[k].data.coins == 1
                    ||| no_pickup_was_available_s(ws0, k, ps0, pickups@, workers@)
                } by {
                    assert(workers@[k] == pre_ws[k]);
                    if !(pre_ws[k].data.target_coin_entity is Some) && pre_ws[k].data.coins
                        != 1 {
                        assert(no_pickup_was_available_s(ws0, k, ps0, pre_ps, pre_ws));
                        lemma_no_avail_stable(
                            ws0,
                            k,
                            ps0,
                            pre_ps,
                            pre_ws,
                            pickups@,
                            workers@,
                        );
                    }
                }
                assert forall|k: int|
                    (0 <= k < ii && (#[trigger] ws0[k]).state == WorkerState::Foraging
                        && wants_claim_s(ws0[k]) && !(workers@[k] == ws0[k])) implies (exists|
                        j: int,
                    |
                        {
                            &&& 0 <= j < ps0.len()
                            &&& !(#[trigger] ps0[j]).despawned
                            &&& ws0[k].pos.within_s(ps0[j].pos, WORKER_VIEW_DISTANCE as int)
                            &&& workers@[k] == forage_pursue_outcome_s(
                                coin_claimed_worker_s(ws0[k], ps0[j]),
                                ps0,
                                dt as int,
                            )
                            &&& ws0[k].pos.within_s(ps0[j].pos, COIN_COLLECT_OFFSET as int)
                                ==> collected_pickup_marked_s(
                                ps0,
                                ps0[j].id,
                                pickups@,
                                coins_spawned.positions@,
                            )
                        }) by {
                    let j = choose|j: int|
                        {
                            &&& 0 <= j < ps0.len()
                            &&& !(#[trigger] ps0[j]).despawned
                            &&& ws0[k].pos.within_s(ps0[j].pos, WORKER_VIEW_DISTANCE as int)
                            &&& pre_ws[k] == forage_pursue_outcome_s(
                                coin_claimed_worker_s(ws0[k], ps0[j]),
                                ps0,
                                dt as int,
                            )
                            &&& ws0[k].pos.within_s(ps0[j].pos, COIN_COLLECT_OFFSET as int)
                                ==> collected_pickup_marked_s(ps0, ps0[j].id, pre_ps, pre_cs)
                        };
                    if ws0[k].pos.within_s(ps0[j].pos, COIN_COLLECT_OFFSET as int) {
                        lemma_marked_stable(
                            ps0,
                            ps0[j].id,
                            pre_ps,
                            pre_cs,
                            pickups@,
                            coins_spawned.positions@,
                        );
                    }
                    assert(workers@[k] == pre_ws[k]);
                }
            }
        }
        i = i + 1;
    }
}

/// From the pursuit's postcondition facts, the collected pickup is marked:
/// the first pickup carrying the agent's claimed identity is queued for
/// despawn and its tile leaves the drop set.
proof fn self_collect_marked(
    pre_ps: Seq<CoinPickup>,
    pre_cs: Seq<Tile>,
    ps0: Seq<CoinPickup>,
    ps1: Seq<CoinPickup>,
    cs1: Seq<Tile>,
    tid: u64,
)
    requires
        pre_ps.len() == ps0.len(),
        forall|j: int|
            0 <= j < ps0.len() ==> (#[trigger] pre_ps[j]).id == ps0[j].id && pre_ps[j].tile
                == ps0[j].tile,
        exists|jj: int|
            {
                &&& 0 <= jj < pre_ps.len()
                &&& (#[trigger] pre_ps[jj]).id == tid
                &&& forall|j2: int| 0 <= j2 < jj ==> (#[trigger] pre_ps[j2]).id != tid
                &&& ps1 == pre_ps.update(jj, CoinPickup { despawned: true, ..pre_ps[jj] })
                &&& forall|x: Tile|
                    cs1.contains(x) <==> (pre_cs.contains(x) && x != pre_ps[jj].tile)
            },
    ensures
        collected_pickup_marked_s(ps0, tid, ps1, cs1),
{
    let jj = choose|jj: int|
        {
            &&& 0 <= jj < pre_ps.len()
            &&& (#[trigger] pre_ps[jj]).id == tid
            &&& forall|j2: int| 0 <= j2 < jj ==> (#[trigger] pre_ps[j2]).id != tid
            &&& ps1 == pre_ps.update(jj, CoinPickup { despawned: true, ..pre_ps[jj] })
            &&& forall|x: Tile|
                cs1.contains(x) <==> (pre_cs.contains(x) && x != pre_ps[jj].tile)
        };
    assert(ps0[jj].id == tid);
    assert forall|j2: int| 0 <= j2 < jj implies (#[trigger] ps0[j2]).id != tid by {
        assert(pre_ps[j2].id == ps0[j2].id);
    }
    assert(ps1[jj].despawned);
    assert(!cs1.contains(ps0[jj].tile));
}

/// Carry the pursuit outcome from the mid-pass pickup state back to the
/// pickups the tick began with: the outcome reads only identities,
/// positions and the agent's own fields, and identities and positions never
/// change during the pass.
proof fn lemma_pursue_outcome_transfer(
    w: Worker,
    ps_now: Seq<CoinPickup>,
    ps_start: Seq<CoinPickup>,
    result: Worker,
    dt: int,
)
    requires
        ps_now.len() == ps_start.len(),
        forall|j: int|
            0 <= j < ps_start.len() ==> (#[trigger] ps_now[j]).id == ps_start[j].id,
        result == forage_pursue_outcome_s(w, ps_now, dt),
    ensures
        result == forage_pursue_outcome_s(w, ps_start, dt),
{
    if w.data.target_coin_entity is Some {
        let tid = w.data.target_coin_entity->0;
        if forall|j: int| 0 <= j < ps_now.len() ==> (#[trigger] ps_now[j]).id != tid {
            assert forall|j: int| 0 <= j < ps_start.len() implies (#[trigger] ps_start[j]).id
                != tid by {
                assert(ps_now[j].id == ps_start[j].id);
                assert(ps_now[j].id != tid);
            }
        } else {
            let j = choose|j: int| 0 <= j < ps_now.len() && (#[trigger] ps_now[j]).id == tid;
            assert(ps_start[j].id == tid);
        }
    }
}

/// A collected pickup stays marked: despawn flags only ever turn on and the
/// drop-position set only ever shrinks.
proof fn lemma_marked_stable(
    ps0: Seq<CoinPickup>,
    tid: u64,
    ps_a: Seq<CoinPickup>,
    cs_a: Seq<Tile>,
    ps_b: Seq<CoinPickup>,
    cs_b: Seq<Tile>,
)
    requires
        collected_pickup_marked_s(ps0, tid, ps_a, cs_a),
        ps_a.len() == ps0.len(),
        ps_b.len() == ps0.len(),
        forall|j: int| 0 <= j < ps0.len() && (#[trigger] ps_a[j]).despawned ==> ps_b[j].despawned,
        forall|x: Tile| #[trigger] cs_b.contains(x) ==> cs_a.contains(x),
    ensures
        collected_pickup_marked_s(ps0, tid, ps_b, cs_b),
{
    let jj = choose|jj: int|
        {
            &&& 0 <= jj < ps0.len()
            &&& (#[trigger] ps0[jj]).id == tid
            &&& forall|j2: int| 0 <= j2 < jj ==> (#[trigger] ps0[j2]).id != tid
            &&& ps_a[jj].despawned
            &&& !cs_a.contains(ps0[jj].tile)
        };
    assert(ps_b[jj].despawned);
    assert(!cs_b.contains(ps0[jj].tile));
}

/// "No pickup was available to agent `k`" survives any later step of the
/// pass: despawn flags only turn on, and the only agent whose claim can
/// still change is one whose value so far is its starting value.
proof fn lemma_no_avail_stable(
    ws0: Seq<Worker>,
    k: int,
    ps0: Seq<CoinPickup>,
    ps_a: Seq<CoinPickup>,
    ws_a: Seq<Worker>,
    ps_b: Seq<CoinPickup>,
    ws_b: Seq<Worker>,
)
    requires
        no_pickup_was_available_s(ws0, k, ps0, ps_a, ws_a),
        ps_a.len() == ps0.len(),
        ps_b.len() == ps0.len(),
        ws_a.len() == ws0.len(),
        ws_b.len() == ws0.len(),
        forall|j: int| 0 <= j < ps0.len() && (#[trigger] ps_a[j]).despawned ==> ps_b[j].despawned,
        forall|k2: int|
            0 <= k2 < ws0.len() ==> ((#[trigger] ws_b[k2]) == ws_a[k2] || ws_a[k2] == ws0[k2]),
    ensures
        no_pickup_was_available_s(ws0, k, ps0, ps_b, ws_b),
{
    assert forall|j: int| 0 <= j < ps0.len() implies {
        ||| (#[trigger] ps_b[j]).despawned
        ||| !ws0[k].pos.within_s(ps0[j].pos, WORKER_VIEW_DISTANCE as int)
        ||| claimed_s(ws0, ps0[j].id)
        ||| exists|k2: int|
            0 <= k2 < ws_b.len() && k2 != k && (#[trigger] ws_b[k2]).data.target_coin_entity
                == Some(ps0[j].id)
    } by {
        if !ps_b[j].despawned && ws0[k].pos.within_s(ps0[j].pos, WORKER_VIEW_DISTANCE as int)
            && !claimed_s(ws0, ps0[j].id) {
            assert(!ps_a[j].despawned);
            let k2 = choose|k2: int|
                0 <= k2 < ws_a.len() && k2 != k && (#[trigger] ws_a[k2]).data.target_coin_entity
                    == Some(ps0[j].id);
            if ws_b[k2] == ws_a[k2] {
                assert(ws_b[k2].data.target_coin_entity == Some(ps0[j].id));
            } else {
                assert(ws_a[k2] == ws0[k2]);
                assert(claimed_s(ws0, ps0[j].id));
            }
        }
    }
}

/// Member `mi` of house `hi` is backed by a live, house-assigned worker.
pub open spec fn member_backed_s(
    hs: Seq<crate::buildings::House>,
    ws: Seq<Worker>,
    hi: int,
    mi: int,
) -> bool {
    exists|wi: int|
        0 <= wi < ws.len() && (#[trigger] ws[wi]).id == hs[hi].data.assigned_workers@[mi]
            && ws[wi].data.house_assigned
}

/// Every worker assigned to a house really exists and is marked
/// house-assigned.
pub open spec fn house_member_link_s(hs: Seq<crate::buildings::House>, ws: Seq<Worker>) -> bool {
    forall|hi: int, mi: int|
        0 <= hi < hs.len() && 0 <= mi < hs[hi].data.assigned_workers@.len()
            ==> #[trigger] member_backed_s(hs, ws, hi, mi)
}

/// No two workers share an identity.
pub open spec fn worker_ids_distinct_s(ws: Seq<Worker>) -> bool {
    forall|k1: int, k2: int|
        0 <= k1 < ws.len() && 0 <= k2 < ws.len() && k1 != k2 ==> (#[trigger] ws[k1]).id != (
        #[trigger] ws[k2]).id
}

/// An Employed agent holding its coin and not yet housed.
pub open spec fn employable_s(w: Worker) -> bool {
    &&& w.state == WorkerState::Employed
    &&& w.data.coins == 1
    &&& !w.data.house_assigned
}

/// The agent after being assigned to house `h`: snapped to the house, its
/// home tile recorded, and due to become Working at the end of the tick.
pub open spec fn housed_worker_s(w: Worker, h: crate::buildings::House) -> Worker {
    Worker {
        pos: h.pos,
        state_next: WorkerState::Working,
        data: WorkerData { house_pos: h.tile, house_assigned: true, ..w.data },
        ..w
    }
}

/// Housing stage: the first house with room, if any, takes the first
/// Employed coin-holding unhoused agent, if any.  The agent joins the
/// house's assigned set (never beyond capacity), records the house tile as
/// home, snaps to the house position, and is due to become Working.  With
/// no such house or no such agent, nothing changes.
pub fn worker_assign_home(houses: &mut Vec<crate::buildings::House>, workers: &mut Vec<Worker>)
    requires
        forall|h: int| 0 <= h < old(houses)@.len() ==> (#[trigger] old(houses)@[h]).data.wf(),
        forall|h: int| 0 <= h < old(houses)@.len() ==> (#[trigger] old(houses)@[h]).pos.wf(),
        forall|k: int| 0 <= k < old(workers)@.len() ==> (#[trigger] old(workers)@[k]).wf(),
        worker_ids_distinct_s(old(workers)@),
        house_member_link_s(old(houses)@, old(workers)@),
    ensures
        final(houses)@.len() == old(houses)@.len(),
        final(workers)@.len() == old(workers)@.len(),
        forall|h: int| 0 <= h < final(houses)@.len() ==> (#[trigger] final(houses)@[h]).data.wf(),
        forall|h: int| 0 <= h < final(houses)@.len() ==> (#[trigger] final(houses)@[h]).pos.wf(),
        forall|k: int| 0 <= k < final(workers)@.len() ==> (#[trigger] final(workers)@[k]).wf(),
        worker_ids_distinct_s(final(workers)@),
        house_member_link_s(final(houses)@, final(workers)@),
        single_claim_s(old(workers)@) ==> single_claim_s(final(workers)@),
        forall|h: int|
            0 <= h < old(houses)@.len() ==> {
                let a = #[trigger] old(houses)@[h];
                let b = final(houses)@[h];
                b.id == a.id && b.tile == a.tile && b.pos == a.pos && b.data.building_type
                    == a.data.building_type && b.data.max_capacity == a.data.max_capacity
            },
        forall|k: int|
            0 <= k < old(workers)@.len() ==> {
                let a = #[trigger] old(workers)@[k];
                let b = final(workers)@[k];
                b.id == a.id && b.state == a.state && b.data.coins == a.data.coins
                    && b.data.target_coin_pos == a.data.target_coin_pos && b.data.target_coin_dir
                    == a.data.target_coin_dir && b.data.target_coin_entity
                    == a.data.target_coin_entity && b.data.target_crop_pos
                    == a.data.target_crop_pos && b.data.target_crop_entity
                    == a.data.target_crop_entity && b.data.target_crop_active
                    == a.data.target_crop_active
            },
        (forall|h: int|
            0 <= h < old(houses)@.len() ==> !(#[trigger] old(houses)@[h]).data.has_room_s()) ==> (
        *final(houses) == *old(houses) && *final(workers) == *old(workers)),
        (forall|k: int|
            0 <= k < old(workers)@.len() ==> !employable_s(#[trigger] old(workers)@[k])) ==> (
        *final(houses) == *old(houses) && *final(workers) == *old(workers)),
        ((exists|h: int|
            0 <= h < old(houses)@.len() && (#[trigger] old(houses)@[h]).data.has_room_s()) && (
        exists|k: int|
            0 <= k < old(workers)@.len() && employable_s(#[trigger] old(workers)@[k]))) ==> (
        exists|h: int, k: int|
            {
                &&& 0 <= h < old(houses)@.len()
                &&& (#[trigger] old(houses)@[h]).data.has_room_s()
                &&& forall|hh: int|
                    0 <= hh < h ==> !(#[trigger] old(houses)@[hh]).data.has_room_s()
                &&& 0 <= k < old(workers)@.len()
                &&& employable_s(#[trigger] old(workers)@[k])
                &&& forall|kk: int| 0 <= kk < k ==> !employable_s(#[trigger] old(workers)@[kk])
                &&& forall|hh: int|
                    0 <= hh < old(houses)@.len() && hh != h ==> final(houses)@[hh] == old(houses)@[hh]
                &&& final(houses)@[h].data.assigned_workers@ == old(houses)@[h].data.assigned_workers@.push(old(workers)@[k].id)
                &&& final(workers)@ == old(workers)@.update(
                    k,
                    housed_worker_s(old(workers)@[k], old(houses)@[h]),
                )
            }),
{
    let hn: usize = houses.len();
    let mut h: usize = 0;
    loop
        invariant
            hn == houses@.len(),
            h <= hn,
            *houses == *old(houses),
            *workers == *old(workers),
            forall|hh: int| 0 <= hh < h ==> !(#[trigger] houses@[hh]).data.has_room_s(),
            forall|j: int| 0 <= j < hn ==> (#[trigger] houses@[j]).data.wf(),
        ensures
            *houses == *old(houses),
            *workers == *old(workers),
            h <= hn,
            h < hn ==> houses@[h as int].data.has_room_s(),
            h < hn ==> forall|hh: int| 0 <= hh < h ==> !(#[trigger] houses@[hh]).data.has_room_s(),
            h == hn ==> forall|hh: int|
                0 <= hh < hn ==> !(#[trigger] houses@[hh]).data.has_room_s(),
        decreases hn - h,
    {
        if h >= hn {
            break ;
        }
        if houses[h].data.has_room() {
            break ;
        }
        h = h + 1;
    }
    if h >= hn {
        return ;
    }
    let wn: usize = workers.len();
    let mut k: usize = 0;
    loop
        invariant
            wn == workers@.len(),
            k <= wn,
            *houses == *old(houses),
            *workers == *old(workers),
            forall|kk: int| 0 <= kk < k ==> !employable_s(#[trigger] workers@[kk]),
        ensures
            *houses == *old(houses),
            *workers == *old(workers),
            k <= wn,
            k < wn ==> employable_s(workers@[k as int]),
            k < wn ==> forall|kk: int| 0 <= kk < k ==> !employable_s(#[trigger] workers@[kk]),
            k == wn ==> forall|kk: int| 0 <= kk < wn ==> !employable_s(#[trigger] workers@[kk]),
        decreases wn - k,
    {
        if k >= wn {
            break ;
        }
        let w = &workers[k];
        let is_employed: bool = matches!(w.state, WorkerState::Employed);
        if is_employed && w.data.coins == 1 && !w.data.house_assigned {
            break ;
        }
        k = k + 1;
    }
    if k >= wn {
        return ;
    }
    let wid: u64 = workers[k].id;
    let house_tile: Tile = houses[h].tile;
    let house_pos: Pos = houses[h].pos;
    proof {
        assert(!old(houses)@[h as int].data.assigned_workers@.contains(wid)) by {
            if old(houses)@[h as int].data.assigned_workers@.contains(wid) {
                let mi = choose|mi: int|
                    0 <= mi < old(houses)@[h as int].data.assigned_workers@.len() && old(houses)@[h as int].data.assigned_workers@[mi] == wid;
                assert(member_backed_s(old(houses)@, old(workers)@, h as int, mi));
                let wi = choose|wi: int|
                    0 <= wi < old(workers)@.len() && (#[trigger] old(workers)@[wi]).id == old(houses)@[h as int].data.assigned_workers@[mi] && old(workers)@[wi].data.house_assigned;
                assert(wi == k as int);
            }
        }
    }
    let hm = &mut houses[h];
    hm.data.assigned_workers.push(wid);
    let mut wnew: Worker = workers[k];
    wnew.pos = house_pos;
    wnew.state_next = WorkerState::Working;
    wnew.data.house_pos = house_tile;
    wnew.data.house_assigned = true;
    workers[k] = wnew;
    proof {
        let hs0 = old(houses)@;
        let ws0 = old(workers)@;
        let hi = h as int;
        let ki = k as int;
        assert(forall|hh: int| 0 <= hh < hs0.len() && hh != hi ==> houses@[hh] == hs0[hh]);
        assert(houses@[hi].data.assigned_workers@ == hs0[hi].data.assigned_workers@.push(
            ws0[ki].id,
        ));
        assert(workers@ == ws0.update(ki, housed_worker_s(ws0[ki], hs0[hi])));
        assert(houses@[hi].data.wf()) by {
            assert(houses@[hi].data.assigned_workers@.no_duplicates()) by {
                let s0 = hs0[hi].data.assigned_workers@;
                let s1 = houses@[hi].data.assigned_workers@;
                assert(s1 == s0.push(wid));
                assert(forall|a: int, b: int|
                    0 <= a < s1.len() && 0 <= b < s1.len() && a != b ==> s1[a] != s1[b]) by {
                    assert forall|a: int, b: int|
                        0 <= a < s1.len() && 0 <= b < s1.len() && a != b implies s1[a] != s1[b] by {
                        if a < s0.len() && b < s0.len() {
                            assert(s1[a] == s0[a] && s1[b] == s0[b]);
                        } else if a == s0.len() {
                            assert(s1[b] == s0[b]);
                            assert(!s0.contains(wid));
                        } else {
                            assert(s1[a] == s0[a]);
                            assert(!s0.contains(wid));
                        }
                    }
                }
            }
        }
        assert(house_member_link_s(houses@, workers@)) by {
            assert forall|hj: int, mi: int|
                0 <= hj < houses@.len() && 0 <= mi
                    < houses@[hj].data.assigned_workers@.len() implies #[trigger] member_backed_s(
                houses@,
                workers@,
                hj,
                mi,
            ) by {
                let target_id = houses@[hj].data.assigned_workers@[mi];
                if hj == hi && mi == hs0[hi].data.assigned_workers@.len() {
                    assert(workers@[ki].id == wid && workers@[ki].data.house_assigned);
                } else {
                    assert(hs0[hj].data.assigned_workers@[mi] == target_id);
                    assert(member_backed_s(hs0, ws0, hj, mi));
                    let wi = choose|wi: int|
                        0 <= wi < ws0.len() && (#[trigger] ws0[wi]).id == target_id
                            && ws0[wi].data.house_assigned;
                    assert(workers@[wi].id == target_id && workers@[wi].data.house_assigned);
                }
            }
        }
    }
}

/// The clock-gated work window: late morning (AM hour 8 or later) through
/// late evening (PM hours before 9).
pub open spec fn is_work_time_s(w: crate::world::WorldSettings) -> bool {
    ||| (w.meridiem == crate::world::Meridiem::AM && w.actual_hour >= 8)
    ||| (w.meridiem == crate::world::Meridiem::PM && w.actual_hour < 9)
}

pub fn is_work_time(w: &crate::world::WorldSettings) -> (r: bool)
    ensures
        r == is_work_time_s(*w),
{
    let am: bool = matches!(w.meridiem, crate::world::Meridiem::AM);
    (am && w.actual_hour >= 8) || (!am && w.actual_hour < 9)
}

/// A plot no worker has claimed.
pub open spec fn plot_unassigned_s(p: crate::crop::DirtPlot) -> bool {
    !p.data.worker_assigned_bool
}

/// The agent after claiming plot `p`.
pub open spec fn crop_claimed_worker_s(w: Worker, p: crate::crop::DirtPlot) -> Worker {
    Worker {
        data: WorkerData { target_crop_pos: Some(p.pos), target_crop_entity: Some(p.id), ..w.data },
        ..w
    }
}

/// The agent moved one ease-step toward `target`.
pub open spec fn decayed_worker_s(w: Worker, target: Pos, dt: int) -> Worker {
    Worker {
        pos: Pos {
            x: crate::geom::step_decay_s(w.pos.x as int, target.x as int, dt) as i64,
            y: crate::geom::step_decay_s(w.pos.y as int, target.y as int, dt) as i64,
        },
        ..w
    }
}

/// Crop tending, claim phase: a Working agent with no plot claims the first
/// unclaimed plot in iteration order, which records the agent as its
/// assigned worker.
pub fn crop_claim(plots: &mut Vec<crate::crop::DirtPlot>, workers: &mut Vec<Worker>, i: usize)
    requires
        i < old(workers)@.len(),
        old(workers)@[i as int].wf(),
        forall|j: int| 0 <= j < old(plots)@.len() ==> (#[trigger] old(plots)@[j]).pos.wf(),
    ensures
        final(workers)@.len() == old(workers)@.len(),
        final(plots)@.len() == old(plots)@.len(),
        forall|k: int|
            0 <= k < old(workers)@.len() && k != i ==> final(workers)@[k] == old(workers)@[k],
        final(workers)@[i as int].wf(),
        old(workers)@[i as int].data.target_crop_pos is Some ==> (*final(workers) == *old(workers)
            && *final(plots) == *old(plots)),
        old(workers)@[i as int].data.target_crop_pos is None ==> ({
            let w = old(workers)@[i as int];
            &&& (forall|j: int|
                0 <= j < old(plots)@.len() ==> !plot_unassigned_s(#[trigger] old(plots)@[j]))
                ==> (*final(workers) == *old(workers) && *final(plots) == *old(plots))
            &&& (exists|j: int|
                0 <= j < old(plots)@.len() && plot_unassigned_s(#[trigger] old(plots)@[j])) ==> (
            exists|j: int|
                {
                    &&& 0 <= j < old(plots)@.len()
                    &&& plot_unassigned_s(#[trigger] old(plots)@[j])
                    &&& forall|jj: int| 0 <= jj < j ==> !plot_unassigned_s(old(plots)@[jj])
                    &&& final(plots)@ == old(plots)@.update(
                        j,
                        crate::crop::DirtPlot {
                            data: crate::crop::PreparedDirtData {
                                worker_assigned_bool: true,
                                worker_assigned_entity: w.id,
                                ..old(plots)@[j].data
                            },
                            ..old(plots)@[j]
                        },
                    )
                    &&& final(workers)@[i as int] == crop_claimed_worker_s(w, old(plots)@[j])
                })
        }),
        forall|j: int|
            0 <= j < old(plots)@.len() ==> {
                let a = #[trigger] old(plots)@[j];
                let b = final(plots)@[j];
                b.id == a.id && b.pos == a.pos && b.data.growth_state == a.data.growth_state
                    && b.data.growth_active == a.data.growth_active && b.data.growth_state_timer
                    == a.data.growth_state_timer && (a.data.worker_assigned_bool
                    ==> b == a)
            },
{
    let w: Worker = workers[i];
    if w.data.target_crop_pos.is_some() {
        return ;
    }
    let n: usize = plots.len();
    let mut j: usize = 0;
    loop
        invariant
            n == plots@.len(),
            j <= n,
            *plots == *old(plots),
            *workers == *old(workers),
            forall|jj: int| 0 <= jj < j ==> !plot_unassigned_s(#[trigger] plots@[jj]),
        ensures
            *plots == *old(plots),
            *workers == *old(workers),
            j <= n,
            j < n ==> plot_unassigned_s(plots@[j as int]),
            j < n ==> forall|jj: int| 0 <= jj < j ==> !plot_unassigned_s(#[trigger] plots@[jj]),
            j == n ==> forall|jj: int| 0 <= jj < n ==> !plot_unassigned_s(#[trigger] plots@[jj]),
        decreases n - j,
    {
        if j >= n {
            break ;
        }
        if !plots[j].data.worker_assigned_bool {
            break ;
        }
        j = j + 1;
    }
    if j >= n {
        return ;
    }
    let plot: crate::crop::DirtPlot = plots[j];
    let pm = &mut plots[j];
    pm.data.worker_assigned_bool = true;
    pm.data.worker_assigned_entity = w.id;
    let mut wnew: Worker = w;
    wnew.data.target_crop_pos = Some(plot.pos);
    wnew.data.target_crop_entity = Some(plot.id);
    workers[i] = wnew;
    proof {
        assert(workers@[i as int] == crop_claimed_worker_s(w, old(plots)@[j as int]));
        assert(plots@ == old(plots)@.update(
            j as int,
            crate::crop::DirtPlot {
                data: crate::crop::PreparedDirtData {
                    worker_assigned_bool: true,
                    worker_assigned_entity: w.id,
                    ..old(plots)@[j as int].data
                },
                ..old(plots)@[j as int]
            },
        ));
    }
}

/// The first plot with identity `id`.
pub fn find_plot(plots: &Vec<crate::crop::DirtPlot>, id: u64) -> (r: Option<usize>)
    ensures
        match r {
            Some(j) => {
                &&& 0 <= j < plots@.len()
                &&& plots@[j as int].id == id
                &&& forall|jj: int| 0 <= jj < j ==> (#[trigger] plots@[jj]).id != id
            },
            None => forall|jj: int| 0 <= jj < plots@.len() ==> (#[trigger] plots@[jj]).id != id,
        },
{
    let n: usize = plots.len();
    let mut j: usize = 0;
    while j < n
        invariant
            n == plots@.len(),
            j <= n,
            forall|jj: int| 0 <= jj < j ==> (#[trigger] plots@[jj]).id != id,
        decreases n - j,
    {
        if plots[j].id == id {
            return Some(j);
        }
        j = j + 1;
    }
    None
}

/// Crop tending, commute phase: during the work window the agent eases
/// toward its claimed plot; once within tending distance it marks itself at
/// work and its plot actively growing, and while farther away both marks
/// are clear.  Outside the window it eases toward its home tile instead,
/// leaving the marks alone.
pub fn crop_commute(
    plots: &mut Vec<crate::crop::DirtPlot>,
    workers: &mut Vec<Worker>,
    i: usize,
    clock: &crate::world::WorldSettings,
    dt: u64,
)
    requires
        i < old(workers)@.len(),
        old(workers)@[i as int].wf(),
        dt <= MAX_TICK_MS,
    ensures
        final(workers)@.len() == old(workers)@.len(),
        final(plots)@.len() == old(plots)@.len(),
        forall|k: int|
            0 <= k < old(workers)@.len() && k != i ==> final(workers)@[k] == old(workers)@[k],
        final(workers)@[i as int].wf(),
        old(workers)@[i as int].data.target_crop_pos is None ==> (*final(workers) == *old(workers)
            && *final(plots) == *old(plots)),
        old(workers)@[i as int].data.target_crop_pos is Some ==> ({
            let w = old(workers)@[i as int];
            let tp = w.data.target_crop_pos->0;
            if is_work_time_s(*clock) {
                let moved = decayed_worker_s(w, tp, dt as int);
                let near = moved.pos.within_s(tp, CROP_NEAR_DISTANCE as int);
                &&& final(workers)@[i as int] == (Worker {
                    data: WorkerData { target_crop_active: near, ..moved.data },
                    ..moved
                })
                &&& ({
                    let tid = w.data.target_crop_entity->0;
                    &&& (forall|jj: int|
                        0 <= jj < old(plots)@.len() ==> (#[trigger] old(plots)@[jj]).id != tid)
                        ==> *final(plots) == *old(plots)
                    &&& (exists|jj: int|
                        0 <= jj < old(plots)@.len() && (#[trigger] old(plots)@[jj]).id == tid)
                        ==> (exists|j: int|
                        {
                            &&& 0 <= j < old(plots)@.len()
                            &&& old(plots)@[j].id == tid
                            &&& forall|jj: int|
                                0 <= jj < j ==> (#[trigger] old(plots)@[jj]).id != tid
                            &&& final(plots)@ == old(plots)@.update(
                                j,
                                crate::crop::DirtPlot {
                                    data: crate::crop::PreparedDirtData {
                                        growth_active: near,
                                        ..old(plots)@[j].data
                                    },
                                    ..old(plots)@[j]
                                },
                            )
                        })
                })
            } else {
                &&& final(workers)@[i as int] == decayed_worker_s(
                    w,
                    Pos::of_tile_s(w.data.house_pos),
                    dt as int,
                )
                &&& *final(plots) == *old(plots)
            }
        }),
        forall|j: int|
            0 <= j < old(plots)@.len() ==> {
                let a = #[trigger] old(plots)@[j];
                let b = final(plots)@[j];
                b.id == a.id && b.pos == a.pos && b.data.growth_state == a.data.growth_state
                    && b.data.growth_state_timer == a.data.growth_state_timer
                    && b.data.worker_assigned_bool == a.data.worker_assigned_bool
                    && b.data.worker_assigned_entity == a.data.worker_assigned_entity
            },
{
    let w: Worker = workers[i];
    let tp: Pos = match w.data.target_crop_pos {
        Some(p) => p,
        None => {
            return ;
        },
    };
    if is_work_time(clock) {
        let nx: i64 = step_axis_decay(w.pos.x, tp.x, dt);
        let ny: i64 = step_axis_decay(w.pos.y, tp.y, dt);
        let moved_pos: Pos = Pos { x: nx, y: ny };
        let near: bool = moved_pos.within(tp, CROP_NEAR_DISTANCE);
        let mut wnew: Worker = w;
        wnew.pos = moved_pos;
        wnew.data.target_crop_active = near;
        workers[i] = wnew;
        let tid: u64 = w.data.target_crop_entity.unwrap();
        match find_plot(plots, tid) {
            Some(j) => {
                let pm = &mut plots[j];
                pm.data.growth_active = near;
                proof {
                    assert(plots@ == old(plots)@.update(
                        j as int,
                        crate::crop::DirtPlot {
                            data: crate::crop::PreparedDirtData {
                                growth_active: near,
                                ..old(plots)@[j as int].data
                            },
                            ..old(plots)@[j as int]
                        },
                    ));
                }
            },
            None => {},
        }
    } else {
        let home: Pos = crate::geom::Pos::of_tile(w.data.house_pos);
        let nx: i64 = step_axis_decay(w.pos.x, home.x, dt);
        let ny: i64 = step_axis_decay(w.pos.y, home.y, dt);
        let mut wnew: Worker = w;
        wnew.pos = Pos { x: nx, y: ny };
        workers[i] = wnew;
        proof {
            assert(workers@[i as int] == decayed_worker_s(
                w,
                Pos::of_tile_s(w.data.house_pos),
                dt as int,
            ));
        }
    }
}

/// The outcome of the commute phase for one agent, which depends only on
/// the agent itself, the clock and the tick delta: no claimed plot means no
/// movement; during the work window the agent eases toward its plot and its
/// at-work mark tracks whether it arrived; outside the window it eases
/// toward its home tile.
pub open spec fn crop_commute_outcome_s(
    w: Worker,
    clock: crate::world::WorldSettings,
    dt: int,
) -> Worker {
    if w.data.target_crop_pos is None {
        w
    } else if is_work_time_s(clock) {
        let tp = w.data.target_crop_pos->0;
        let moved = decayed_worker_s(w, tp, dt);
        let near = moved.pos.within_s(tp, CROP_NEAR_DISTANCE as int);
        Worker { data: WorkerData { target_crop_active: near, ..moved.data }, ..moved }
    } else {
        decayed_worker_s(w, Pos::of_tile_s(w.data.house_pos), dt)
    }
}

/// What the tending pass may do to an agent: identity, states, coin fields,
/// housing fields and coin count all stay.
pub open spec fn tend_frame_s(a: Worker, b: Worker) -> bool {
    &&& b.id == a.id
    &&& b.state == a.state
    &&& b.state_next == a.state_next
    &&& b.data.coins == a.data.coins
    &&& b.data.house_pos == a.data.house_pos
    &&& b.data.house_assigned == a.data.house_assigned
    &&& b.data.target_coin_pos == a.data.target_coin_pos
    &&& b.data.target_coin_dir == a.data.target_coin_dir
    &&& b.data.target_coin_entity == a.data.target_coin_entity
}

/// What the tending pass may do to a plot: only claim it for a worker or
/// toggle its actively-growing mark; growth state and timer stay.
pub open spec fn tend_plot_frame_s(a: crate::crop::DirtPlot, b: crate::crop::DirtPlot) -> bool {
    &&& b.id == a.id
    &&& b.pos == a.pos
    &&& b.data.growth_state == a.data.growth_state
    &&& b.data.growth_state_timer == a.data.growth_state_timer
    &&& b.data.item_type == a.data.item_type
    &&& b.data.crop_type == a.data.crop_type
    &&& b.data.crop_type_selected == a.data.crop_type_selected
    &&& b.data.growth_complete == a.data.growth_complete
    &&& (a.data.worker_assigned_bool ==> b.data.worker_assigned_bool
        && b.data.worker_assigned_entity == a.data.worker_assigned_entity)
}

/// Crop-tending stage: every Working agent claims a plot if it has none,
/// then commutes — toward its plot during the work window, marking it
/// actively growing once close, and toward its home outside the window.
#[verifier::rlimit(100)]
#[verifier::spinoff_prover]
pub fn worker_life_cycle(
    plots: &mut Vec<crate::crop::DirtPlot>,
    workers: &mut Vec<Worker>,
    clock: &crate::world::WorldSettings,
    dt: u64,
)
    requires
        forall|k: int| 0 <= k < old(workers)@.len() ==> (#[trigger] old(workers)@[k]).wf(),
        forall|j: int| 0 <= j < old(plots)@.len() ==> (#[trigger] old(plots)@[j]).pos.wf(),
        forall|j: int| 0 <= j < old(plots)@.len() ==> (#[trigger] old(plots)@[j]).data.wf(),
        dt <= MAX_TICK_MS,
    ensures
        final(workers)@.len() == old(workers)@.len(),
        final(plots)@.len() == old(plots)@.len(),
        forall|k: int| 0 <= k < final(workers)@.len() ==> (#[trigger] final(workers)@[k]).wf(),
        forall|j: int| 0 <= j < final(plots)@.len() ==> (#[trigger] final(plots)@[j]).pos.wf(),
        forall|j: int| 0 <= j < final(plots)@.len() ==> (#[trigger] final(plots)@[j]).data.wf(),
        forall|k: int|
            0 <= k < old(workers)@.len() ==> tend_frame_s(
                #[trigger] old(workers)@[k],
                final(workers)@[k],
            ),
        forall|k: int|
            0 <= k < old(workers)@.len() && (#[trigger] old(workers)@[k]).state
                != WorkerState::Working ==> final(workers)@[k] == old(workers)@[k],
        forall|j: int|
            0 <= j < old(plots)@.len() ==> tend_plot_frame_s(
                #[trigger] old(plots)@[j],
                final(plots)@[j],
            ),
        single_claim_s(old(workers)@) ==> single_claim_s(final(workers)@),
        forall|k: int|
            0 <= k < old(workers)@.len() && (#[trigger] old(workers)@[k]).state
                == WorkerState::Working && old(workers)@[k].data.target_crop_pos is Some ==> final(workers)@[k] == crop_commute_outcome_s(old(workers)@[k], *clock, dt as int),
        forall|k: int|
            0 <= k < old(workers)@.len() && (#[trigger] old(workers)@[k]).state
                == WorkerState::Working && old(workers)@[k].data.target_crop_pos is None ==> (
            final(workers)@[k] == old(workers)@[k] || exists|j: int|
                {
                    &&& 0 <= j < old(plots)@.len()
                    &&& plot_unassigned_s(#[trigger] old(plots)@[j])
                    &&& final(workers)@[k] == crop_commute_outcome_s(
                        crop_claimed_worker_s(old(workers)@[k], old(plots)@[j]),
                        *clock,
                        dt as int,
                    )
                    &&& final(plots)@[j].data.worker_assigned_bool
                    &&& final(plots)@[j].data.worker_assigned_entity == old(workers)@[k].id
                }),
        forall|k: int|
            (0 <= k < old(workers)@.len() && (#[trigger] old(workers)@[k]).state
                == WorkerState::Working && old(workers)@[k].data.target_crop_pos is None) ==> {
                ||| final(workers)@[k].data.target_crop_entity is Some
                ||| forall|j: int|
                    0 <= j < old(plots)@.len() ==> (
                    #[trigger] final(plots)@[j]).data.worker_assigned_bool
            },
{
    let n: usize = workers.len();
    let mut i: usize = 0;
    while i < n
        invariant
            n == workers@.len(),
            workers@.len() == old(workers)@.len(),
            plots@.len() == old(plots)@.len(),
            i <= n,
            dt <= MAX_TICK_MS,
            forall|k: int| 0 <= k < n ==> (#[trigger] workers@[k]).wf(),
            forall|j: int| 0 <= j < plots@.len() ==> (#[trigger] plots@[j]).pos.wf(),
            forall|j: int| 0 <= j < plots@.len() ==> (#[trigger] plots@[j]).data.wf(),
            forall|k: int| i <= k < n ==> workers@[k] == old(workers)@[k],
            forall|k: int| 0 <= k < n ==> tend_frame_s(#[trigger] old(workers)@[k], workers@[k]),
            forall|k: int|
                0 <= k < n && (#[trigger] old(workers)@[k]).state != WorkerState::Working
                    ==> workers@[k] == old(workers)@[k],
            forall|j: int|
                0 <= j < plots@.len() ==> tend_plot_frame_s(
                    #[trigger] old(plots)@[j],
                    plots@[j],
                ),
            forall|k: int|
                0 <= k < i && (#[trigger] old(workers)@[k]).state == WorkerState::Working
                    && old(workers)@[k].data.target_crop_pos is Some ==> workers@[k]
                    == crop_commute_outcome_s(old(workers)@[k], *clock, dt as int),
            forall|k: int|
                0 <= k < i && (#[trigger] old(workers)@[k]).state == WorkerState::Working
                    && old(workers)@[k].data.target_crop_pos is None ==> (workers@[k] == old(workers)@[k] || exists|j: int|
                    {
                        &&& 0 <= j < old(plots)@.len()
                        &&& plot_unassigned_s(#[trigger] old(plots)@[j])
                        &&& workers@[k] == crop_commute_outcome_s(
                            crop_claimed_worker_s(old(workers)@[k], old(plots)@[j]),
                            *clock,
                            dt as int,
                        )
                        &&& plots@[j].data.worker_assigned_bool
                        &&& plots@[j].data.worker_assigned_entity == old(workers)@[k].id
                    }),
            forall|k: int|
                (0 <= k < i && (#[trigger] old(workers)@[k]).state == WorkerState::Working
                    && old(workers)@[k].data.target_crop_pos is None) ==> {
                    ||| workers@[k].data.target_crop_entity is Some
                    ||| forall|j: int|
                        0 <= j < old(plots)@.len() ==> (
                        #[trigger] plots@[j]).data.worker_assigned_bool
                },
        decreases n - i,
    {
        let ghost pre_ws_t = workers@;
        let ghost pre_w = workers@[i as int];
        let ghost pre_plots = plots@;
        let working: bool = matches!(workers[i].state, WorkerState::Working);
        if working {
            crop_claim(plots, workers, i);
            let ghost mid_w = workers@[i as int];
            let ghost mid_plots = plots@;
            crop_commute(plots, workers, i, clock, dt);
            proof {
                let ii = i as int;
                let pl0 = old(plots)@;
                assert(forall|j: int|
                    0 <= j < pl0.len() ==> (#[trigger] pre_plots[j]).id == pl0[j].id
                        && pre_plots[j].pos == pl0[j].pos);
                if pre_w.data.target_crop_pos is None && mid_w != pre_w {
                    let j = choose|j: int|
                        {
                            &&& 0 <= j < pre_plots.len()
                            &&& plot_unassigned_s(pre_plots[j])
                            &&& forall|jj: int| 0 <= jj < j ==> !plot_unassigned_s(pre_plots[jj])
                            &&& mid_plots == pre_plots.update(
                                j,
                                crate::crop::DirtPlot {
                                    data: crate::crop::PreparedDirtData {
                                        worker_assigned_bool: true,
                                        worker_assigned_entity: pre_w.id,
                                        ..pre_plots[j].data
                                    },
                                    ..pre_plots[j]
                                },
                            )
                            &&& mid_w == crop_claimed_worker_s(pre_w, pre_plots[j])
                        };
                    assert(plot_unassigned_s(pl0[j]));
                    assert(crop_claimed_worker_s(pre_w, pre_plots[j]) == crop_claimed_worker_s(
                        pre_w,
                        pl0[j],
                    ));
                    assert(mid_plots[j].data.worker_assigned_bool);
                    assert(mid_plots[j].data.worker_assigned_entity == pre_w.id);
                    assert(plots@[j].data.worker_assigned_bool && plots@[j].data.worker_assigned_entity == pre_w.id);
                    assert(workers@[ii] == crop_commute_outcome_s(mid_w, *clock, dt as int));
                    // the fresh claim survives the commute
                    assert(workers@[ii].data.target_crop_entity is Some);
                } else {
                    assert(mid_w == pre_w && mid_plots == pre_plots);
                    assert(workers@[ii] == crop_commute_outcome_s(pre_w, *clock, dt as int));
                    if pre_w.data.target_crop_pos is None {
                        // the agent looked for a plot and found none free
                        assert(forall|jx: int|
                            0 <= jx < pre_plots.len() ==> !plot_unassigned_s(
                                #[trigger] pre_plots[jx],
                            )) by {
                            if exists|jx: int|
                                0 <= jx < pre_plots.len() && plot_unassigned_s(
                                    #[trigger] pre_plots[jx],
                                ) {
                                assert(mid_w.data.target_crop_pos is Some);
                            }
                        }
                    }
                }
                // assignment marks only turn on and keep their claimant
                assert(forall|jx: int|
                    0 <= jx < pl0.len() && (#[trigger] pre_plots[jx]).data.worker_assigned_bool
                        ==> plots@[jx].data.worker_assigned_bool
                        && plots@[jx].data.worker_assigned_entity
                        == pre_plots[jx].data.worker_assigned_entity);
                // forcing: settled agents stay settled, and agent i settles now
                assert forall|k: int|
                    (0 <= k < ii + 1 && (#[trigger] old(workers)@[k]).state
                        == WorkerState::Working && old(workers)@[k].data.target_crop_pos
                        is None) implies {
                    ||| workers@[k].data.target_crop_entity is Some
                    ||| forall|jx: int|
                        0 <= jx < pl0.len() ==> (
                        #[trigger] plots@[jx]).data.worker_assigned_bool
                } by {
                    if !(workers@[k].data.target_crop_entity is Some) {
                        if k < ii {
                            assert(workers@[k] == pre_ws_t[k]);
                            assert(forall|jx: int|
                                0 <= jx < pl0.len() ==> (
                                #[trigger] pre_plots[jx]).data.worker_assigned_bool);
                        } else {
                            assert(mid_w == pre_w);
                            assert(forall|jx: int|
                                0 <= jx < pre_plots.len() ==> !plot_unassigned_s(
                                    #[trigger] pre_plots[jx],
                                ));
                        }
                        assert(forall|jx: int|
                            0 <= jx < pl0.len() ==> (
                            #[trigger] plots@[jx]).data.worker_assigned_bool);
                    }
                }

            }
        }
        i = i + 1;
    }
    proof {
        if single_claim_s(old(workers)@) {
            assert forall|k1: int, k2: int|
                0 <= k1 < workers@.len() && 0 <= k2 < workers@.len() && k1 != k2 && (
            #[trigger] workers@[k1]).data.target_coin_entity is Some && (
            #[trigger] workers@[k2]).data.target_coin_entity is Some implies
                workers@[k1].data.target_coin_entity != workers@[k2].data.target_coin_entity by {
                assert(tend_frame_s(old(workers)@[k1], workers@[k1]));
                assert(tend_frame_s(old(workers)@[k2], workers@[k2]));
            }
        }
    }
}





/// Everything the foraging stage promises about agents and pickups, as one
/// relation between the sequences it starts from (`ws0`, `ps0`) and leaves
/// behind (`ws1`, `ps1`, with `cs1` the drop set as the tick ends).
pub open spec fn forage_outcomes_s(
    ws0: Seq<Worker>,
    ps0: Seq<CoinPickup>,
    cs1: Seq<Tile>,
    dt: int,
    ws1: Seq<Worker>,
    ps1: Seq<CoinPickup>,
) -> bool {
    &&& ws1.len() == ws0.len()
    &&& ps1.len() == ps0.len()
    &&& forall|k: int|
        0 <= k < ws0.len() && (#[trigger] ws0[k]).state != WorkerState::Foraging ==> ws1[k]
            == ws0[k]
    &&& forall|k: int|
        0 <= k < ws0.len() && (#[trigger] ws0[k]).state == WorkerState::Foraging
            && !wants_claim_s(ws0[k]) ==> ws1[k] == forage_pursue_outcome_s(ws0[k], ps0, dt)
    &&& forall|k: int|
        0 <= k < ws0.len() && (#[trigger] ws0[k]).state == WorkerState::Foraging
            && wants_claim_s(ws0[k]) ==> (ws1[k] == ws0[k] || exists|j: int|
            {
                &&& 0 <= j < ps0.len()
                &&& !(#[trigger] ps0[j]).despawned
                &&& ws0[k].pos.within_s(ps0[j].pos, WORKER_VIEW_DISTANCE as int)
                &&& ws1[k] == forage_pursue_outcome_s(
                    coin_claimed_worker_s(ws0[k], ps0[j]),
                    ps0,
                    dt,
                )
                &&& ws0[k].pos.within_s(ps0[j].pos, COIN_COLLECT_OFFSET as int)
                    ==> collected_pickup_marked_s(ps0, ps0[j].id, ps1, cs1)
            })
    &&& forall|k: int|
        (0 <= k < ws0.len() && (#[trigger] ws0[k]).state == WorkerState::Foraging
            && !wants_claim_s(ws0[k]) && ws0[k].data.target_coin_entity is Some
            && ws0[k].pos.within_s(
            ws0[k].data.target_coin_pos->0,
            COIN_COLLECT_OFFSET as int,
        ) && (exists|jj: int|
            0 <= jj < ps0.len() && (#[trigger] ps0[jj]).id
                == ws0[k].data.target_coin_entity->0)) ==> collected_pickup_marked_s(
            ps0,
            ws0[k].data.target_coin_entity->0,
            ps1,
            cs1,
        )
    &&& forall|k: int|
        (0 <= k < ws0.len() && (#[trigger] ws0[k]).state == WorkerState::Foraging
            && wants_claim_s(ws0[k])) ==> {
            ||| ws1[k].data.target_coin_entity is Some
            ||| ws1[k].data.coins == 1
            ||| no_pickup_was_available_s(ws0, k, ps0, ps1, ws1)
        }
}

/// Everything the housing stage promises, as one relation.
pub open spec fn assign_outcome_s(
    hs0: Seq<crate::buildings::House>,
    ws0: Seq<Worker>,
    hs1: Seq<crate::buildings::House>,
    ws1: Seq<Worker>,
) -> bool {
    &&& hs1.len() == hs0.len()
    &&& ws1.len() == ws0.len()
    &&& (forall|h: int| 0 <= h < hs0.len() ==> !(#[trigger] hs0[h]).data.has_room_s()) ==> (hs1
        =~= hs0 && ws1 =~= ws0)
    &&& (forall|k: int| 0 <= k < ws0.len() ==> !employable_s(#[trigger] ws0[k])) ==> (hs1 =~= hs0
        && ws1 =~= ws0)
    &&& ((exists|h: int| 0 <= h < hs0.len() && (#[trigger] hs0[h]).data.has_room_s()) && (exists|
        k: int,
    |
        0 <= k < ws0.len() && employable_s(#[trigger] ws0[k]))) ==> (exists|h: int, k: int|
        {
            &&& 0 <= h < hs0.len()
            &&& (#[trigger] hs0[h]).data.has_room_s()
            &&& forall|hh: int| 0 <= hh < h ==> !(#[trigger] hs0[hh]).data.has_room_s()
            &&& 0 <= k < ws0.len()
            &&& employable_s(#[trigger] ws0[k])
            &&& forall|kk: int| 0 <= kk < k ==> !employable_s(#[trigger] ws0[kk])
            &&& forall|hh: int| 0 <= hh < hs0.len() && hh != h ==> hs1[hh] == hs0[hh]
            &&& hs1[h].data.assigned_workers@ == hs0[h].data.assigned_workers@.push(ws0[k].id)
            &&& ws1 == ws0.update(k, housed_worker_s(ws0[k], hs0[h]))
        })
}

/// Everything the tending stage promises about agents and plots, as one
/// relation.
pub open spec fn tend_outcomes_s(
    pl0: Seq<crate::crop::DirtPlot>,
    ws0: Seq<Worker>,
    clock: crate::world::WorldSettings,
    dt: int,
    pl1: Seq<crate::crop::DirtPlot>,
    ws1: Seq<Worker>,
) -> bool {
    &&& pl1.len() == pl0.len()
    &&& ws1.len() == ws0.len()
    &&& forall|k: int|
        0 <= k < ws0.len() && (#[trigger] ws0[k]).state != WorkerState::Working ==> ws1[k]
            == ws0[k]
    &&& forall|j: int|
        0 <= j < pl0.len() ==> tend_plot_frame_s(#[trigger] pl0[j], pl1[j])
    &&& forall|k: int|
        0 <= k < ws0.len() && (#[trigger] ws0[k]).state == WorkerState::Working
            && ws0[k].data.target_crop_pos is Some ==> ws1[k] == crop_commute_outcome_s(
            ws0[k],
            clock,
            dt,
        )
    &&& forall|k: int|
        0 <= k < ws0.len() && (#[trigger] ws0[k]).state == WorkerState::Working
            && ws0[k].data.target_crop_pos is None ==> (ws1[k] == ws0[k] || exists|j: int|
            {
                &&& 0 <= j < pl0.len()
                &&& plot_unassigned_s(#[trigger] pl0[j])
                &&& ws1[k] == crop_commute_outcome_s(
                    crop_claimed_worker_s(ws0[k], pl0[j]),
                    clock,
                    dt,
                )
                &&& pl1[j].data.worker_assigned_bool
                &&& pl1[j].data.worker_assigned_entity == ws0[k].id
            })
    &&& forall|k: int|
        (0 <= k < ws0.len() && (#[trigger] ws0[k]).state == WorkerState::Working
            && ws0[k].data.target_crop_pos is None) ==> {
            ||| ws1[k].data.target_crop_entity is Some
            ||| forall|j: int| 0 <= j < pl0.len() ==> (#[trigger] pl1[j]).data.worker_assigned_bool
        }
}

} // verus!
