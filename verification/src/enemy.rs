//! Enemies: their formation, the three states each one moves through, the
//! two schedulers that make them dive and shoot, and what happens when a
//! player's bullet reaches one.
//!
//! An enemy waits in its formation slot (`Idle`), dives along a fixed line
//! toward where the player was when the dive began (`Kamikaze`), and, having
//! missed, re-enters from above and flies home (`ReturningToBase`).

use crate::area::PlayArea;
use crate::area::MARGIN;
use crate::bullet::fire;
use crate::bullet::Bullet;
use crate::bullet::BulletShotEvent;
use crate::bullet::Instigator;
use crate::collider::Circle;
use crate::player::Player;
use crate::random::random_index;
use crate::slots::lemma_live_count_full;
use crate::slots::live_count;
use crate::timer::Cooldown;
use crate::timer::TimerState;
use crate::vector::closer_than;
use crate::vector::direction_to;
use crate::vector::dist_sq;
use crate::vector::lemma_unit_toward;
use crate::vector::saturate;
use crate::vector::saturated;
use crate::vector::unit_toward;
use crate::vector::Vec2;
use crate::vector::UNIT;
use bevy::time::TimerMode;
use vstd::prelude::*;

verus! {

/// How many enemies make up a wave.
pub const ENEMIES_PER_WAVE: usize = 16;

/// How many enemies stand in one row of the formation.
pub const ENEMIES_PER_ROW: usize = 8;

/// The side of an enemy's sprite: 64 units.
pub const ENEMY_SIZE: i32 = 64_000;

/// The distance between two rows of the formation: one sprite.
pub const ROW_SPACING: i32 = 64_000;

/// The distance between two columns of the formation: two sprites.
pub const COLUMN_SPACING: i32 = 128_000;

/// How far left of the middle the first column stands: seven and a half
/// sprites.
pub const FORMATION_REACH: i32 = 480_000;

/// How far below the top edge the first row stands: two sprites.
pub const FORMATION_DROP: i32 = 128_000;

/// How fast an enemy flies, in units per second.
pub const ENEMY_SPEED: u32 = 200;

/// The interval between dives: 5 seconds.
pub const KAMIKAZE_TIMER: u64 = 5_000_000_000;

/// The interval between enemy shots: 3 seconds.
pub const SHOOTING_TIMER: u64 = 3_000_000_000;

/// The radius of an enemy's hit circle: 25 units.
pub const ENEMY_COLLIDER_RADIUS: u32 = 25_000;

/// An enemy flying home has arrived once it is nearer than this: 3 units.
pub const HOME_RADIUS: u32 = 3_000;

/// How far below an enemy's centre its bullets appear: half a sprite and
/// one unit more.
pub const MUZZLE_DROP: i32 = 33_000;

/// What an enemy is doing.
#[derive(Clone, Copy, Debug, PartialEq, Eq, Structural)]
pub enum EnemyState {
    Idle,
    Kamikaze,
    ReturningToBase,
}

/// One enemy. `base_position` is its place in the formation and never
/// changes; `direction` is a unit vector while it flies and zero while it
/// waits.
#[derive(Clone, Copy, Debug, PartialEq, Eq, Structural)]
pub struct Enemy {
    pub state: EnemyState,
    pub position: Vec2,
    pub base_position: Vec2,
    pub direction: Vec2,
}

/// What happened to an enemy. `Died` names the slot of the enemy that a
/// player's bullet struck; the enemy is still in its slot when the
/// notification is posted.
#[derive(Clone, Copy, Debug, PartialEq, Eq, Structural)]
pub enum EnemyEvent {
    Died(usize),
}

impl Enemy {
    /// An enemy waits exactly when it has no direction.
    pub open spec fn consistent(self) -> bool {
        (self.state == EnemyState::Idle) == (self.direction == Vec2::zero())
    }

    /// An enemy waiting in its formation slot at `position`.
    pub open spec fn at(position: Vec2) -> Enemy {
        Enemy {
            state: EnemyState::Idle,
            position,
            base_position: position,
            direction: Vec2::zero(),
        }
    }

    /// The enemy after `dt_nanos` nanoseconds of flight along its direction.
    pub open spec fn moved(self, dt_nanos: int) -> Enemy {
        Enemy {
            position: self.position.moved(self.direction, ENEMY_SPEED as int, dt_nanos),
            ..self
        }
    }

    /// Whether a dive toward `target` can begin: the enemy waits, and is not
    /// already on the target, from where there is no direction to take.
    pub open spec fn can_dive(self, target: Vec2) -> bool {
        self.state == EnemyState::Idle && self.position != target
    }

    /// The enemy after it is told to dive at `target`.
    pub open spec fn diving(self, target: Vec2) -> Enemy {
        if self.can_dive(target) {
            Enemy {
                state: EnemyState::Kamikaze,
                direction: unit_toward(self.position, target),
                ..self
            }
        } else {
            self
        }
    }

    /// Whether a dive has missed: the enemy has fallen more than the margin
    /// below the bottom edge.
    pub open spec fn has_missed(self) -> bool {
        self.state == EnemyState::Kamikaze && self.position.y < -MARGIN
    }

    /// The enemy after the check for a missed dive. One that has missed
    /// re-enters just above the top edge, straight above where it left, and
    /// heads for its base. Should it re-enter on its base, it is home.
    pub open spec fn returned(self, area: PlayArea) -> Enemy {
        let entry = Vec2 { x: self.position.x, y: area.reentry_height() as i32 };
        if !self.has_missed() {
            self
        } else if entry == self.base_position {
            Enemy { state: EnemyState::Idle, position: entry, direction: Vec2::zero(), ..self }
        } else {
            Enemy {
                state: EnemyState::ReturningToBase,
                position: entry,
                direction: unit_toward(entry, self.base_position),
                ..self
            }
        }
    }

    /// Whether an enemy flying home has arrived.
    pub open spec fn is_home(self) -> bool {
        self.state == EnemyState::ReturningToBase && dist_sq(self.position, self.base_position)
            < HOME_RADIUS * HOME_RADIUS
    }

    /// The enemy after the check for arrival: one that has arrived snaps
    /// onto its base and waits.
    pub open spec fn settled(self) -> Enemy {
        if self.is_home() {
            Enemy {
                state: EnemyState::Idle,
                position: self.base_position,
                direction: Vec2::zero(),
                ..self
            }
        } else {
            self
        }
    }

    /// The circle around the enemy that hits are tested against.
    pub open spec fn hitbox(self) -> Circle {
        Circle { center: self.position, radius: ENEMY_COLLIDER_RADIUS }
    }

    /// The shot an enemy fires: straight down, from just below its sprite.
    pub open spec fn shot(self) -> BulletShotEvent {
        BulletShotEvent {
            instigator: Instigator::Enemy,
            position: self.position.shifted(0, -MUZZLE_DROP),
            direction: Vec2 { x: 0, y: (-UNIT) as i32 },
        }
    }

    /// An enemy waiting in its formation slot at `position`.
    pub fn new(position: Vec2) -> (e: Enemy)
        ensures
            e == Enemy::at(position),
            e.consistent(),
    {
        Enemy {
            state: EnemyState::Idle,
            position,
            base_position: position,
            direction: Vec2::origin(),
        }
    }

    /// Moves the enemy along its direction at 200 units per second.
    pub fn advance(&self, dt_nanos: u64) -> (e: Enemy)
        ensures
            e == self.moved(dt_nanos as int),
            self.consistent() ==> e.consistent(),
    {
        Enemy {
            state: self.state,
            position: self.position.advance(self.direction, ENEMY_SPEED, dt_nanos),
            base_position: self.base_position,
            direction: self.direction,
        }
    }

    /// Starts a dive at `target` if the enemy waits and a direction exists.
    pub fn dive(&self, target: Vec2) -> (e: Enemy)
        ensures
            e == self.diving(target),
            self.consistent() ==> e.consistent(),
    {
        if self.state == EnemyState::Idle && self.position != target {
            Enemy {
                state: EnemyState::Kamikaze,
                position: self.position,
                base_position: self.base_position,
                direction: direction_to(self.position, target),
            }
        } else {
            *self
        }
    }

    /// Turns a missed dive into the flight home.
    pub fn turn_back(&self, area: PlayArea) -> (e: Enemy)
        ensures
            e == self.returned(area),
            self.consistent() ==> e.consistent(),
    {
        if self.state == EnemyState::Kamikaze && self.position.y < -MARGIN {
            let entry = Vec2::new(self.position.x, area.reentry());
            if entry == self.base_position {
                Enemy {
                    state: EnemyState::Idle,
                    position: entry,
                    base_position: self.base_position,
                    direction: Vec2::origin(),
                }
            } else {
                Enemy {
                    state: EnemyState::ReturningToBase,
                    position: entry,
                    base_position: self.base_position,
                    direction: direction_to(entry, self.base_position),
                }
            }
        } else {
            *self
        }
    }

    /// Lets an enemy that has come within 3 units of its base snap onto it
    /// and wait.
    pub fn settle(&self) -> (e: Enemy)
        ensures
            e == self.settled(),
            self.consistent() ==> e.consistent(),
    {
        if self.state == EnemyState::ReturningToBase && closer_than(
            self.position,
            self.base_position,
            HOME_RADIUS,
        ) {
            Enemy {
                state: EnemyState::Idle,
                position: self.base_position,
                base_position: self.base_position,
                direction: Vec2::origin(),
            }
        } else {
            *self
        }
    }

    /// The circle around the enemy: 25 units in radius.
    pub fn hit_circle(&self) -> (c: Circle)
        ensures
            c == self.hitbox(),
    {
        Circle::new(self.position, ENEMY_COLLIDER_RADIUS)
    }

    /// The shot this enemy fires.
    pub fn shoot(&self) -> (shot: BulletShotEvent)
        ensures
            shot == self.shot(),
    {
        BulletShotEvent {
            instigator: Instigator::Enemy,
            position: self.position.offset(0, -MUZZLE_DROP),
            direction: Vec2::new(0, -UNIT),
        }
    }
}

impl Enemy {
    /// Nothing that happens to an enemy breaks the rule that it waits
    /// exactly when it has no direction, or moves its base: not flight, not
    /// the order to dive, not turning back after a miss, not settling on its
    /// base.
    pub proof fn lemma_stays_consistent(self, dt_nanos: int, target: Vec2, area: PlayArea)
        requires
            self.consistent(),
        ensures
            self.moved(dt_nanos).consistent(),
            self.diving(target).consistent(),
            self.returned(area).consistent(),
            self.settled().consistent(),
            self.moved(dt_nanos).base_position == self.base_position,
            self.diving(target).base_position == self.base_position,
            self.returned(area).base_position == self.base_position,
            self.settled().base_position == self.base_position,
    {
        if self.can_dive(target) {
            lemma_unit_toward(self.position, target);
        }
        let entry = Vec2 { x: self.position.x, y: area.reentry_height() as i32 };
        if entry != self.base_position {
            lemma_unit_toward(entry, self.base_position);
        }
    }

    /// Only the order to dive turns a waiting enemy into a diving one:
    /// flight, the check for a miss and the check for arrival leave a
    /// waiting enemy waiting.
    pub proof fn lemma_waits_unless_told(self, dt_nanos: int, area: PlayArea)
        requires
            self.state == EnemyState::Idle,
        ensures
            self.moved(dt_nanos).state == EnemyState::Idle,
            self.returned(area) == self,
            self.settled() == self,
    {
    }
}

/// Whether slot `i` of the row holds an enemy.
pub open spec fn is_live(slots: Seq<Option<Enemy>>, i: int) -> bool {
    0 <= i < slots.len() && slots[i] is Some
}

/// Whether slot `i` of the row holds a waiting enemy.
pub open spec fn is_idle(slots: Seq<Option<Enemy>>, i: int) -> bool {
    is_live(slots, i) && slots[i]->0.state == EnemyState::Idle
}

/// Whether slot `i` holds an enemy that a scheduler may pick: any live one,
/// or, with `idle_only`, any waiting one.
pub open spec fn is_candidate(slots: Seq<Option<Enemy>>, i: int, idle_only: bool) -> bool {
    is_live(slots, i) && (idle_only ==> slots[i]->0.state == EnemyState::Idle)
}

/// Whether the enemy in slot `i` went from waiting to diving.
pub open spec fn began_dive(
    before: Seq<Option<Enemy>>,
    after: Seq<Option<Enemy>>,
    i: int,
) -> bool {
    is_idle(before, i) && is_live(after, i) && after[i]->0.state == EnemyState::Kamikaze
}

/// The row after the enemy in `slot` is told to dive at `target`. An empty
/// slot, or one past the end of the row, leaves the row as it is.
pub open spec fn after_dive(slots: Seq<Option<Enemy>>, slot: int, target: Vec2) -> Seq<
    Option<Enemy>,
> {
    if is_live(slots, slot) {
        slots.update(slot, Some(slots[slot]->0.diving(target)))
    } else {
        slots
    }
}

/// The row after the enemy in `slot` is taken out.
pub open spec fn without(slots: Seq<Option<Enemy>>, slot: int) -> Seq<Option<Enemy>> {
    if 0 <= slot < slots.len() {
        slots.update(slot, None)
    } else {
        slots
    }
}

/// The first enemy, at or after slot `start`, whose hit circle the bullet's
/// box touches; the row's length if there is none.
pub open spec fn first_hit_from(enemies: Seq<Option<Enemy>>, bullet: Bullet, start: int) -> int
    decreases enemies.len() - start,
{
    if start < 0 || start >= enemies.len() {
        enemies.len() as int
    } else if enemies[start] is Some && enemies[start]->0.hitbox().meets(bullet.hitbox()) {
        start
    } else {
        first_hit_from(enemies, bullet, start + 1)
    }
}

/// The first enemy that the bullet touches; the row's length if none.
pub open spec fn first_hit(enemies: Seq<Option<Enemy>>, bullet: Bullet) -> int {
    first_hit_from(enemies, bullet, 0)
}

/// Whether the slot holds a player's bullet that touches an enemy.
pub open spec fn strikes(slot: Option<Bullet>, enemies: Seq<Option<Enemy>>) -> bool {
    slot is Some && slot->0.instigator == Instigator::Player && first_hit(enemies, slot->0)
        < enemies.len()
}

/// The bullets after every player's bullet that touches an enemy is spent.
pub open spec fn after_strikes(bullets: Seq<Option<Bullet>>, enemies: Seq<Option<Enemy>>) -> Seq<
    Option<Bullet>,
> {
    Seq::new(
        bullets.len(),
        |i: int|
            if strikes(bullets[i], enemies) {
                None
            } else {
                bullets[i]
            },
    )
}

/// The death notices that the bullets cause, one for each player's bullet
/// that touches an enemy, in the order of the bullets' slots. Each names the
/// first enemy that the bullet touches.
pub open spec fn deaths(bullets: Seq<Option<Bullet>>, enemies: Seq<Option<Enemy>>) -> Seq<
    EnemyEvent,
>
    decreases bullets.len(),
{
    if bullets.len() == 0 {
        Seq::empty()
    } else {
        let before = deaths(bullets.drop_last(), enemies);
        if strikes(bullets.last(), enemies) {
            before.push(EnemyEvent::Died(first_hit(enemies, bullets.last()->0) as usize))
        } else {
            before
        }
    }
}

/// Whether one of the notices reports the death of the enemy in `slot`.
pub open spec fn reported_dead(events: Seq<EnemyEvent>, slot: int) -> bool {
    exists|k: int| 0 <= k < events.len() && died_in(#[trigger] events[k], slot)
}

/// Whether the notice reports the death of the enemy in `slot`.
pub open spec fn died_in(event: EnemyEvent, slot: int) -> bool {
    match event {
        EnemyEvent::Died(s) => s == slot,
    }
}

/// The row after every enemy reported dead is taken out.
pub open spec fn after_removal(slots: Seq<Option<Enemy>>, events: Seq<EnemyEvent>) -> Seq<
    Option<Enemy>,
> {
    Seq::new(
        slots.len(),
        |i: int|
            if reported_dead(events, i) {
                None
            } else {
                slots[i]
            },
    )
}

/// The shots after the enemy in `slot` has fired. An empty slot, or one
/// past the end of the row, fires nothing.
pub open spec fn after_shot(
    shots: Seq<BulletShotEvent>,
    enemies: Seq<Option<Enemy>>,
    slot: int,
) -> Seq<BulletShotEvent> {
    if is_live(enemies, slot) {
        shots.push(enemies[slot]->0.shot())
    } else {
        shots
    }
}

/// Where the `n`-th enemy of a wave stands: rows of eight, centred on the
/// play area, the first row two sprites below the top edge.
pub open spec fn grid_position(area: PlayArea, n: int) -> Vec2 {
    let row = n / (ENEMIES_PER_ROW as int);
    let column = n % (ENEMIES_PER_ROW as int);
    Vec2 {
        x: saturated(area.center_x() - FORMATION_REACH + COLUMN_SPACING * column) as i32,
        y: saturated(area.height - FORMATION_DROP - ROW_SPACING * row) as i32,
    }
}

/// A full wave in formation.
pub open spec fn formation(area: PlayArea) -> Seq<Option<Enemy>> {
    Seq::new(ENEMIES_PER_WAVE as nat, |n: int| Some(Enemy::at(grid_position(area, n))))
}

/// Every live enemy of the row is consistent.
pub open spec fn all_consistent(slots: Seq<Option<Enemy>>) -> bool {
    forall|i: int|
        0 <= i < slots.len() && (#[trigger] slots[i]) is Some ==> slots[i]->0.consistent()
}

/// One slot after `dt_nanos` nanoseconds of flight.
pub open spec fn slot_moved(slot: Option<Enemy>, dt_nanos: int) -> Option<Enemy> {
    match slot {
        Some(e) => Some(e.moved(dt_nanos)),
        None => None,
    }
}

/// One slot after the check for a missed dive.
pub open spec fn slot_returned(slot: Option<Enemy>, area: PlayArea) -> Option<Enemy> {
    match slot {
        Some(e) => Some(e.returned(area)),
        None => None,
    }
}

/// One slot after the check for arrival at the base.
pub open spec fn slot_settled(slot: Option<Enemy>) -> Option<Enemy> {
    match slot {
        Some(e) => Some(e.settled()),
        None => None,
    }
}

/// The row after `dt_nanos` nanoseconds of flight.
pub open spec fn all_moved(slots: Seq<Option<Enemy>>, dt_nanos: int) -> Seq<Option<Enemy>> {
    Seq::new(slots.len(), |i: int| slot_moved(slots[i], dt_nanos))
}

/// The row after the check for missed dives.
pub open spec fn all_returned(slots: Seq<Option<Enemy>>, area: PlayArea) -> Seq<Option<Enemy>> {
    Seq::new(slots.len(), |i: int| slot_returned(slots[i], area))
}

/// The row after the check for arrivals.
pub open spec fn all_settled(slots: Seq<Option<Enemy>>) -> Seq<Option<Enemy>> {
    Seq::new(slots.len(), |i: int| slot_settled(slots[i]))
}

/// The enemies of a row after the passes of one tick: flight, the order to
/// dive for the enemy picked, the checks for misses and arrivals, and the
/// removal of the dead and of the enemy that rammed the ship.
pub open spec fn after_passes(
    slots: Seq<Option<Enemy>>,
    dt_nanos: int,
    area: PlayArea,
    dive: Option<int>,
    target: Vec2,
    events: Seq<EnemyEvent>,
    rammer: Option<int>,
) -> Seq<Option<Enemy>> {
    let moved = all_moved(slots, dt_nanos);
    let told = match dive {
        Some(slot) => after_dive(moved, slot, target),
        None => moved,
    };
    let removed = after_removal(all_settled(all_returned(told, area)), events);
    match rammer {
        Some(slot) => without(removed, slot),
        None => removed,
    }
}

/// The timer of the dive scheduler: it repeats every 5 seconds.
pub fn kamikaze_timer() -> (timer: Cooldown)
    ensures
        timer@ == TimerState::fresh(KAMIKAZE_TIMER as nat, TimerMode::Repeating),
{
    Cooldown::repeating(KAMIKAZE_TIMER)
}

/// The timer of the fire scheduler: it repeats every 3 seconds.
pub fn shooting_timer() -> (timer: Cooldown)
    ensures
        timer@ == TimerState::fresh(SHOOTING_TIMER as nat, TimerMode::Repeating),
{
    Cooldown::repeating(SHOOTING_TIMER)
}

/// Spawns a wave of 16 enemies in two rows of eight.
pub fn spawn_enemies(area: PlayArea) -> (enemies: Vec<Option<Enemy>>)
    ensures
        enemies@ == formation(area),
        all_consistent(enemies@),
        live_count(enemies@) == ENEMIES_PER_WAVE,
{
    let mut enemies: Vec<Option<Enemy>> = Vec::new();
    let left: i64 = area.middle() as i64 - FORMATION_REACH as i64;
    let top: i64 = area.height as i64 - FORMATION_DROP as i64;
    let mut n: usize = 0;
    while n < ENEMIES_PER_WAVE
        invariant
            n <= ENEMIES_PER_WAVE,
            enemies.len() == n,
            left == area.center_x() - FORMATION_REACH,
            top == area.height - FORMATION_DROP,
            forall|j: int| 0 <= j < n ==> enemies[j] == Some(Enemy::at(grid_position(area, j))),
        decreases ENEMIES_PER_WAVE - n,
    {
        let row: i64 = (n / ENEMIES_PER_ROW) as i64;
        let column: i64 = (n % ENEMIES_PER_ROW) as i64;
        let x: i32 = saturate(left + COLUMN_SPACING as i64 * column);
        let y: i32 = saturate(top - ROW_SPACING as i64 * row);
        enemies.push(Some(Enemy::new(Vec2::new(x, y))));
        n = n + 1;
    }
    proof {
        assert(enemies@ =~= formation(area));
        lemma_formation(area);
    }
    enemies
}

/// Moves every enemy along its direction: position += direction × 200
/// units/s × dt. A waiting enemy has no direction and stays.
pub fn enemy_movement(enemies: &mut Vec<Option<Enemy>>, dt_nanos: u64)
    ensures
        final(enemies)@ == all_moved(old(enemies)@, dt_nanos as int),
        all_consistent(old(enemies)@) ==> all_consistent(final(enemies)@),
{
    let mut i: usize = 0;
    while i < enemies.len()
        invariant
            i <= enemies.len(),
            enemies.len() == old(enemies).len(),
            forall|j: int|
                0 <= j < i ==> enemies[j] == slot_moved(old(enemies)[j], dt_nanos as int),
            forall|j: int| i <= j < enemies.len() ==> enemies[j] == old(enemies)[j],
            all_consistent(old(enemies)@) ==> all_consistent(enemies@),
        decreases enemies.len() - i,
    {
        match enemies[i] {
            Some(e) => {
                enemies[i] = Some(e.advance(dt_nanos));
            },
            None => {},
        }
        i = i + 1;
    }
    proof {
        assert(enemies@ =~= all_moved(old(enemies)@, dt_nanos as int));
    }
}

/// The slots that a scheduler may pick from, in rising order.
fn candidates(enemies: &Vec<Option<Enemy>>, idle_only: bool) -> (found: Vec<usize>)
    ensures
        forall|k: int|
            0 <= k < found.len() ==> is_candidate(
                enemies@,
                (#[trigger] found[k]) as int,
                idle_only,
            ),
        forall|i: int|
            is_candidate(enemies@, i, idle_only) ==> exists|k: int|
                0 <= k < found.len() && found[k] == i,
{
    let mut found: Vec<usize> = Vec::new();
    let mut i: usize = 0;
    while i < enemies.len()
        invariant
            i <= enemies.len(),
            forall|k: int|
                0 <= k < found.len() ==> is_candidate(
                    enemies@,
                    (#[trigger] found[k]) as int,
                    idle_only,
                ),
            forall|j: int|
                0 <= j < i && is_candidate(enemies@, j, idle_only) ==> exists|k: int|
                    0 <= k < found.len() && found[k] == j,
        decreases enemies.len() - i,
    {
        let picked: bool = match enemies[i] {
            Some(e) => !idle_only || e.state == EnemyState::Idle,
            None => false,
        };
        if picked {
            let ghost before = found@;
            found.push(i);
            proof {
                assert(found[before.len() as int] == i);
                assert forall|j: int|
                    0 <= j < i + 1 && is_candidate(enemies@, j, idle_only) implies exists|k: int|
                    0 <= k < found.len() && found[k] == j by {
                    if j < i {
                        let k = choose|k: int| 0 <= k < before.len() && before[k] == j;
                        assert(found[k] == j);
                    }
                }
            }
        }
        i = i + 1;
    }
    found
}

/// Tells the enemy in `slot` to dive at `target`. Its direction is fixed
/// here and not aimed again. Nothing happens if the slot is empty, if the
/// enemy is not waiting, or if it sits exactly on the target.
pub fn launch_kamikaze(enemies: &mut Vec<Option<Enemy>>, slot: usize, target: Vec2)
    ensures
        final(enemies)@ == after_dive(old(enemies)@, slot as int, target),
        all_consistent(old(enemies)@) ==> all_consistent(final(enemies)@),
{
    if slot < enemies.len() {
        match enemies[slot] {
            Some(e) => {
                enemies[slot] = Some(e.dive(target));
            },
            None => {},
        }
    }
}

/// The dive scheduler. Advances its timer by `dt_nanos`; when the timer
/// completes an interval and there is a player, one waiting enemy, picked
/// at random, dives at the player's position. Returns the slot picked.
///
/// However many enemies wait, one tick starts at most one dive, and none
/// unless the timer has just completed an interval.
pub fn update_kamikaze_timer(
    enemies: &mut Vec<Option<Enemy>>,
    player: &Option<Player>,
    timer: &mut Cooldown,
    dt_nanos: u64,
) -> (dive: Option<usize>)
    ensures
        final(timer)@ == old(timer)@.ticked(dt_nanos as nat),
        match dive {
            Some(slot) => {
                &&& final(timer)@.just_finished()
                &&& *player is Some
                &&& is_idle(old(enemies)@, slot as int)
                &&& final(enemies)@ == after_dive(old(enemies)@, slot as int, player->0.position)
            },
            None => {
                &&& final(enemies)@ == old(enemies)@
                &&& !(final(timer)@.just_finished() && *player is Some && exists|i: int|
                    is_idle(old(enemies)@, i))
            },
        },
        forall|i: int, j: int|
            began_dive(old(enemies)@, final(enemies)@, i) && began_dive(
                old(enemies)@,
                final(enemies)@,
                j,
            ) ==> i == j,
        !final(timer)@.just_finished() ==> final(enemies)@ == old(enemies)@,
        all_consistent(old(enemies)@) ==> all_consistent(final(enemies)@),
{
    timer.tick(dt_nanos);
    if !timer.just_finished() {
        return None;
    }
    match player {
        Some(p) => {
            let idle = candidates(enemies, true);
            match random_index(idle.len()) {
                Some(k) => {
                    let slot: usize = idle[k];
                    launch_kamikaze(enemies, slot, p.position);
                    Some(slot)
                },
                None => {
                    proof {
                        assert forall|i: int| !is_idle(old(enemies)@, i) by {
                            if is_idle(old(enemies)@, i) {
                                assert(is_candidate(old(enemies)@, i, true));
                            }
                        }
                    }
                    None
                },
            }
        },
        None => None,
    }
}

/// Has the enemy in `slot` fire a shot downward, from just below its
/// sprite.
pub fn enemy_shoot(enemies: &Vec<Option<Enemy>>, slot: usize, shots: &mut Vec<BulletShotEvent>)
    ensures
        final(shots)@ == after_shot(old(shots)@, enemies@, slot as int),
{
    if slot < enemies.len() {
        match enemies[slot] {
            Some(e) => {
                let shot = e.shoot();
                fire(shots, shot.position, shot.direction, shot.instigator);
            },
            None => {},
        }
    }
}

/// The fire scheduler. Advances its timer by `dt_nanos`; when the timer
/// completes an interval, one live enemy, picked at random whatever its
/// state, fires a shot downward. Returns the slot picked.
pub fn update_shooting_timer(
    enemies: &Vec<Option<Enemy>>,
    shots: &mut Vec<BulletShotEvent>,
    timer: &mut Cooldown,
    dt_nanos: u64,
) -> (shooter: Option<usize>)
    ensures
        final(timer)@ == old(timer)@.ticked(dt_nanos as nat),
        match shooter {
            Some(slot) => {
                &&& final(timer)@.just_finished()
                &&& is_live(enemies@, slot as int)
                &&& final(shots)@ == after_shot(old(shots)@, enemies@, slot as int)
            },
            None => {
                &&& final(shots)@ == old(shots)@
                &&& !(final(timer)@.just_finished() && exists|i: int| is_live(enemies@, i))
            },
        },
{
    timer.tick(dt_nanos);
    if !timer.just_finished() {
        return None;
    }
    let live = candidates(enemies, false);
    match random_index(live.len()) {
        Some(k) => {
            let slot: usize = live[k];
            enemy_shoot(enemies, slot, shots);
            Some(slot)
        },
        None => {
            proof {
                assert forall|i: int| !is_live(enemies@, i) by {
                    if is_live(enemies@, i) {
                        assert(is_candidate(enemies@, i, false));
                    }
                }
            }
            None
        },
    }
}

/// Sends every enemy whose dive has taken it more than 100 units below the
/// bottom edge back in from just above the top edge, heading for its base.
pub fn return_to_base(enemies: &mut Vec<Option<Enemy>>, area: PlayArea)
    ensures
        final(enemies)@ == all_returned(old(enemies)@, area),
        all_consistent(old(enemies)@) ==> all_consistent(final(enemies)@),
{
    let mut i: usize = 0;
    while i < enemies.len()
        invariant
            i <= enemies.len(),
            enemies.len() == old(enemies).len(),
            forall|j: int| 0 <= j < i ==> enemies[j] == slot_returned(old(enemies)[j], area),
            forall|j: int| i <= j < enemies.len() ==> enemies[j] == old(enemies)[j],
            all_consistent(old(enemies)@) ==> all_consistent(enemies@),
        decreases enemies.len() - i,
    {
        match enemies[i] {
            Some(e) => {
                enemies[i] = Some(e.turn_back(area));
            },
            None => {},
        }
        i = i + 1;
    }
    proof {
        assert(enemies@ =~= all_returned(old(enemies)@, area));
    }
}

/// Lets every enemy that has come within 3 units of its base snap onto it
/// and wait. An enemy that steps over that circle in one tick is not
/// caught and flies on.
pub fn back_to_idle(enemies: &mut Vec<Option<Enemy>>)
    ensures
        final(enemies)@ == all_settled(old(enemies)@),
        all_consistent(old(enemies)@) ==> all_consistent(final(enemies)@),
{
    let mut i: usize = 0;
    while i < enemies.len()
        invariant
            i <= enemies.len(),
            enemies.len() == old(enemies).len(),
            forall|j: int| 0 <= j < i ==> enemies[j] == slot_settled(old(enemies)[j]),
            forall|j: int| i <= j < enemies.len() ==> enemies[j] == old(enemies)[j],
            all_consistent(old(enemies)@) ==> all_consistent(enemies@),
        decreases enemies.len() - i,
    {
        match enemies[i] {
            Some(e) => {
                enemies[i] = Some(e.settle());
            },
            None => {},
        }
        i = i + 1;
    }
    proof {
        assert(enemies@ =~= all_settled(old(enemies)@));
    }
}

/// Finds the first enemy that the bullet touches.
fn find_hit(enemies: &Vec<Option<Enemy>>, bullet: &Bullet) -> (slot: usize)
    ensures
        slot == first_hit(enemies@, *bullet),
        slot <= enemies.len(),
{
    let bullet_box = bullet.hit_box();
    let mut i: usize = 0;
    while i < enemies.len()
        invariant
            i <= enemies.len(),
            bullet_box == bullet.hitbox(),
            first_hit_from(enemies@, *bullet, i as int) == first_hit(enemies@, *bullet),
        decreases enemies.len() - i,
    {
        match enemies[i] {
            Some(e) => {
                if e.hit_circle().intersects(&bullet_box) {
                    return i;
                }
            },
            None => {},
        }
        i = i + 1;
    }
    i
}

/// Tests every bullet fired by the player against every enemy. A bullet
/// that touches an enemy is spent at once, on the first enemy it touches;
/// that enemy stays in its slot and its death is posted. Bullets fired by
/// enemies pass through.
pub fn check_collision_with_bullet(
    bullets: &mut Vec<Option<Bullet>>,
    enemies: &Vec<Option<Enemy>>,
    events: &mut Vec<EnemyEvent>,
)
    ensures
        final(bullets)@ == after_strikes(old(bullets)@, enemies@),
        final(events)@ == old(events)@ + deaths(old(bullets)@, enemies@),
        forall|i: int|
            0 <= i < old(bullets).len() && (#[trigger] old(bullets)[i]) is Some && old(
                bullets,
            )[i]->0.instigator == Instigator::Enemy ==> final(bullets)[i] == old(bullets)[i],
{
    let mut i: usize = 0;
    while i < bullets.len()
        invariant
            i <= bullets.len(),
            bullets.len() == old(bullets).len(),
            forall|j: int|
                0 <= j < i ==> bullets[j] == if strikes(old(bullets)[j], enemies@) {
                    None
                } else {
                    old(bullets)[j]
                },
            forall|j: int| i <= j < bullets.len() ==> bullets[j] == old(bullets)[j],
            events@ == old(events)@ + deaths(old(bullets)@.take(i as int), enemies@),
        decreases bullets.len() - i,
    {
        proof {
            assert(old(bullets)@.take(i + 1).drop_last() =~= old(bullets)@.take(i as int));
        }
        match bullets[i] {
            Some(b) => {
                if b.instigator == Instigator::Player {
                    let slot: usize = find_hit(enemies, &b);
                    if slot < enemies.len() {
                        bullets[i] = None;
                        events.push(EnemyEvent::Died(slot));
                    }
                }
            },
            None => {},
        }
        proof {
            assert(events@ =~= old(events)@ + deaths(old(bullets)@.take(i + 1), enemies@));
        }
        i = i + 1;
    }
    proof {
        assert(old(bullets)@.take(i as int) =~= old(bullets)@);
        assert(bullets@ =~= after_strikes(old(bullets)@, enemies@));
    }
}

/// Takes every enemy reported dead out of the row. This runs after the
/// notices have been counted, so that the count sees the enemies as they
/// were when they died.
pub fn listen_enemy_event(enemies: &mut Vec<Option<Enemy>>, events: &Vec<EnemyEvent>)
    ensures
        final(enemies)@ == after_removal(old(enemies)@, events@),
        all_consistent(old(enemies)@) ==> all_consistent(final(enemies)@),
{
    let mut k: usize = 0;
    while k < events.len()
        invariant
            k <= events.len(),
            enemies.len() == old(enemies).len(),
            forall|i: int|
                0 <= i < enemies.len() ==> enemies[i] == if reported_dead(
                    events@.take(k as int),
                    i,
                ) {
                    None
                } else {
                    old(enemies)[i]
                },
        decreases events.len() - k,
    {
        let ghost seen = events@.take(k as int);
        let ghost next = events@.take(k + 1);
        match events[k] {
            EnemyEvent::Died(slot) => {
                if slot < enemies.len() {
                    enemies[slot] = None;
                }
            },
        }
        proof {
            assert forall|i: int| 0 <= i < enemies.len() implies enemies[i] == if reported_dead(
                next,
                i,
            ) {
                None
            } else {
                old(enemies)[i]
            } by {
                if reported_dead(seen, i) {
                    let w = choose|w: int| 0 <= w < seen.len() && died_in(#[trigger] seen[w], i);
                    assert(died_in(next[w], i));
                }
                if died_in(events[k as int], i) {
                    assert(died_in(next[k as int], i));
                }
                if reported_dead(next, i) {
                    let w = choose|w: int| 0 <= w < next.len() && died_in(#[trigger] next[w], i);
                    if w < k {
                        assert(died_in(seen[w], i));
                    }
                }
            }
        }
        k = k + 1;
    }
    proof {
        assert(events@.take(k as int) =~= events@);
        assert(enemies@ =~= after_removal(old(enemies)@, events@));
    }
}

/// Takes the enemy in `slot` out of the row.
pub fn remove_enemy(enemies: &mut Vec<Option<Enemy>>, slot: usize)
    ensures
        final(enemies)@ == without(old(enemies)@, slot as int),
        all_consistent(old(enemies)@) ==> all_consistent(final(enemies)@),
{
    if slot < enemies.len() {
        enemies[slot] = None;
    }
}

/// Enemies die by the player's bullets only: as long as every bullet in
/// flight was fired by an enemy, no death is posted and no bullet is spent.
pub proof fn lemma_enemy_bullets_kill_no_enemy(
    bullets: Seq<Option<Bullet>>,
    enemies: Seq<Option<Enemy>>,
)
    requires
        forall|i: int|
            0 <= i < bullets.len() && (#[trigger] bullets[i]) is Some ==> bullets[i]->0.instigator
                == Instigator::Enemy,
    ensures
        deaths(bullets, enemies) == Seq::<EnemyEvent>::empty(),
        after_strikes(bullets, enemies) == bullets,
    decreases bullets.len(),
{
    if bullets.len() > 0 {
        lemma_enemy_bullets_kill_no_enemy(bullets.drop_last(), enemies);
    }
    assert(after_strikes(bullets, enemies) =~= bullets);
}

/// A wave in formation is a row of sixteen consistent enemies, all of them
/// alive and waiting.
pub proof fn lemma_formation(area: PlayArea)
    ensures
        all_consistent(formation(area)),
        formation(area).len() == ENEMIES_PER_WAVE,
        live_count(formation(area)) == ENEMIES_PER_WAVE,
        forall|i: int| 0 <= i < ENEMIES_PER_WAVE ==> is_idle(formation(area), i),
{
    lemma_live_count_full(formation(area));
}

/// A row of consistent enemies stays one through every pass.
pub proof fn lemma_rows_stay_consistent(
    slots: Seq<Option<Enemy>>,
    dt_nanos: int,
    slot: int,
    target: Vec2,
    area: PlayArea,
    events: Seq<EnemyEvent>,
)
    requires
        all_consistent(slots),
    ensures
        all_consistent(all_moved(slots, dt_nanos)),
        all_consistent(after_dive(slots, slot, target)),
        all_consistent(all_returned(slots, area)),
        all_consistent(all_settled(slots)),
        all_consistent(after_removal(slots, events)),
        all_consistent(without(slots, slot)),
{
    assert forall|i: int| 0 <= i < slots.len() && (#[trigger] slots[i]) is Some implies {
        &&& slots[i]->0.moved(dt_nanos).consistent()
        &&& slots[i]->0.diving(target).consistent()
        &&& slots[i]->0.returned(area).consistent()
        &&& slots[i]->0.settled().consistent()
    } by {
        slots[i]->0.lemma_stays_consistent(dt_nanos, target, area);
    }
    let moved = all_moved(slots, dt_nanos);
    assert forall|i: int| 0 <= i < moved.len() && (#[trigger] moved[i]) is Some implies moved[i]->0
        .consistent() by {
        assert(slots[i] is Some);
    }
    let dived = after_dive(slots, slot, target);
    assert forall|i: int| 0 <= i < dived.len() && (#[trigger] dived[i]) is Some implies dived[i]->0
        .consistent() by {
        assert(slots[i] is Some);
    }
    let returned = all_returned(slots, area);
    assert forall|i: int|
        0 <= i < returned.len() && (#[trigger] returned[i]) is Some implies returned[i]->0
        .consistent() by {
        assert(slots[i] is Some);
    }
    let settled = all_settled(slots);
    assert forall|i: int|
        0 <= i < settled.len() && (#[trigger] settled[i]) is Some implies settled[i]->0
        .consistent() by {
        assert(slots[i] is Some);
    }
    let removed = after_removal(slots, events);
    assert forall|i: int|
        0 <= i < removed.len() && (#[trigger] removed[i]) is Some implies removed[i]->0
        .consistent() by {
        assert(slots[i] is Some);
    }
    let less = without(slots, slot);
    assert forall|i: int| 0 <= i < less.len() && (#[trigger] less[i]) is Some implies less[i]->0
        .consistent() by {
        assert(slots[i] is Some);
    }
}

/// A waiting enemy that is not the one picked to dive is, after the passes
/// of a tick, still waiting or gone.
pub proof fn lemma_waits_through_tick(
    slots: Seq<Option<Enemy>>,
    i: int,
    dt_nanos: int,
    area: PlayArea,
    dive: Option<int>,
    target: Vec2,
    events: Seq<EnemyEvent>,
    rammer: Option<int>,
)
    requires
        is_idle(slots, i),
        dive != Some(i),
    ensures
        !began_dive(slots, after_passes(slots, dt_nanos, area, dive, target, events, rammer), i),
{
    let before = slots[i]->0;
    before.lemma_waits_unless_told(dt_nanos, area);
    let moved = all_moved(slots, dt_nanos);
    let told = match dive {
        Some(slot) => after_dive(moved, slot, target),
        None => moved,
    };
    assert(told[i] == moved[i]);
    let waiting = told[i]->0;
    waiting.lemma_waits_unless_told(dt_nanos, area);
    let returned = all_returned(told, area);
    assert(returned[i] == Some(waiting));
    let settled = all_settled(returned);
    assert(settled[i] == Some(waiting));
}

} // verus!
