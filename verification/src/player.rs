//! The player's ship: steering it within the play area, firing under a
//! cooldown, and the two ways it can die.
//!
//! The ship has two hit boxes: a tall narrow one for the hull and a wide
//! flat one, set a little lower, for the wings. Anything that touches either
//! touches the ship.

use crate::area::PlayArea;
use crate::bullet::fire;
use crate::bullet::Bullet;
use crate::bullet::BulletShotEvent;
use crate::bullet::Instigator;
use crate::collider::nearest_in;
use crate::collider::Aabb;
use crate::collider::Circle;
use crate::enemy::Enemy;
use crate::enemy::EnemyState;
use crate::slots::slot_of;
use crate::timer::Cooldown;
use crate::timer::TimerState;
use crate::vector::saturated;
use crate::vector::travel;
use crate::vector::Vec2;
use crate::vector::UNIT;
use bevy::time::TimerMode;
use vstd::prelude::*;

verus! {

/// How fast the ship moves sideways, in units per second.
pub const PLAYER_SPEED: u32 = 500;

/// The least time between two shots: half a second.
pub const SHOOTING_COOLDOWN: u64 = 500_000_000;

/// The height at which the ship flies: 64 units above the bottom edge.
pub const PLAYER_HEIGHT: i32 = 64_000;

/// How far above the ship's centre its bullets appear: half a sprite and
/// one unit more.
pub const MUZZLE_RISE: i32 = 33_000;

/// Half the width of the hull's hit box: 16 units.
pub const HULL_HALF_WIDTH: i32 = 16_000;

/// Half the height of the hull's hit box: 31 units.
pub const HULL_HALF_HEIGHT: i32 = 31_000;

/// Half the width of the wings' hit box: 53 units.
pub const WINGS_HALF_WIDTH: i32 = 53_000;

/// Half the height of the wings' hit box: 9 units.
pub const WINGS_HALF_HEIGHT: i32 = 9_000;

/// How far below the ship's centre the wings' hit box is centred: 15 units.
pub const WINGS_DROP: i32 = 15_000;

/// The player's ship. There is at most one.
#[derive(Clone, Copy, Debug, PartialEq, Eq, Structural)]
pub struct Player {
    pub position: Vec2,
}

/// What happened to the player. The ship is still there when `Died` is
/// posted.
#[derive(Clone, Copy, Debug, PartialEq, Eq, Structural)]
pub enum PlayerEvent {
    Died,
}

/// Which way the keys steer: one unit to the right, one to the left, or
/// nowhere when both or neither are held.
pub open spec fn heading(left: bool, right: bool) -> int {
    (if right {
        UNIT as int
    } else {
        0
    }) - (if left {
        UNIT as int
    } else {
        0
    })
}

/// What the ship's cooldown holds, if it has one.
pub open spec fn cooldown_state(cooldown: Option<Cooldown>) -> Option<TimerState> {
    match cooldown {
        Some(c) => Some(c@),
        None => None,
    }
}

/// The cooldown after `dt_nanos` nanoseconds: it counts on, and is gone
/// once it has finished.
pub open spec fn cooled(state: Option<TimerState>, dt_nanos: nat) -> Option<TimerState> {
    match state {
        Some(s) => if s.ticked(dt_nanos).finished {
            None
        } else {
            Some(s.ticked(dt_nanos))
        },
        None => None,
    }
}

impl Player {
    /// The ship as it enters a round: in the middle, near the bottom.
    pub open spec fn entering(area: PlayArea) -> Player {
        Player { position: Vec2 { x: area.center_x() as i32, y: PLAYER_HEIGHT } }
    }

    /// The hit box of the hull.
    pub open spec fn hull(self) -> Aabb {
        Aabb { center: self.position, half: Vec2 { x: HULL_HALF_WIDTH, y: HULL_HALF_HEIGHT } }
    }

    /// The hit box of the wings.
    pub open spec fn wings(self) -> Aabb {
        Aabb {
            center: self.position.shifted(0, -WINGS_DROP),
            half: Vec2 { x: WINGS_HALF_WIDTH, y: WINGS_HALF_HEIGHT },
        }
    }

    /// Whether a circle touches the ship.
    pub open spec fn touched_by_circle(self, c: Circle) -> bool {
        c.meets(self.wings()) || c.meets(self.hull())
    }

    /// Whether a box touches the ship.
    pub open spec fn touched_by_box(self, b: Aabb) -> bool {
        b.meets(self.wings()) || b.meets(self.hull())
    }

    /// The ship after `dt_nanos` nanoseconds of steering: moved sideways at
    /// 500 units per second, then brought back between the left and right
    /// edges. It never moves up or down.
    pub open spec fn steered(
        self,
        left: bool,
        right: bool,
        dt_nanos: int,
        area: PlayArea,
    ) -> Player {
        let pushed = travel(heading(left, right), PLAYER_SPEED as int, dt_nanos);
        Player {
            position: Vec2 {
                x: nearest_in(saturated(self.position.x + pushed), 0, area.width as int) as i32,
                y: self.position.y,
            },
        }
    }

    /// The shot the ship fires: straight up, from just above its sprite.
    pub open spec fn shot(self) -> BulletShotEvent {
        BulletShotEvent {
            instigator: Instigator::Player,
            position: self.position.shifted(0, MUZZLE_RISE as int),
            direction: Vec2 { x: 0, y: UNIT },
        }
    }

    /// A ship at `position`.
    pub fn new(position: Vec2) -> (p: Player)
        ensures
            p == (Player { position }),
    {
        Player { position }
    }

    /// The hit box of the hull: 32 by 62 units, around the ship's centre.
    pub fn hull_box(&self) -> (b: Aabb)
        ensures
            b == self.hull(),
    {
        Aabb::new(self.position, Vec2::new(HULL_HALF_WIDTH, HULL_HALF_HEIGHT))
    }

    /// The hit box of the wings: 106 by 18 units, centred 15 units below
    /// the ship's centre.
    pub fn wings_box(&self) -> (b: Aabb)
        ensures
            b == self.wings(),
    {
        Aabb::new(
            self.position.offset(0, -WINGS_DROP),
            Vec2::new(WINGS_HALF_WIDTH, WINGS_HALF_HEIGHT),
        )
    }

    /// Moves the ship as the keys say and keeps it inside the play area.
    pub fn steer(&self, left: bool, right: bool, dt_nanos: u64, area: PlayArea) -> (p: Player)
        ensures
            p == self.steered(left, right, dt_nanos as int, area),
            0 <= p.position.x <= area.width,
    {
        let mut toward: i32 = 0;
        if left {
            toward = toward - UNIT;
        }
        if right {
            toward = toward + UNIT;
        }
        let moved = self.position.advance(Vec2::new(toward, 0), PLAYER_SPEED, dt_nanos);
        let right_edge: i32 = if area.width > i32::MAX as u32 {
            i32::MAX
        } else {
            area.width as i32
        };
        Player { position: Vec2::new(clamp(moved.x, 0, right_edge), self.position.y) }
    }

    /// The shot the ship fires.
    pub fn shoot(&self) -> (shot: BulletShotEvent)
        ensures
            shot == self.shot(),
    {
        BulletShotEvent {
            instigator: Instigator::Player,
            position: self.position.offset(0, MUZZLE_RISE),
            direction: Vec2::new(0, UNIT),
        }
    }
}

/// Calls `num::clamp`, which returns `min` for an input below it, `max` for
/// one above it and the input otherwise. It panics in a debug build unless
/// `min <= max`.
#[verifier::external_body]
fn clamp(input: i32, min: i32, max: i32) -> (r: i32)
    requires
        min <= max,
    ensures
        r == nearest_in(input as int, min as int, max as int),
{
    num::clamp(input, min, max)
}

/// The first diving enemy, at or after slot `start`, whose hit circle
/// touches the ship; the row's length if there is none. Enemies that wait
/// or fly home do no harm.
pub open spec fn first_rammer_from(enemies: Seq<Option<Enemy>>, player: Player, start: int) -> int
    decreases enemies.len() - start,
{
    if start < 0 || start >= enemies.len() {
        enemies.len() as int
    } else if enemies[start] is Some && enemies[start]->0.state == EnemyState::Kamikaze
        && player.touched_by_circle(enemies[start]->0.hitbox()) {
        start
    } else {
        first_rammer_from(enemies, player, start + 1)
    }
}

/// The first diving enemy that touches the ship; the row's length if none.
pub open spec fn first_rammer(enemies: Seq<Option<Enemy>>, player: Player) -> int {
    first_rammer_from(enemies, player, 0)
}

/// The first bullet fired by an enemy, at or after slot `start`, whose box
/// touches the ship; the row's length if there is none.
pub open spec fn first_struck_from(bullets: Seq<Option<Bullet>>, player: Player, start: int) -> int
    decreases bullets.len() - start,
{
    if start < 0 || start >= bullets.len() {
        bullets.len() as int
    } else if bullets[start] is Some && bullets[start]->0.instigator == Instigator::Enemy
        && player.touched_by_box(bullets[start]->0.hitbox()) {
        start
    } else {
        first_struck_from(bullets, player, start + 1)
    }
}

/// The first enemy bullet that touches the ship; the row's length if none.
pub open spec fn first_struck(bullets: Seq<Option<Bullet>>, player: Player) -> int {
    first_struck_from(bullets, player, 0)
}

/// The slot of the diving enemy that rams the ship, if there is a ship and
/// such an enemy.
pub open spec fn rammed_by(player: Option<Player>, enemies: Seq<Option<Enemy>>) -> Option<int> {
    if player is Some && first_rammer(enemies, player->0) < enemies.len() {
        Some(first_rammer(enemies, player->0))
    } else {
        None
    }
}

/// The slot of the enemy bullet that strikes the ship, if there is a ship
/// and such a bullet.
pub open spec fn struck_by(player: Option<Player>, bullets: Seq<Option<Bullet>>) -> Option<int> {
    if player is Some && first_struck(bullets, player->0) < bullets.len() {
        Some(first_struck(bullets, player->0))
    } else {
        None
    }
}

/// Puts the ship into the round: in the middle, 64 units above the bottom
/// edge.
pub fn spawn_player(area: PlayArea) -> (p: Player)
    ensures
        p == Player::entering(area),
{
    Player { position: Vec2::new(area.middle(), PLAYER_HEIGHT) }
}

/// Takes the ship out of the round, and its cooldown with it.
pub fn despawn_player(player: &mut Option<Player>, cooldown: &mut Option<Cooldown>)
    ensures
        *final(player) is None,
        *final(cooldown) is None,
{
    *player = None;
    *cooldown = None;
}

/// Steers the ship. Without a ship nothing happens.
pub fn player_movement(
    player: &mut Option<Player>,
    left: bool,
    right: bool,
    dt_nanos: u64,
    area: PlayArea,
)
    ensures
        *final(player) == match *old(player) {
            Some(p) => Some(p.steered(left, right, dt_nanos as int, area)),
            None => None,
        },
{
    match *player {
        Some(p) => {
            *player = Some(p.steer(left, right, dt_nanos, area));
        },
        None => {},
    }
}

/// Fires if the key is held, there is a ship, and no cooldown is running.
/// A shot posts its request and arms the cooldown. Returns whether a shot
/// was fired.
pub fn player_shoot(
    player: &Option<Player>,
    cooldown: &mut Option<Cooldown>,
    pressed: bool,
    shots: &mut Vec<BulletShotEvent>,
) -> (fired: bool)
    ensures
        fired == (*player is Some && pressed && *old(cooldown) is None),
        fired ==> cooldown_state(*final(cooldown)) == Some(
            TimerState::fresh(SHOOTING_COOLDOWN as nat, TimerMode::Once),
        ) && final(shots)@ == old(shots)@.push(player->0.shot()),
        !fired ==> *final(cooldown) == *old(cooldown) && final(shots)@ == old(shots)@,
{
    match player {
        Some(p) => {
            if pressed && cooldown.is_none() {
                *cooldown = Some(Cooldown::once(SHOOTING_COOLDOWN));
                let shot = p.shoot();
                fire(shots, shot.position, shot.direction, shot.instigator);
                true
            } else {
                false
            }
        },
        None => false,
    }
}

/// Advances the ship's cooldown, and removes it once it has finished, so
/// that the next press of the key fires again.
pub fn update_cooldown(cooldown: &mut Option<Cooldown>, dt_nanos: u64)
    ensures
        cooldown_state(*final(cooldown)) == cooled(cooldown_state(*old(cooldown)), dt_nanos as nat),
{
    match cooldown.take() {
        Some(mut c) => {
            c.tick(dt_nanos);
            if !c.finished() {
                *cooldown = Some(c);
            }
        },
        None => {},
    }
}

/// Finds the first diving enemy that touches the ship.
fn find_rammer(enemies: &Vec<Option<Enemy>>, player: &Player) -> (slot: usize)
    ensures
        slot == first_rammer(enemies@, *player),
        slot <= enemies.len(),
{
    let wings = player.wings_box();
    let hull = player.hull_box();
    let mut i: usize = 0;
    while i < enemies.len()
        invariant
            i <= enemies.len(),
            wings == player.wings(),
            hull == player.hull(),
            first_rammer_from(enemies@, *player, i as int) == first_rammer(enemies@, *player),
        decreases enemies.len() - i,
    {
        match enemies[i] {
            Some(e) => {
                if e.state == EnemyState::Kamikaze {
                    let circle = e.hit_circle();
                    if circle.intersects(&wings) || circle.intersects(&hull) {
                        return i;
                    }
                }
            },
            None => {},
        }
        i = i + 1;
    }
    i
}

/// Finds the first enemy bullet that touches the ship.
fn find_struck(bullets: &Vec<Option<Bullet>>, player: &Player) -> (slot: usize)
    ensures
        slot == first_struck(bullets@, *player),
        slot <= bullets.len(),
{
    let wings = player.wings_box();
    let hull = player.hull_box();
    let mut i: usize = 0;
    while i < bullets.len()
        invariant
            i <= bullets.len(),
            wings == player.wings(),
            hull == player.hull(),
            first_struck_from(bullets@, *player, i as int) == first_struck(bullets@, *player),
        decreases bullets.len() - i,
    {
        match bullets[i] {
            Some(b) => {
                if b.instigator == Instigator::Enemy {
                    let bullet_box = b.hit_box();
                    if bullet_box.intersects(&wings) || bullet_box.intersects(&hull) {
                        return i;
                    }
                }
            },
            None => {},
        }
        i = i + 1;
    }
    i
}

/// Tests the ship against every diving enemy. The first one whose hit
/// circle touches the hull or the wings kills the player: the death is
/// posted, and the enemy's slot is returned so that it can be taken out
/// too. The ship itself stays until the notice is handled.
pub fn check_collision_with_enemy(
    player: &Option<Player>,
    enemies: &Vec<Option<Enemy>>,
    events: &mut Vec<PlayerEvent>,
) -> (rammer: Option<usize>)
    ensures
        slot_of(rammer) == rammed_by(*player, enemies@),
        final(events)@ == if rammer is Some {
            old(events)@.push(PlayerEvent::Died)
        } else {
            old(events)@
        },
{
    match player {
        Some(p) => {
            let slot: usize = find_rammer(enemies, p);
            if slot < enemies.len() {
                events.push(PlayerEvent::Died);
                Some(slot)
            } else {
                None
            }
        },
        None => None,
    }
}

/// Tests the ship against every bullet fired by an enemy. The first one
/// whose box touches the hull or the wings kills the player: the death is
/// posted and the bullet is spent. The player's own bullets pass through.
/// Returns the slot of the bullet that struck.
pub fn check_collision_with_bullet(
    player: &Option<Player>,
    bullets: &mut Vec<Option<Bullet>>,
    events: &mut Vec<PlayerEvent>,
) -> (struck: Option<usize>)
    ensures
        slot_of(struck) == struck_by(*player, old(bullets)@),
        final(bullets)@ == match struck {
            Some(slot) => old(bullets)@.update(slot as int, None),
            None => old(bullets)@,
        },
        final(events)@ == if struck is Some {
            old(events)@.push(PlayerEvent::Died)
        } else {
            old(events)@
        },
        forall|i: int|
            0 <= i < old(bullets).len() && (#[trigger] old(bullets)[i]) is Some && old(
                bullets,
            )[i]->0.instigator == Instigator::Player ==> final(bullets)[i] == old(bullets)[i],
{
    match player {
        Some(p) => {
            let slot: usize = find_struck(bullets, p);
            if slot < bullets.len() {
                proof {
                    lemma_first_struck(bullets@, *p, 0);
                }
                bullets[slot] = None;
                events.push(PlayerEvent::Died);
                Some(slot)
            } else {
                None
            }
        },
        None => None,
    }
}

/// The first enemy bullet that touches the ship is an enemy's bullet.
pub proof fn lemma_first_struck(bullets: Seq<Option<Bullet>>, player: Player, start: int)
    requires
        0 <= start <= bullets.len(),
    ensures
        start <= first_struck_from(bullets, player, start) <= bullets.len(),
        first_struck_from(bullets, player, start) < bullets.len() ==> {
            let b = bullets[first_struck_from(bullets, player, start)];
            &&& b is Some
            &&& b->0.instigator == Instigator::Enemy
            &&& player.touched_by_box(b->0.hitbox())
        },
    decreases bullets.len() - start,
{
    if start < bullets.len() && !(bullets[start] is Some && bullets[start]->0.instigator
        == Instigator::Enemy && player.touched_by_box(bullets[start]->0.hitbox())) {
        lemma_first_struck(bullets, player, start + 1);
    }
}

/// The ship is struck by the enemies' bullets only: as long as every bullet
/// in flight was fired by the player, none strikes the ship.
pub proof fn lemma_player_bullets_strike_no_player(
    bullets: Seq<Option<Bullet>>,
    player: Player,
    start: int,
)
    requires
        0 <= start <= bullets.len(),
        forall|i: int|
            0 <= i < bullets.len() && (#[trigger] bullets[i]) is Some ==> bullets[i]->0.instigator
                == Instigator::Player,
    ensures
        first_struck_from(bullets, player, start) == bullets.len(),
    decreases bullets.len() - start,
{
    if start < bullets.len() {
        lemma_player_bullets_strike_no_player(bullets, player, start + 1);
    }
}

/// Handles the player's death: once a death has been posted, the ship is
/// taken out, and its cooldown with it.
pub fn listen_player_event(
    player: &mut Option<Player>,
    cooldown: &mut Option<Cooldown>,
    events: &Vec<PlayerEvent>,
)
    ensures
        events.len() > 0 ==> *final(player) is None && *final(cooldown) is None,
        events.len() == 0 ==> *final(player) == *old(player) && *final(cooldown) == *old(cooldown),
{
    if events.len() > 0 {
        despawn_player(player, cooldown);
    }
}

} // verus!
