//! Projectiles: spawning them from shot requests, flying them, and retiring
//! those that leave the play area.
//!
//! Hits are not decided here. Whoever detects that a bullet struck something
//! empties the bullet's slot.

use crate::area::PlayArea;
use crate::collider::Aabb;
use crate::slots::lemma_first_free;
use crate::slots::place;
use crate::slots::placed;
use crate::vector::Vec2;
use vstd::prelude::*;

verus! {

/// How fast a bullet flies, in units per second.
pub const BULLET_SPEED: u32 = 800;

/// Half the width of a bullet's hit box: 3 units.
pub const BULLET_HALF_WIDTH: i32 = 3_000;

/// Half the height of a bullet's hit box: 11 units.
pub const BULLET_HALF_HEIGHT: i32 = 11_000;

/// Which side fired a bullet. A bullet never harms its own side.
#[derive(Clone, Copy, Debug, PartialEq, Eq, Structural)]
pub enum Instigator {
    Player,
    Enemy,
}

/// A bullet in flight.
#[derive(Clone, Copy, Debug, PartialEq, Eq, Structural)]
pub struct Bullet {
    pub instigator: Instigator,
    pub position: Vec2,
    pub direction: Vec2,
}

/// A shot was fired: a request to spawn a bullet at the start of the next
/// tick, and a notification for whoever wants to hear it.
#[derive(Clone, Copy, Debug, PartialEq, Eq, Structural)]
pub struct BulletShotEvent {
    pub instigator: Instigator,
    pub position: Vec2,
    pub direction: Vec2,
}

impl Bullet {
    /// The bullet that a shot asks for.
    pub open spec fn fired(shot: BulletShotEvent) -> Bullet {
        Bullet { instigator: shot.instigator, position: shot.position, direction: shot.direction }
    }

    /// The bullet after `dt_nanos` nanoseconds of flight.
    pub open spec fn moved(self, dt_nanos: int) -> Bullet {
        Bullet {
            position: self.position.moved(self.direction, BULLET_SPEED as int, dt_nanos),
            ..self
        }
    }

    /// The box around the bullet that hits are tested against.
    pub open spec fn hitbox(self) -> Aabb {
        Aabb {
            center: self.position,
            half: Vec2 { x: BULLET_HALF_WIDTH, y: BULLET_HALF_HEIGHT },
        }
    }

    /// The bullet that a shot asks for.
    pub fn from_shot(shot: &BulletShotEvent) -> (b: Bullet)
        ensures
            b == Bullet::fired(*shot),
    {
        Bullet { instigator: shot.instigator, position: shot.position, direction: shot.direction }
    }

    /// The box around the bullet: 6 by 22 units.
    pub fn hit_box(&self) -> (b: Aabb)
        ensures
            b == self.hitbox(),
    {
        Aabb::new(self.position, Vec2::new(BULLET_HALF_WIDTH, BULLET_HALF_HEIGHT))
    }
}

/// The row of bullets after each shot, in order, has taken the first empty
/// slot.
pub open spec fn spawned(slots: Seq<Option<Bullet>>, shots: Seq<BulletShotEvent>) -> Seq<
    Option<Bullet>,
>
    decreases shots.len(),
{
    if shots.len() == 0 {
        slots
    } else {
        placed(spawned(slots, shots.drop_last()), Bullet::fired(shots.last()))
    }
}

/// Spawning disturbs no bullet in flight: the row only grows, and every
/// slot that held a bullet holds it still.
pub proof fn lemma_spawned_keeps(slots: Seq<Option<Bullet>>, shots: Seq<BulletShotEvent>)
    ensures
        spawned(slots, shots).len() >= slots.len(),
        forall|i: int|
            0 <= i < slots.len() && (#[trigger] slots[i]) is Some ==> spawned(slots, shots)[i]
                == slots[i],
    decreases shots.len(),
{
    if shots.len() > 0 {
        lemma_spawned_keeps(slots, shots.drop_last());
        let before = spawned(slots, shots.drop_last());
        lemma_first_free(before, 0);
    }
}

/// One slot after `dt_nanos` nanoseconds of flight.
pub open spec fn flown(slot: Option<Bullet>, dt_nanos: int) -> Option<Bullet> {
    match slot {
        Some(b) => Some(b.moved(dt_nanos)),
        None => None,
    }
}

/// One slot after bullets out of bounds are retired.
pub open spec fn kept(slot: Option<Bullet>, area: PlayArea) -> Option<Bullet> {
    match slot {
        Some(b) => if area.out_of_bounds(b.position.y as int) {
            None
        } else {
            Some(b)
        },
        None => None,
    }
}

/// Every bullet after `dt_nanos` nanoseconds of flight.
pub open spec fn all_flown(slots: Seq<Option<Bullet>>, dt_nanos: int) -> Seq<Option<Bullet>> {
    Seq::new(slots.len(), |i: int| flown(slots[i], dt_nanos))
}

/// The row after every bullet out of bounds is retired.
pub open spec fn all_kept(slots: Seq<Option<Bullet>>, area: PlayArea) -> Seq<Option<Bullet>> {
    Seq::new(slots.len(), |i: int| kept(slots[i], area))
}

/// Requests a bullet at `origin`, flying along `direction`, fired by
/// `originator`. The request is posted as a shot; the bullet appears when
/// the next tick begins.
pub fn fire(
    shots: &mut Vec<BulletShotEvent>,
    origin: Vec2,
    direction: Vec2,
    originator: Instigator,
)
    ensures
        final(shots)@ == old(shots)@.push(
            BulletShotEvent { instigator: originator, position: origin, direction },
        ),
{
    shots.push(BulletShotEvent { instigator: originator, position: origin, direction });
}

/// Spawns one bullet for each shot request, in the order of the requests.
pub fn spawn_bullet(bullets: &mut Vec<Option<Bullet>>, shots: &Vec<BulletShotEvent>)
    ensures
        final(bullets)@ == spawned(old(bullets)@, shots@),
        final(bullets).len() >= old(bullets).len(),
        forall|i: int|
            0 <= i < old(bullets).len() && (#[trigger] old(bullets)[i]) is Some
                ==> final(bullets)[i] == old(bullets)[i],
{
    let mut i: usize = 0;
    while i < shots.len()
        invariant
            i <= shots.len(),
            bullets@ == spawned(old(bullets)@, shots@.take(i as int)),
        decreases shots.len() - i,
    {
        proof {
            assert(shots@.take(i + 1).drop_last() =~= shots@.take(i as int));
        }
        let bullet = Bullet::from_shot(&shots[i]);
        place(bullets, bullet);
        i = i + 1;
    }
    proof {
        assert(shots@.take(i as int) =~= shots@);
        lemma_spawned_keeps(old(bullets)@, shots@);
    }
}

/// Moves every bullet along its direction: position += direction × 800
/// units/s × dt.
pub fn bullet_movement(bullets: &mut Vec<Option<Bullet>>, dt_nanos: u64)
    ensures
        final(bullets)@ == all_flown(old(bullets)@, dt_nanos as int),
{
    let mut i: usize = 0;
    while i < bullets.len()
        invariant
            i <= bullets.len(),
            bullets.len() == old(bullets).len(),
            forall|j: int| 0 <= j < i ==> bullets[j] == flown(old(bullets)[j], dt_nanos as int),
            forall|j: int| i <= j < bullets.len() ==> bullets[j] == old(bullets)[j],
        decreases bullets.len() - i,
    {
        match bullets[i] {
            Some(b) => {
                let position = b.position.advance(b.direction, BULLET_SPEED, dt_nanos);
                bullets[i] = Some(
                    Bullet { instigator: b.instigator, position, direction: b.direction },
                );
            },
            None => {},
        }
        i = i + 1;
    }
    proof {
        assert(bullets@ =~= all_flown(old(bullets)@, dt_nanos as int));
    }
}

/// Retires every bullet that is more than 100 units above the top edge or
/// more than 100 units below the bottom. Nothing is checked sideways.
pub fn destroy_bullets(bullets: &mut Vec<Option<Bullet>>, area: PlayArea)
    ensures
        final(bullets)@ == all_kept(old(bullets)@, area),
{
    let mut i: usize = 0;
    while i < bullets.len()
        invariant
            i <= bullets.len(),
            bullets.len() == old(bullets).len(),
            forall|j: int| 0 <= j < i ==> bullets[j] == kept(old(bullets)[j], area),
            forall|j: int| i <= j < bullets.len() ==> bullets[j] == old(bullets)[j],
        decreases bullets.len() - i,
    {
        match bullets[i] {
            Some(b) => {
                if area.is_out_of_bounds(b.position.y) {
                    bullets[i] = None;
                }
            },
            None => {},
        }
        i = i + 1;
    }
    proof {
        assert(bullets@ =~= all_kept(old(bullets)@, area));
    }
}

/// Retires every bullet, wherever it is.
pub fn destroy_all_bullets(bullets: &mut Vec<Option<Bullet>>)
    ensures
        final(bullets)@ == Seq::<Option<Bullet>>::empty(),
{
    bullets.clear();
}

} // verus!
