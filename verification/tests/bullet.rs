use space_invaders::area::PlayArea;
use space_invaders::bullet::bullet_movement;
use space_invaders::bullet::destroy_all_bullets;
use space_invaders::bullet::destroy_bullets;
use space_invaders::bullet::fire;
use space_invaders::bullet::spawn_bullet;
use space_invaders::bullet::Bullet;
use space_invaders::bullet::BulletShotEvent;
use space_invaders::bullet::Instigator;
use space_invaders::bullet::BULLET_SPEED;
use space_invaders::collider::Aabb;
use space_invaders::slots::count_live;
use space_invaders::slots::find_free;
use space_invaders::slots::place;
use space_invaders::vector::Vec2;

const UP: Vec2 = Vec2 { x: 0, y: 1000 };
const DOWN: Vec2 = Vec2 { x: 0, y: -1000 };

fn bullet(instigator: Instigator, x: i32, y: i32, direction: Vec2) -> Bullet {
    Bullet { instigator, position: Vec2::new(x, y), direction }
}

fn area() -> PlayArea {
    PlayArea::new(1_280_000, 720_000)
}

#[test]
fn fire_posts_a_shot() {
    let mut shots = Vec::new();
    fire(&mut shots, Vec2::new(1, 2), UP, Instigator::Player);
    fire(&mut shots, Vec2::new(3, 4), DOWN, Instigator::Enemy);
    assert_eq!(
        shots,
        vec![
            BulletShotEvent { instigator: Instigator::Player, position: Vec2::new(1, 2), direction: UP },
            BulletShotEvent { instigator: Instigator::Enemy, position: Vec2::new(3, 4), direction: DOWN },
        ]
    );
}

#[test]
fn a_shot_becomes_a_bullet() {
    let shot = BulletShotEvent { instigator: Instigator::Enemy, position: Vec2::new(7, 9), direction: DOWN };
    assert_eq!(Bullet::from_shot(&shot), bullet(Instigator::Enemy, 7, 9, DOWN));
}

#[test]
fn spawn_bullet_appends_to_a_full_row() {
    let mut bullets = Vec::new();
    let shots = vec![
        BulletShotEvent { instigator: Instigator::Player, position: Vec2::new(1, 2), direction: UP },
        BulletShotEvent { instigator: Instigator::Enemy, position: Vec2::new(3, 4), direction: DOWN },
    ];
    spawn_bullet(&mut bullets, &shots);
    assert_eq!(
        bullets,
        vec![Some(bullet(Instigator::Player, 1, 2, UP)), Some(bullet(Instigator::Enemy, 3, 4, DOWN))]
    );
}

#[test]
fn spawn_bullet_takes_the_first_empty_slot() {
    let old = bullet(Instigator::Enemy, 0, 0, DOWN);
    let mut bullets = vec![Some(old), None, Some(old), None];
    let shots = vec![
        BulletShotEvent { instigator: Instigator::Player, position: Vec2::new(1, 1), direction: UP },
        BulletShotEvent { instigator: Instigator::Player, position: Vec2::new(2, 2), direction: UP },
        BulletShotEvent { instigator: Instigator::Player, position: Vec2::new(3, 3), direction: UP },
    ];
    spawn_bullet(&mut bullets, &shots);
    assert_eq!(
        bullets,
        vec![
            Some(old),
            Some(bullet(Instigator::Player, 1, 1, UP)),
            Some(old),
            Some(bullet(Instigator::Player, 2, 2, UP)),
            Some(bullet(Instigator::Player, 3, 3, UP)),
        ]
    );
}

#[test]
fn spawn_bullet_without_shots_changes_nothing() {
    let mut bullets = vec![None, Some(bullet(Instigator::Enemy, 0, 0, DOWN))];
    let before = bullets.clone();
    spawn_bullet(&mut bullets, &Vec::new());
    assert_eq!(bullets, before);
}

#[test]
fn slots_are_found_counted_and_filled() {
    let mut row: Vec<Option<u8>> = vec![Some(1), None, Some(3), None];
    assert_eq!(find_free(&row), 1);
    assert_eq!(count_live(&row), 2);
    assert_eq!(place(&mut row, 9), 1);
    assert_eq!(place(&mut row, 8), 3);
    assert_eq!(find_free(&row), 4);
    assert_eq!(place(&mut row, 7), 4);
    assert_eq!(row, vec![Some(1), Some(9), Some(3), Some(8), Some(7)]);
    assert_eq!(count_live(&row), 5);
    let empty: Vec<Option<u8>> = Vec::new();
    assert_eq!(find_free(&empty), 0);
    assert_eq!(count_live(&empty), 0);
}

#[test]
fn bullets_fly_at_800_units_per_second() {
    assert_eq!(BULLET_SPEED, 800);
    let mut bullets = vec![
        Some(bullet(Instigator::Player, 100_000, 100_000, UP)),
        None,
        Some(bullet(Instigator::Enemy, 200_000, 500_000, DOWN)),
    ];
    bullet_movement(&mut bullets, 250_000_000);
    assert_eq!(
        bullets,
        vec![
            Some(bullet(Instigator::Player, 100_000, 300_000, UP)),
            None,
            Some(bullet(Instigator::Enemy, 200_000, 300_000, DOWN)),
        ]
    );
}

#[test]
fn bullets_are_retired_past_the_margins() {
    let mut bullets = vec![
        Some(bullet(Instigator::Player, 0, 820_000, UP)),
        Some(bullet(Instigator::Player, 0, 820_001, UP)),
        Some(bullet(Instigator::Enemy, 0, -100_000, DOWN)),
        Some(bullet(Instigator::Enemy, 0, -100_001, DOWN)),
        None,
        Some(bullet(Instigator::Enemy, -5_000_000, 300_000, DOWN)),
        Some(bullet(Instigator::Enemy, 5_000_000, 300_000, DOWN)),
    ];
    destroy_bullets(&mut bullets, area());
    assert_eq!(
        bullets,
        vec![
            Some(bullet(Instigator::Player, 0, 820_000, UP)),
            None,
            Some(bullet(Instigator::Enemy, 0, -100_000, DOWN)),
            None,
            None,
            Some(bullet(Instigator::Enemy, -5_000_000, 300_000, DOWN)),
            Some(bullet(Instigator::Enemy, 5_000_000, 300_000, DOWN)),
        ]
    );
}

#[test]
fn area_bounds_and_reentry() {
    let a = area();
    assert!(!a.is_out_of_bounds(0));
    assert!(!a.is_out_of_bounds(820_000));
    assert!(a.is_out_of_bounds(820_001));
    assert!(a.is_out_of_bounds(-100_001));
    assert_eq!(a.reentry(), 820_000);
    assert_eq!(a.middle(), 640_000);
    let huge = PlayArea::new(u32::MAX, u32::MAX);
    assert_eq!(huge.reentry(), i32::MAX);
    assert_eq!(huge.middle(), i32::MAX);
    assert!(!huge.is_out_of_bounds(i32::MAX));
}

#[test]
fn destroy_all_bullets_leaves_none() {
    let mut bullets = vec![Some(bullet(Instigator::Player, 0, 0, UP)), None, Some(bullet(Instigator::Enemy, 0, 0, DOWN))];
    destroy_all_bullets(&mut bullets);
    assert!(bullets.is_empty());
    assert_eq!(count_live(&bullets), 0);
}

#[test]
fn bullet_hit_box_is_6_by_22_units() {
    let b = bullet(Instigator::Player, 10_000, 20_000, UP);
    assert_eq!(b.hit_box(), Aabb::new(Vec2::new(10_000, 20_000), Vec2::new(3_000, 11_000)));
}
