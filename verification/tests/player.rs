use space_invaders::area::PlayArea;
use space_invaders::bullet::Bullet;
use space_invaders::bullet::BulletShotEvent;
use space_invaders::bullet::Instigator;
use space_invaders::collider::Aabb;
use space_invaders::enemy::Enemy;
use space_invaders::enemy::EnemyState;
use space_invaders::player::check_collision_with_bullet;
use space_invaders::player::check_collision_with_enemy;
use space_invaders::player::despawn_player;
use space_invaders::player::listen_player_event;
use space_invaders::player::player_movement;
use space_invaders::player::player_shoot;
use space_invaders::player::spawn_player;
use space_invaders::player::update_cooldown;
use space_invaders::player::Player;
use space_invaders::player::PlayerEvent;
use space_invaders::player::PLAYER_SPEED;
use space_invaders::player::SHOOTING_COOLDOWN;
use space_invaders::timer::Cooldown;
use space_invaders::vector::Vec2;

const UP: Vec2 = Vec2 { x: 0, y: 1000 };
const DOWN: Vec2 = Vec2 { x: 0, y: -1000 };
const TICK: u64 = 16_000_000;

fn area() -> PlayArea {
    PlayArea::new(1_280_000, 720_000)
}

fn ship(x: i32) -> Option<Player> {
    Some(Player::new(Vec2::new(x, 64_000)))
}

fn diving(x: i32, y: i32) -> Enemy {
    Enemy { state: EnemyState::Kamikaze, position: Vec2::new(x, y), base_position: Vec2::new(0, 500_000), direction: DOWN }
}

fn enemy_bullet(x: i32, y: i32) -> Bullet {
    Bullet { instigator: Instigator::Enemy, position: Vec2::new(x, y), direction: DOWN }
}

fn player_bullet(x: i32, y: i32) -> Bullet {
    Bullet { instigator: Instigator::Player, position: Vec2::new(x, y), direction: UP }
}

#[test]
fn the_ship_enters_in_the_middle() {
    assert_eq!(spawn_player(area()), Player { position: Vec2::new(640_000, 64_000) });
    assert_eq!(spawn_player(PlayArea::new(0, 0)), Player { position: Vec2::new(0, 64_000) });
    assert_eq!(spawn_player(PlayArea::new(5, 0)), Player { position: Vec2::new(2, 64_000) });
}

#[test]
fn the_ship_moves_at_500_units_per_second() {
    assert_eq!(PLAYER_SPEED, 500);
    let mut player = ship(640_000);
    player_movement(&mut player, false, true, TICK, area());
    assert_eq!(player, ship(648_000));
    player_movement(&mut player, true, false, 2 * TICK, area());
    assert_eq!(player, ship(632_000));
}

#[test]
fn both_keys_or_none_hold_the_ship() {
    let mut player = ship(640_000);
    player_movement(&mut player, true, true, TICK, area());
    assert_eq!(player, ship(640_000));
    player_movement(&mut player, false, false, TICK, area());
    assert_eq!(player, ship(640_000));
}

#[test]
fn the_ship_at_the_left_edge_stays_there() {
    let mut player = ship(0);
    player_movement(&mut player, true, false, TICK, area());
    assert_eq!(player, ship(0));
}

#[test]
fn the_ship_is_clamped_to_the_play_area() {
    let mut player = ship(5_000);
    player_movement(&mut player, true, false, TICK, area());
    assert_eq!(player, ship(0));
    let mut player = ship(1_275_000);
    player_movement(&mut player, false, true, TICK, area());
    assert_eq!(player, ship(1_280_000));
    // a ship found outside is brought back even when no key is held
    let mut player = ship(-70_000);
    player_movement(&mut player, false, false, TICK, area());
    assert_eq!(player, ship(0));
    let mut player = ship(2_000_000);
    player_movement(&mut player, false, false, TICK, area());
    assert_eq!(player, ship(1_280_000));
    let mut player = ship(i32::MAX);
    player_movement(&mut player, false, true, u64::MAX, PlayArea::new(u32::MAX, 0));
    assert_eq!(player, ship(i32::MAX));
}

#[test]
fn the_ship_never_moves_up_or_down() {
    let mut player = Some(Player::new(Vec2::new(100_000, -7)));
    player_movement(&mut player, false, true, 1_000_000_000, area());
    assert_eq!(player, Some(Player::new(Vec2::new(600_000, -7))));
}

#[test]
fn no_ship_no_movement() {
    let mut player: Option<Player> = None;
    player_movement(&mut player, true, false, TICK, area());
    assert_eq!(player, None);
}

#[test]
fn a_shot_leaves_from_above_the_ship_and_arms_the_cooldown() {
    let player = ship(640_000);
    let mut cooldown = None;
    let mut shots = Vec::new();
    assert!(player_shoot(&player, &mut cooldown, true, &mut shots));
    assert!(cooldown.is_some());
    assert_eq!(
        shots,
        vec![BulletShotEvent { instigator: Instigator::Player, position: Vec2::new(640_000, 97_000), direction: UP }]
    );
    // held key, running cooldown: no second shot
    assert!(!player_shoot(&player, &mut cooldown, true, &mut shots));
    assert_eq!(shots.len(), 1);
}

#[test]
fn no_shot_without_key_or_ship() {
    let mut cooldown = None;
    let mut shots = Vec::new();
    assert!(!player_shoot(&ship(0), &mut cooldown, false, &mut shots));
    assert!(!player_shoot(&None, &mut cooldown, true, &mut shots));
    assert!(cooldown.is_none());
    assert!(shots.is_empty());
}

#[test]
fn the_cooldown_clears_after_half_a_second() {
    assert_eq!(SHOOTING_COOLDOWN, 500_000_000);
    let player = ship(640_000);
    let mut cooldown = None;
    let mut shots = Vec::new();
    assert!(player_shoot(&player, &mut cooldown, true, &mut shots));
    update_cooldown(&mut cooldown, 499_999_999);
    assert!(cooldown.is_some());
    assert!(!player_shoot(&player, &mut cooldown, true, &mut shots));
    update_cooldown(&mut cooldown, 1);
    assert!(cooldown.is_none());
    assert!(player_shoot(&player, &mut cooldown, true, &mut shots));
    assert_eq!(shots.len(), 2);
}

#[test]
fn update_cooldown_keeps_counting() {
    let mut cooldown = Some(Cooldown::once(SHOOTING_COOLDOWN));
    for _ in 0..31 {
        update_cooldown(&mut cooldown, TICK);
        assert!(cooldown.is_some());
    }
    update_cooldown(&mut cooldown, TICK);
    assert!(cooldown.is_none());
    update_cooldown(&mut cooldown, TICK);
    assert!(cooldown.is_none());
}

#[test]
fn hit_boxes_of_the_ship() {
    let p = Player::new(Vec2::new(640_000, 64_000));
    assert_eq!(p.hull_box(), Aabb::new(Vec2::new(640_000, 64_000), Vec2::new(16_000, 31_000)));
    assert_eq!(p.wings_box(), Aabb::new(Vec2::new(640_000, 49_000), Vec2::new(53_000, 9_000)));
}

#[test]
fn a_diving_enemy_that_touches_the_ship_kills_it() {
    let player = ship(640_000);
    let enemies = vec![
        Some(diving(100_000, 64_000)),
        None,
        Some(diving(640_000, 120_000)),
        Some(diving(640_000, 64_000)),
    ];
    let mut events = Vec::new();
    // hull top is at 95; the circle of the enemy at 120 reaches down to 95
    assert_eq!(check_collision_with_enemy(&player, &enemies, &mut events), Some(2));
    assert_eq!(events, vec![PlayerEvent::Died]);
}

#[test]
fn a_diving_enemy_touches_the_wings() {
    let player = ship(640_000);
    // wings reach from 587 to 693 on x, from 40 to 58 on y
    let beside = vec![Some(diving(718_000, 49_000))];
    let mut events = Vec::new();
    assert_eq!(check_collision_with_enemy(&player, &beside, &mut events), Some(0));
    let too_far = vec![Some(diving(718_001, 49_000))];
    assert_eq!(check_collision_with_enemy(&player, &too_far, &mut events), None);
    assert_eq!(events, vec![PlayerEvent::Died]);
}

#[test]
fn a_diving_enemy_just_above_the_hull_misses() {
    let player = ship(640_000);
    let enemies = vec![Some(diving(640_000, 120_001))];
    let mut events = Vec::new();
    assert_eq!(check_collision_with_enemy(&player, &enemies, &mut events), None);
    assert!(events.is_empty());
}

#[test]
fn waiting_and_returning_enemies_do_no_harm() {
    let player = ship(640_000);
    let at = Vec2::new(640_000, 64_000);
    let waiting = Enemy::new(at);
    let homing = Enemy { state: EnemyState::ReturningToBase, position: at, base_position: Vec2::new(0, 500_000), direction: UP };
    let enemies = vec![Some(waiting), Some(homing)];
    let mut events = Vec::new();
    assert_eq!(check_collision_with_enemy(&player, &enemies, &mut events), None);
    assert!(events.is_empty());
    assert_eq!(check_collision_with_enemy(&None, &vec![Some(diving(640_000, 64_000))], &mut events), None);
    assert!(events.is_empty());
}

#[test]
fn an_enemy_bullet_that_touches_the_ship_kills_it() {
    let player = ship(640_000);
    let mut bullets = vec![
        Some(player_bullet(640_000, 64_000)),
        Some(enemy_bullet(100_000, 64_000)),
        None,
        Some(enemy_bullet(640_000, 106_000)),
        Some(enemy_bullet(640_000, 64_000)),
    ];
    let mut events = Vec::new();
    // hull top at 95, bullet bottom at 106 - 11 = 95
    assert_eq!(check_collision_with_bullet(&player, &mut bullets, &mut events), Some(3));
    assert_eq!(events, vec![PlayerEvent::Died]);
    assert_eq!(
        bullets,
        vec![
            Some(player_bullet(640_000, 64_000)),
            Some(enemy_bullet(100_000, 64_000)),
            None,
            None,
            Some(enemy_bullet(640_000, 64_000)),
        ]
    );
}

#[test]
fn an_enemy_bullet_touches_the_wings() {
    let player = ship(640_000);
    let mut bullets = vec![Some(enemy_bullet(696_001, 49_000)), Some(enemy_bullet(696_000, 49_000))];
    let mut events = Vec::new();
    assert_eq!(check_collision_with_bullet(&player, &mut bullets, &mut events), Some(1));
    assert_eq!(bullets, vec![Some(enemy_bullet(696_001, 49_000)), None]);
}

#[test]
fn the_ships_own_bullets_pass_through_it() {
    let player = ship(640_000);
    let mut bullets = vec![Some(player_bullet(640_000, 64_000)), Some(enemy_bullet(640_000, 106_001))];
    let mut events = Vec::new();
    assert_eq!(check_collision_with_bullet(&player, &mut bullets, &mut events), None);
    assert!(events.is_empty());
    assert_eq!(bullets, vec![Some(player_bullet(640_000, 64_000)), Some(enemy_bullet(640_000, 106_001))]);
    assert_eq!(check_collision_with_bullet(&None, &mut bullets, &mut events), None);
}

#[test]
fn a_posted_death_takes_the_ship_out() {
    let mut player = ship(640_000);
    let mut cooldown = Some(Cooldown::once(SHOOTING_COOLDOWN));
    listen_player_event(&mut player, &mut cooldown, &Vec::new());
    assert_eq!(player, ship(640_000));
    assert!(cooldown.is_some());
    listen_player_event(&mut player, &mut cooldown, &vec![PlayerEvent::Died, PlayerEvent::Died]);
    assert_eq!(player, None);
    assert!(cooldown.is_none());
    listen_player_event(&mut player, &mut cooldown, &vec![PlayerEvent::Died]);
    assert_eq!(player, None);
}

#[test]
fn despawn_player_removes_ship_and_cooldown() {
    let mut player = ship(1);
    let mut cooldown = Some(Cooldown::once(SHOOTING_COOLDOWN));
    despawn_player(&mut player, &mut cooldown);
    assert_eq!(player, None);
    assert!(cooldown.is_none());
}

#[test]
fn single_ship_steps() {
    let p = Player::new(Vec2::new(10_000, 64_000));
    assert_eq!(p.steer(true, false, 1_000_000_000, area()).position, Vec2::new(0, 64_000));
    assert_eq!(p.steer(false, true, 1_000_000_000, area()).position, Vec2::new(510_000, 64_000));
    assert_eq!(p.shoot().position, Vec2::new(10_000, 97_000));
}
