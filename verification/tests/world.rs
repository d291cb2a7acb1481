use space_invaders::area::PlayArea;
use space_invaders::bullet::Bullet;
use space_invaders::bullet::BulletShotEvent;
use space_invaders::bullet::Instigator;
use space_invaders::enemy::spawn_enemies;
use space_invaders::enemy::Enemy;
use space_invaders::enemy::EnemyEvent;
use space_invaders::enemy::EnemyState;
use space_invaders::events::EventBus;
use space_invaders::game_mode::GameModeData;
use space_invaders::game_mode::GameModeEvent;
use space_invaders::player::Player;
use space_invaders::player::PlayerEvent;
use space_invaders::vector::Vec2;
use space_invaders::world::Input;
use space_invaders::world::Picks;
use space_invaders::world::World;

const UP: Vec2 = Vec2 { x: 0, y: 1000 };
const DOWN: Vec2 = Vec2 { x: 0, y: -1000 };
const MILLI: u64 = 1_000_000;
const IDLE: Input = Input { left: false, right: false, fire: false };
const FIRE: Input = Input { left: false, right: false, fire: true };
const LEFT: Input = Input { left: true, right: false, fire: false };

fn area() -> PlayArea {
    PlayArea::new(1_280_000, 720_000)
}

fn live_bullets(world: &World) -> Vec<Bullet> {
    world.bullets().iter().filter_map(|slot| *slot).collect()
}

fn count_in_state(world: &World, state: EnemyState) -> usize {
    world.enemies().iter().filter(|slot| matches!(slot, Some(e) if e.state == state)).count()
}

fn assert_enemies_consistent(world: &World) {
    for slot in world.enemies().iter() {
        if let Some(e) = slot {
            assert_eq!(e.state == EnemyState::Idle, e.direction == Vec2::new(0, 0));
        }
    }
}

#[test]
fn a_new_world_is_empty() {
    let world = World::new();
    assert!(world.enemies().is_empty());
    assert!(world.bullets().is_empty());
    assert_eq!(world.player(), None);
    assert!(!world.is_cooling_down());
    assert_eq!(world.game_mode(), GameModeData { score: 0, highest_score: 0, wave: 0 });
    assert_eq!(world.live_enemies(), 0);
    assert!(world.events().bullet_shots.is_empty());
    assert!(world.events().enemy_events.is_empty());
    assert!(world.events().player_events.is_empty());
    assert!(world.events().game_mode_events.is_empty());
}

#[test]
fn an_event_bus_starts_empty_and_clears() {
    let mut bus = EventBus::new();
    assert!(bus.bullet_shots.is_empty() && bus.enemy_events.is_empty());
    bus.enemy_events.push(EnemyEvent::Died(1));
    bus.player_events.push(PlayerEvent::Died);
    bus.game_mode_events.push(GameModeEvent::ScoreChanged(1));
    bus.bullet_shots.push(BulletShotEvent { instigator: Instigator::Enemy, position: Vec2::new(0, 0), direction: DOWN });
    bus.clear();
    assert!(bus.bullet_shots.is_empty());
    assert!(bus.enemy_events.is_empty());
    assert!(bus.player_events.is_empty());
    assert!(bus.game_mode_events.is_empty());
}

#[test]
fn start_round_spawns_the_wave_and_the_ship() {
    let mut world = World::new();
    world.start_round(area());
    assert_eq!(*world.enemies(), spawn_enemies(area()));
    assert_eq!(world.live_enemies(), 16);
    assert_eq!(world.player(), Some(Player::new(Vec2::new(640_000, 64_000))));
    assert!(world.bullets().is_empty());
    assert!(!world.is_cooling_down());
    assert_eq!(world.game_mode(), GameModeData { score: 0, highest_score: 0, wave: 0 });
}

#[test]
fn a_round_started_and_ended_at_once_leaves_nothing() {
    let mut world = World::new();
    world.start_round(area());
    world.end_round();
    assert_eq!(live_bullets(&world).len(), 0);
    assert_eq!(world.live_enemies(), 0);
    assert!(world.enemies().is_empty());
    assert_eq!(world.player(), None);
    assert!(!world.is_cooling_down());
    assert_eq!(world.game_mode(), GameModeData { score: 0, highest_score: 0, wave: 0 });
    assert!(world.events().bullet_shots.is_empty());
}

#[test]
fn end_round_clears_a_round_in_full_swing() {
    let mut world = World::new();
    world.start_round(area());
    world.tick(16 * MILLI, FIRE, area());
    world.fire(Vec2::new(10_000, 300_000), DOWN, Instigator::Enemy);
    world.tick(16 * MILLI, IDLE, area());
    assert_eq!(live_bullets(&world).len(), 2);
    assert!(world.is_cooling_down());
    world.fire(Vec2::new(10_000, 300_000), DOWN, Instigator::Enemy);
    world.end_round();
    assert!(world.bullets().is_empty());
    assert!(world.enemies().is_empty());
    assert_eq!(world.player(), None);
    assert!(!world.is_cooling_down());
    assert!(world.events().bullet_shots.is_empty());
    // nothing is left to spawn in the next tick
    world.tick(16 * MILLI, IDLE, area());
    assert!(live_bullets(&world).is_empty());
}

#[test]
fn a_new_round_resets_score_and_wave_but_not_the_highest_score() {
    let mut world = World::new();
    world.start_round(area());
    let target = world.enemies()[3].unwrap().position;
    world.fire(target, UP, Instigator::Player);
    world.tick(MILLI, IDLE, area());
    assert_eq!(world.game_mode(), GameModeData { score: 1, highest_score: 1, wave: 0 });
    world.end_round();
    assert_eq!(world.game_mode(), GameModeData { score: 1, highest_score: 1, wave: 0 });
    world.start_round(area());
    assert_eq!(world.game_mode(), GameModeData { score: 0, highest_score: 1, wave: 0 });
    assert_eq!(world.live_enemies(), 16);
    // the first kill of the new round does not beat the highest score
    let target = world.enemies()[3].unwrap().position;
    world.fire(target, UP, Instigator::Player);
    world.tick(MILLI, IDLE, area());
    assert_eq!(world.game_mode(), GameModeData { score: 1, highest_score: 1, wave: 0 });
    assert_eq!(world.events().game_mode_events, vec![GameModeEvent::ScoreChanged(1)]);
}

#[test]
fn a_requested_shot_becomes_a_bullet_in_the_next_tick() {
    let mut world = World::new();
    world.fire(Vec2::new(100_000, 100_000), UP, Instigator::Player);
    assert!(live_bullets(&world).is_empty());
    assert_eq!(world.events().bullet_shots.len(), 1);
    world.tick(250 * MILLI, IDLE, area());
    // spawned and flown for a quarter second in the same tick
    assert_eq!(
        live_bullets(&world),
        vec![Bullet { instigator: Instigator::Player, position: Vec2::new(100_000, 300_000), direction: UP }]
    );
    assert!(world.events().bullet_shots.is_empty());
    world.tick(250 * MILLI, IDLE, area());
    assert_eq!(live_bullets(&world)[0].position, Vec2::new(100_000, 500_000));
}

#[test]
fn bullets_of_the_two_sides_pass_through_each_other() {
    let mut world = World::new();
    world.fire(Vec2::new(100_000, 100_000), UP, Instigator::Player);
    world.fire(Vec2::new(100_000, 500_000), DOWN, Instigator::Enemy);
    // they meet at a height of 300 after a quarter second
    for _ in 0..50 {
        world.tick(10 * MILLI, IDLE, area());
        assert_eq!(live_bullets(&world).len(), 2);
        assert!(world.events().enemy_events.is_empty());
        assert!(world.events().player_events.is_empty());
    }
    let bullets = live_bullets(&world);
    assert_eq!(bullets[0], Bullet { instigator: Instigator::Player, position: Vec2::new(100_000, 500_000), direction: UP });
    assert_eq!(bullets[1], Bullet { instigator: Instigator::Enemy, position: Vec2::new(100_000, 100_000), direction: DOWN });
}

#[test]
fn bullets_leave_through_the_top_and_the_bottom() {
    let mut world = World::new();
    world.fire(Vec2::new(0, 720_000), UP, Instigator::Player);
    world.fire(Vec2::new(0, 0), DOWN, Instigator::Enemy);
    world.tick(125 * MILLI, IDLE, area());
    // 100 units past each edge: still there
    assert_eq!(live_bullets(&world).len(), 2);
    world.tick(MILLI, IDLE, area());
    assert!(live_bullets(&world).is_empty());
    assert_eq!(world.bullets().len(), 2);
}

#[test]
fn killing_fifteen_of_sixteen_enemies_one_at_a_time() {
    let mut world = World::new();
    world.start_round(area());
    let mut died = Vec::new();
    let mut scores = Vec::new();
    let mut waves = Vec::new();
    for slot in 0..15 {
        let target = world.enemies()[slot].unwrap().position;
        world.fire(target, UP, Instigator::Player);
        let picks = world.tick(MILLI, IDLE, area());
        assert_eq!(picks, Picks { dive: None, shooter: None });
        assert_eq!(world.events().enemy_events, vec![EnemyEvent::Died(slot)]);
        died.extend(world.events().enemy_events.iter().copied());
        for notice in world.events().game_mode_events.iter() {
            match notice {
                GameModeEvent::ScoreChanged(score) => scores.push(*score),
                GameModeEvent::WaveChanged(wave) => waves.push(*wave),
                GameModeEvent::HighestScoreChanged(highest) => assert_eq!(*highest, slot as u32 + 1),
            }
        }
        assert_eq!(world.enemies()[slot], None);
        assert_eq!(world.live_enemies(), 15 - slot);
        assert!(live_bullets(&world).is_empty());
    }
    assert_eq!(died.len(), 15);
    assert_eq!(scores, (1..=15).collect::<Vec<u32>>());
    assert_eq!(world.game_mode(), GameModeData { score: 15, highest_score: 15, wave: 0 });
    // one enemy is left standing, so the wave is not cleared yet
    assert_eq!(world.live_enemies(), 1);
    assert!(waves.is_empty());

    // the death of the last one clears the wave
    let target = world.enemies()[15].unwrap().position;
    world.fire(target, UP, Instigator::Player);
    world.tick(MILLI, IDLE, area());
    assert_eq!(
        world.events().game_mode_events,
        vec![
            GameModeEvent::ScoreChanged(16),
            GameModeEvent::HighestScoreChanged(16),
            GameModeEvent::WaveChanged(1),
        ]
    );
    assert_eq!(world.live_enemies(), 0);
    assert_eq!(world.game_mode(), GameModeData { score: 16, highest_score: 16, wave: 1 });
}

#[test]
fn notices_last_for_one_tick() {
    let mut world = World::new();
    world.start_round(area());
    let target = world.enemies()[0].unwrap().position;
    world.fire(target, UP, Instigator::Player);
    world.tick(MILLI, IDLE, area());
    assert_eq!(world.events().enemy_events.len(), 1);
    assert_eq!(world.events().game_mode_events.len(), 2);
    world.tick(MILLI, IDLE, area());
    assert!(world.events().enemy_events.is_empty());
    assert!(world.events().game_mode_events.is_empty());
    assert_eq!(world.game_mode().score, 1);
}

#[test]
fn exactly_one_enemy_dives_after_five_seconds() {
    let mut world = World::new();
    world.start_round(area());
    let picks = world.tick(4_900 * MILLI, IDLE, area());
    assert_eq!(picks.dive, None);
    assert_eq!(count_in_state(&world, EnemyState::Idle), 16);
    let picks = world.tick(100 * MILLI, IDLE, area());
    let slot = picks.dive.expect("a dive starts when the timer completes");
    assert_eq!(count_in_state(&world, EnemyState::Kamikaze), 1);
    assert_eq!(count_in_state(&world, EnemyState::Idle), 15);
    let diving = world.enemies()[slot].unwrap();
    assert_eq!(diving.state, EnemyState::Kamikaze);
    assert_eq!(diving.direction, space_invaders::vector::direction_to(diving.position, Vec2::new(640_000, 64_000)));
    assert_enemies_consistent(&world);
    // the dive is not aimed again when the ship moves
    world.tick(100 * MILLI, LEFT, area());
    assert_eq!(world.enemies()[slot].unwrap().direction, diving.direction);
    assert_eq!(count_in_state(&world, EnemyState::Kamikaze), 1);
}

#[test]
fn an_enemy_fires_after_three_seconds() {
    let mut world = World::new();
    world.start_round(area());
    let picks = world.tick(2_999 * MILLI, IDLE, area());
    assert_eq!(picks.shooter, None);
    assert!(world.events().bullet_shots.is_empty());
    let picks = world.tick(MILLI, IDLE, area());
    let slot = picks.shooter.expect("an enemy fires when the timer completes");
    let shooter = world.enemies()[slot].unwrap();
    assert_eq!(
        world.events().bullet_shots,
        vec![BulletShotEvent {
            instigator: Instigator::Enemy,
            position: Vec2::new(shooter.position.x, shooter.position.y - 33_000),
            direction: DOWN,
        }]
    );
    world.tick(MILLI, IDLE, area());
    let bullets = live_bullets(&world);
    assert_eq!(bullets.len(), 1);
    assert_eq!(bullets[0].instigator, Instigator::Enemy);
    assert_eq!(bullets[0].position, Vec2::new(shooter.position.x, shooter.position.y - 33_800));
}

#[test]
fn the_fire_key_is_held_back_by_the_cooldown() {
    let mut world = World::new();
    world.start_round(area());
    world.tick(100 * MILLI, FIRE, area());
    assert_eq!(
        world.events().bullet_shots,
        vec![BulletShotEvent { instigator: Instigator::Player, position: Vec2::new(640_000, 97_000), direction: UP }]
    );
    assert!(world.is_cooling_down());
    for _ in 0..3 {
        world.tick(100 * MILLI, FIRE, area());
        assert!(world.events().bullet_shots.is_empty());
        assert!(world.is_cooling_down());
    }
    // the cooldown has counted from the tick of the shot: it ends here
    world.tick(100 * MILLI, FIRE, area());
    assert!(world.events().bullet_shots.is_empty());
    assert!(!world.is_cooling_down());
    world.tick(100 * MILLI, FIRE, area());
    assert_eq!(world.events().bullet_shots.len(), 1);
}

#[test]
fn the_ship_steered_left_stops_at_the_edge() {
    let mut world = World::new();
    world.start_round(PlayArea::new(0, 720_000));
    assert_eq!(world.player(), Some(Player::new(Vec2::new(0, 64_000))));
    world.tick(16 * MILLI, LEFT, PlayArea::new(0, 720_000));
    assert_eq!(world.player(), Some(Player::new(Vec2::new(0, 64_000))));

    let mut world = World::new();
    world.start_round(area());
    for _ in 0..100 {
        world.tick(16 * MILLI, LEFT, area());
        let x = world.player().unwrap().position.x;
        assert!(0 <= x && x <= 1_280_000);
    }
    assert_eq!(world.player(), Some(Player::new(Vec2::new(0, 64_000))));
}

#[test]
fn an_enemy_bullet_kills_the_player() {
    let mut world = World::new();
    world.start_round(area());
    world.fire(Vec2::new(640_000, 100_000), DOWN, Instigator::Enemy);
    assert!(world.player().is_some());
    world.tick(MILLI, IDLE, area());
    assert_eq!(world.events().player_events, vec![PlayerEvent::Died]);
    assert_eq!(world.player(), None);
    assert!(live_bullets(&world).is_empty());
    assert_eq!(world.live_enemies(), 16);
    assert_eq!(world.game_mode().score, 0);
    // without a ship nothing is steered and nothing fires
    world.tick(MILLI, FIRE, area());
    assert_eq!(world.player(), None);
    assert!(world.events().bullet_shots.is_empty());
    assert!(world.events().player_events.is_empty());
}

#[test]
fn a_player_bullet_does_not_kill_the_player() {
    let mut world = World::new();
    world.start_round(area());
    world.fire(Vec2::new(640_000, 64_000), UP, Instigator::Player);
    world.tick(MILLI, IDLE, area());
    assert!(world.events().player_events.is_empty());
    assert!(world.player().is_some());
    assert_eq!(live_bullets(&world).len(), 1);
}

#[test]
fn an_enemy_bullet_does_not_kill_an_enemy() {
    let mut world = World::new();
    world.start_round(area());
    let target = world.enemies()[5].unwrap().position;
    world.fire(target, DOWN, Instigator::Enemy);
    world.tick(MILLI, IDLE, area());
    assert!(world.events().enemy_events.is_empty());
    assert_eq!(world.live_enemies(), 16);
    assert_eq!(live_bullets(&world).len(), 1);
}

#[test]
fn a_dive_that_reaches_the_ship_kills_it_and_takes_the_diver_out() {
    let mut world = World::new();
    world.start_round(area());
    let ship = world.player().unwrap().position;
    let picks = world.tick(5_000 * MILLI, IDLE, area());
    let slot = picks.dive.expect("a dive starts when the timer completes");
    let diver = world.enemies()[slot].unwrap();
    assert_eq!(diver.state, EnemyState::Kamikaze);
    // fly the whole way in one tick: sub-units / (200 units/s) in nanoseconds
    let dx = (ship.x - diver.position.x) as f64;
    let dy = (ship.y - diver.position.y) as f64;
    let way = (dx * dx + dy * dy).sqrt();
    let flight = (way * 5_000.0) as u64;
    world.tick(flight, IDLE, area());
    assert_eq!(world.events().player_events, vec![PlayerEvent::Died]);
    assert!(world.events().enemy_events.is_empty());
    assert_eq!(world.player(), None);
    assert!(!world.is_cooling_down());
    assert_eq!(world.enemies()[slot], None);
    assert_eq!(world.live_enemies(), 15);
    // ramming scores nothing
    assert_eq!(world.game_mode(), GameModeData { score: 0, highest_score: 0, wave: 0 });
    assert!(world.events().game_mode_events.is_empty());
}

#[test]
fn a_missed_dive_returns_to_its_base() {
    let mut world = World::new();
    world.start_round(area());
    let picks = world.tick(5_000 * MILLI, IDLE, area());
    let slot = picks.dive.expect("a dive starts when the timer completes");
    let base = world.enemies()[slot].unwrap().base_position;
    // the ship gets out of the way, to the left edge, clear of every column
    world.tick(1_300 * MILLI, LEFT, area());
    assert_eq!(world.player(), Some(Player::new(Vec2::new(0, 64_000))));
    assert_eq!(world.enemies()[slot].unwrap().state, EnemyState::Kamikaze);
    let mut returning = false;
    let mut home = false;
    for _ in 0..1500 {
        world.tick(10 * MILLI, IDLE, area());
        assert_enemies_consistent(&world);
        let diver = world.enemies()[slot].expect("nothing touches the diver");
        assert_eq!(diver.base_position, base);
        match diver.state {
            EnemyState::Kamikaze => assert!(!returning),
            EnemyState::ReturningToBase => {
                if !returning {
                    assert_eq!(diver.position.y, 820_000);
                }
                returning = true;
            }
            EnemyState::Idle => {
                assert!(returning);
                assert_eq!(diver.position, base);
                assert_eq!(diver.direction, Vec2::new(0, 0));
                home = true;
                break;
            }
        }
    }
    assert!(home);
}

#[test]
fn without_a_ship_no_dive_starts() {
    let mut world = World::new();
    world.start_round(area());
    world.fire(Vec2::new(640_000, 64_000), DOWN, Instigator::Enemy);
    world.tick(MILLI, IDLE, area());
    assert_eq!(world.player(), None);
    for _ in 0..700 {
        let picks = world.tick(10 * MILLI, IDLE, area());
        assert_eq!(picks.dive, None);
    }
    assert_eq!(count_in_state(&world, EnemyState::Idle), 16);
    assert_enemies_consistent(&world);
}

#[test]
fn a_long_round_keeps_every_rule() {
    let mut world = World::new();
    world.start_round(area());
    let mut last = world.game_mode();
    let mut step = 0u64;
    for _ in 0..3000 {
        step += 1;
        let input = Input { left: step % 7 < 3, right: step % 11 < 4, fire: step % 2 == 0 };
        let before: Vec<Option<Enemy>> = world.enemies().clone();
        world.tick(16 * MILLI, input, area());
        assert_enemies_consistent(&world);
        let started = (0..before.len())
            .filter(|i| {
                matches!(before[*i], Some(e) if e.state == EnemyState::Idle)
                    && matches!(world.enemies()[*i], Some(e) if e.state == EnemyState::Kamikaze)
            })
            .count();
        assert!(started <= 1);
        let now = world.game_mode();
        assert!(now.score >= last.score);
        assert!(now.highest_score >= last.highest_score);
        assert!(now.highest_score >= now.score);
        last = now;
        if let Some(p) = world.player() {
            assert!(0 <= p.position.x && p.position.x <= 1_280_000);
            assert_eq!(p.position.y, 64_000);
        }
        for slot in world.enemies().iter() {
            if let Some(e) = slot {
                assert_eq!(e.base_position.y == 592_000 || e.base_position.y == 528_000, true);
            }
        }
    }
}
