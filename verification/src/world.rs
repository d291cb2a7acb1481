//! The world: everything that lives in a round, and the tick that moves
//! it on.
//!
//! A tick runs the passes in a fixed order: shots requested in the last
//! tick become bullets; everything moves; the schedulers and the fire key
//! are served; the ship's cooldown runs; enemies that missed turn back and
//! enemies that are home settle, and bullets out of bounds are retired;
//! collisions are detected; and last the notices are handled: deaths are
//! counted first, then the dead are taken out.

use crate::area::PlayArea;
use crate::bullet::all_flown;
use crate::bullet::all_kept;
use crate::bullet::bullet_movement;
use crate::bullet::destroy_all_bullets;
use crate::bullet::destroy_bullets;
use crate::bullet::fire;
use crate::bullet::spawn_bullet;
use crate::bullet::spawned;
use crate::bullet::Bullet;
use crate::bullet::BulletShotEvent;
use crate::bullet::Instigator;
use crate::enemy::after_dive;
use crate::enemy::after_removal;
use crate::enemy::after_strikes;
use crate::enemy::all_consistent;
use crate::enemy::all_moved;
use crate::enemy::all_returned;
use crate::enemy::all_settled;
use crate::enemy::back_to_idle;
use crate::enemy::deaths;
use crate::enemy::enemy_movement;
use crate::enemy::formation;
use crate::enemy::is_idle;
use crate::enemy::began_dive;
use crate::enemy::first_hit;
use crate::enemy::is_live;
use crate::enemy::kamikaze_timer;
use crate::enemy::shooting_timer;
use crate::enemy::lemma_enemy_bullets_kill_no_enemy;
use crate::enemy::lemma_formation;
use crate::enemy::lemma_rows_stay_consistent;
use crate::enemy::lemma_waits_through_tick;
use crate::enemy::remove_enemy;
use crate::enemy::return_to_base;
use crate::enemy::spawn_enemies;
use crate::enemy::update_kamikaze_timer;
use crate::enemy::update_shooting_timer;
use crate::enemy::without;
use crate::enemy::Enemy;
use crate::enemy::KAMIKAZE_TIMER;
use crate::enemy::SHOOTING_TIMER;
use crate::events::EventBus;
use crate::events::Notices;
use crate::game_mode::GameModeData;
use crate::player::cooldown_state;
use crate::player::cooled;
use crate::player::despawn_player;
use crate::player::lemma_first_struck;
use crate::player::lemma_player_bullets_strike_no_player;
use crate::player::listen_player_event;
use crate::player::player_movement;
use crate::player::player_shoot;
use crate::player::rammed_by;
use crate::player::spawn_player;
use crate::player::struck_by;
use crate::player::update_cooldown;
use crate::player::Player;
use crate::player::PlayerEvent;
use crate::player::SHOOTING_COOLDOWN;
use crate::slots::count_live;
use crate::slots::live_count;
use crate::slots::slot_of;
use crate::timer::Cooldown;
use crate::timer::TimerState;
use crate::vector::Vec2;
use bevy::time::TimerMode;
use vstd::prelude::*;

verus! {

/// The keys held during one tick.
#[derive(Clone, Copy, Debug, PartialEq, Eq, Structural)]
pub struct Input {
    pub left: bool,
    pub right: bool,
    pub fire: bool,
}

/// Whom the two schedulers picked in one tick: the slot of the enemy told
/// to dive, and the slot of the enemy that fired.
#[derive(Clone, Copy, Debug, PartialEq, Eq, Structural)]
pub struct Picks {
    pub dive: Option<usize>,
    pub shooter: Option<usize>,
}

/// The state of a round.
pub struct World {
    enemies: Vec<Option<Enemy>>,
    bullets: Vec<Option<Bullet>>,
    player: Option<Player>,
    cooldown: Option<Cooldown>,
    kamikaze_timer: Cooldown,
    shooting_timer: Cooldown,
    game_mode: GameModeData,
    events: EventBus,
}

/// What a world holds.
pub struct WorldView {
    /// The enemies, each in its formation slot.
    pub enemies: Seq<Option<Enemy>>,
    pub bullets: Seq<Option<Bullet>>,
    pub player: Option<Player>,
    /// The ship's running cooldown, if it has fired lately.
    pub cooldown: Option<TimerState>,
    pub kamikaze_timer: TimerState,
    pub shooting_timer: TimerState,
    pub game_mode: GameModeData,
    /// The notices of the last tick. The shots among them are the bullets
    /// of the next.
    pub events: Notices,
}

impl WorldView {
    /// What holds of every world: enemies wait exactly when they have no
    /// direction; the highest score is not below the score; only a ship can
    /// have a cooldown, which is then a running one-shot of half a second;
    /// and the two schedulers repeat every 5 and every 3 seconds.
    pub open spec fn wf(self) -> bool {
        &&& all_consistent(self.enemies)
        &&& self.game_mode.wf()
        &&& self.kamikaze_timer.counting()
        &&& self.kamikaze_timer.duration == KAMIKAZE_TIMER
        &&& self.kamikaze_timer.mode == TimerMode::Repeating
        &&& self.shooting_timer.counting()
        &&& self.shooting_timer.duration == SHOOTING_TIMER
        &&& self.shooting_timer.mode == TimerMode::Repeating
        &&& match self.cooldown {
            Some(c) => {
                &&& self.player is Some
                &&& c.counting()
                &&& c.duration == SHOOTING_COOLDOWN
                &&& c.mode == TimerMode::Once
                &&& !c.finished
            },
            None => true,
        }
    }

    /// A world before its first round: nothing in it, every counter at
    /// zero.
    pub open spec fn empty() -> WorldView {
        WorldView {
            enemies: Seq::empty(),
            bullets: Seq::empty(),
            player: None,
            cooldown: None,
            kamikaze_timer: TimerState::fresh(KAMIKAZE_TIMER as nat, TimerMode::Repeating),
            shooting_timer: TimerState::fresh(SHOOTING_TIMER as nat, TimerMode::Repeating),
            game_mode: GameModeData { score: 0, highest_score: 0, wave: 0 },
            events: Notices::none(),
        }
    }

    /// The world as a round starts: a full wave in formation, the ship in
    /// place, no bullets, both schedulers at the start of an interval, score
    /// and wave at zero.
    pub open spec fn started(self, area: PlayArea) -> WorldView {
        WorldView {
            enemies: formation(area),
            bullets: Seq::empty(),
            player: Some(Player::entering(area)),
            cooldown: None,
            kamikaze_timer: self.kamikaze_timer.restarted(),
            shooting_timer: self.shooting_timer.restarted(),
            game_mode: self.game_mode.restarted(),
            events: Notices::none(),
        }
    }

    /// The world as a round ends: no bullets, no enemies, no ship, no
    /// notices. The counters and the schedulers stay as they are.
    pub open spec fn ended(self) -> WorldView {
        WorldView {
            enemies: Seq::empty(),
            bullets: Seq::empty(),
            player: None,
            cooldown: None,
            events: Notices::none(),
            ..self
        }
    }

    /// The world with one more shot requested.
    pub open spec fn with_shot(self, shot: BulletShotEvent) -> WorldView {
        WorldView {
            events: Notices { bullet_shots: self.events.bullet_shots.push(shot), ..self.events },
            ..self
        }
    }

    /// The world with every notice but the shots dropped.
    pub open spec fn with_shots_only(self) -> WorldView {
        WorldView {
            events: Notices { bullet_shots: self.events.bullet_shots, ..Notices::none() },
            ..self
        }
    }

    /// First stage of a tick: the shots of the last tick become bullets, and
    /// its notices are dropped.
    pub open spec fn begun(self) -> WorldView {
        WorldView {
            bullets: spawned(self.bullets, self.events.bullet_shots),
            events: Notices::none(),
            ..self
        }
    }

    /// Second stage: the ship, the enemies and the bullets move.
    pub open spec fn moved(self, input: Input, dt_nanos: nat, area: PlayArea) -> WorldView {
        WorldView {
            player: match self.player {
                Some(p) => Some(p.steered(input.left, input.right, dt_nanos as int, area)),
                None => None,
            },
            enemies: all_moved(self.enemies, dt_nanos as int),
            bullets: all_flown(self.bullets, dt_nanos as int),
            ..self
        }
    }

    /// Whether this tick starts a dive, if an enemy is there to start it:
    /// the dive scheduler completes an interval, and there is a ship to
    /// dive at.
    pub open spec fn dive_due(self, dt_nanos: nat) -> bool {
        self.kamikaze_timer.ticked(dt_nanos).just_finished() && self.player is Some
    }

    /// Whether this tick has an enemy fire, if one is there to fire.
    pub open spec fn shot_due(self, dt_nanos: nat) -> bool {
        self.shooting_timer.ticked(dt_nanos).just_finished()
    }

    /// Whether the schedulers may have picked as `picks` says. A dive is
    /// picked among the waiting enemies, and one is picked whenever a dive
    /// is due and an enemy waits. A shooter is picked among all enemies, and
    /// one is picked whenever a shot is due and an enemy lives. Whom chance
    /// picks among them is open.
    pub open spec fn may_pick(self, dt_nanos: nat, picks: Picks) -> bool {
        &&& match picks.dive {
            Some(slot) => self.dive_due(dt_nanos) && is_idle(self.enemies, slot as int),
            None => !(self.dive_due(dt_nanos) && exists|i: int| is_idle(self.enemies, i)),
        }
        &&& match picks.shooter {
            Some(slot) => self.shot_due(dt_nanos) && is_live(self.enemies, slot as int),
            None => !(self.shot_due(dt_nanos) && exists|i: int| is_live(self.enemies, i)),
        }
    }

    /// Whether the ship fires in this tick: the key is held, there is a
    /// ship, and no cooldown is running.
    pub open spec fn fires(self, input: Input) -> bool {
        self.player is Some && input.fire && self.cooldown is None
    }

    /// Third stage: both schedulers advance, the enemy picked to dive
    /// begins its dive at the ship, the enemy picked to fire and the ship
    /// post their shots, and a shot by the ship arms its cooldown.
    pub open spec fn scheduled(self, input: Input, dt_nanos: nat, picks: Picks) -> WorldView {
        let enemies = match picks.dive {
            Some(slot) => after_dive(self.enemies, slot as int, self.player->0.position),
            None => self.enemies,
        };
        let enemy_shots = match picks.shooter {
            Some(slot) => seq![enemies[slot as int]->0.shot()],
            None => Seq::empty(),
        };
        let player_shots = if self.fires(input) {
            seq![self.player->0.shot()]
        } else {
            Seq::empty()
        };
        WorldView {
            enemies,
            kamikaze_timer: self.kamikaze_timer.ticked(dt_nanos),
            shooting_timer: self.shooting_timer.ticked(dt_nanos),
            cooldown: if self.fires(input) {
                Some(TimerState::fresh(SHOOTING_COOLDOWN as nat, TimerMode::Once))
            } else {
                self.cooldown
            },
            events: Notices {
                bullet_shots: self.events.bullet_shots + enemy_shots + player_shots,
                ..self.events
            },
            ..self
        }
    }

    /// Fourth stage: the ship's cooldown runs, and is dropped once it has
    /// finished.
    pub open spec fn cooled_down(self, dt_nanos: nat) -> WorldView {
        WorldView { cooldown: cooled(self.cooldown, dt_nanos), ..self }
    }

    /// Fifth stage: enemies whose dive has missed turn back, enemies that
    /// have reached their base settle, bullets out of bounds are retired.
    pub open spec fn transitioned(self, area: PlayArea) -> WorldView {
        WorldView {
            enemies: all_settled(all_returned(self.enemies, area)),
            bullets: all_kept(self.bullets, area),
            ..self
        }
    }

    /// Sixth stage: collisions. The player's bullets are tested against the
    /// enemies, the ship against the diving enemies, and the enemies'
    /// bullets against the ship. Bullets that strike are spent; whoever is
    /// struck stays where it is, and its death is posted.
    pub open spec fn collided(self) -> WorldView {
        let after_enemies = after_strikes(self.bullets, self.enemies);
        let rammed = rammed_by(self.player, self.enemies);
        let struck = struck_by(self.player, after_enemies);
        WorldView {
            bullets: match struck {
                Some(slot) => after_enemies.update(slot, None),
                None => after_enemies,
            },
            events: Notices {
                enemy_events: self.events.enemy_events + deaths(self.bullets, self.enemies),
                player_events: self.events.player_events + (if rammed is Some {
                    seq![PlayerEvent::Died]
                } else {
                    Seq::empty()
                }) + (if struck is Some {
                    seq![PlayerEvent::Died]
                } else {
                    Seq::empty()
                }),
                ..self.events
            },
            ..self
        }
    }

    /// Last stage: the notices are handled. Deaths of enemies are counted
    /// while the dead are still in the row; then the dead are taken out,
    /// and with them the enemy that rammed the ship; and a ship whose death
    /// was posted is taken out with its cooldown.
    pub open spec fn dispatched(self) -> WorldView {
        let live = live_count(self.enemies);
        let n = self.events.enemy_events.len();
        let dead = self.events.player_events.len() > 0;
        let removed = after_removal(self.enemies, self.events.enemy_events);
        WorldView {
            enemies: match rammed_by(self.player, self.enemies) {
                Some(slot) => without(removed, slot),
                None => removed,
            },
            player: if dead {
                None
            } else {
                self.player
            },
            cooldown: if dead {
                None
            } else {
                self.cooldown
            },
            game_mode: self.game_mode.after_deaths(live, n),
            events: Notices {
                game_mode_events: self.events.game_mode_events + self.game_mode.notices(live, n),
                ..self.events
            },
            ..self
        }
    }

    /// The world as the schedulers find it in a tick: after spawning and
    /// movement.
    pub open spec fn before_picks(self, input: Input, dt_nanos: nat, area: PlayArea) -> WorldView {
        self.begun().moved(input, dt_nanos, area)
    }

    /// The world after one tick of `dt_nanos` nanoseconds.
    pub open spec fn step(
        self,
        input: Input,
        dt_nanos: nat,
        area: PlayArea,
        picks: Picks,
    ) -> WorldView {
        self.before_picks(input, dt_nanos, area).scheduled(input, dt_nanos, picks).cooled_down(
            dt_nanos,
        ).transitioned(area).collided().dispatched()
    }
}

impl WorldView {
    /// The rule that an enemy waits exactly when it has no direction, and
    /// everything else that holds of a world, holds after every tick.
    pub proof fn lemma_step_wf(self, input: Input, dt_nanos: nat, area: PlayArea, picks: Picks)
        requires
            self.wf(),
            self.before_picks(input, dt_nanos, area).may_pick(dt_nanos, picks),
        ensures
            self.step(input, dt_nanos, area, picks).wf(),
    {
        let a = self.begun();
        let b = a.moved(input, dt_nanos, area);
        let c = b.scheduled(input, dt_nanos, picks);
        let d = c.cooled_down(dt_nanos);
        let e = d.transitioned(area);
        let f = e.collided();
        let g = f.dispatched();
        let nowhere = Vec2::zero();
        lemma_rows_stay_consistent(a.enemies, dt_nanos as int, 0, nowhere, area, Seq::empty());
        match picks.dive {
            Some(slot) => {
                lemma_rows_stay_consistent(
                    b.enemies,
                    dt_nanos as int,
                    slot as int,
                    b.player->0.position,
                    area,
                    Seq::empty(),
                );
            },
            None => {},
        }
        assert(all_consistent(c.enemies));
        lemma_rows_stay_consistent(d.enemies, dt_nanos as int, 0, nowhere, area, Seq::empty());
        lemma_rows_stay_consistent(
            all_returned(d.enemies, area),
            dt_nanos as int,
            0,
            nowhere,
            area,
            Seq::empty(),
        );
        assert(all_consistent(e.enemies));
        let removed = after_removal(f.enemies, f.events.enemy_events);
        lemma_rows_stay_consistent(
            f.enemies,
            dt_nanos as int,
            0,
            nowhere,
            area,
            f.events.enemy_events,
        );
        match rammed_by(f.player, f.enemies) {
            Some(slot) => {
                lemma_rows_stay_consistent(
                    removed,
                    dt_nanos as int,
                    slot,
                    nowhere,
                    area,
                    Seq::empty(),
                );
            },
            None => {},
        }
        assert(all_consistent(g.enemies));
        f.game_mode.lemma_after_deaths(live_count(f.enemies), f.events.enemy_events.len());
        b.kamikaze_timer.lemma_ticked_counting(dt_nanos);
        b.shooting_timer.lemma_ticked_counting(dt_nanos);
        match c.cooldown {
            Some(s) => {
                s.lemma_ticked_counting(dt_nanos);
            },
            None => {},
        }
    }

    /// Starting and ending a round keep a world well formed, and the empty
    /// world is well formed.
    pub proof fn lemma_round_wf(self, area: PlayArea)
        requires
            self.wf(),
        ensures
            self.started(area).wf(),
            self.ended().wf(),
            WorldView::empty().wf(),
    {
        lemma_formation(area);
    }

    /// However many enemies wait, a tick starts at most one dive: an enemy
    /// that waited before the tick and dives after it is the one the dive
    /// scheduler picked. The scheduler picks only in a tick in which its
    /// timer completes an interval, and so never while the time counted
    /// since the last completion is short of 5 seconds; and its timer
    /// completes an interval in every tick that takes the time counted to 5
    /// seconds or more.
    pub proof fn lemma_one_dive_per_tick(
        self,
        input: Input,
        dt_nanos: nat,
        area: PlayArea,
        picks: Picks,
    )
        requires
            self.wf(),
            self.before_picks(input, dt_nanos, area).may_pick(dt_nanos, picks),
        ensures
            forall|i: int|
                began_dive(self.enemies, self.step(input, dt_nanos, area, picks).enemies, i)
                    ==> picks.dive is Some && picks.dive->0 == i,
            picks.dive is Some ==> self.kamikaze_timer.ticked(dt_nanos).just_finished(),
            self.kamikaze_timer.elapsed + dt_nanos < KAMIKAZE_TIMER ==> picks.dive is None,
            dt_nanos <= u64::MAX ==> self.kamikaze_timer.ticked(dt_nanos).just_finished()
                == (self.kamikaze_timer.elapsed + dt_nanos >= KAMIKAZE_TIMER),
    {
        self.kamikaze_timer.lemma_completion_edge(dt_nanos);
        let b = self.before_picks(input, dt_nanos, area);
        let f = b.scheduled(input, dt_nanos, picks).cooled_down(dt_nanos).transitioned(
            area,
        ).collided();
        let target = match b.player {
            Some(p) => p.position,
            None => Vec2::zero(),
        };
        assert forall|i: int|
            began_dive(
                self.enemies,
                self.step(input, dt_nanos, area, picks).enemies,
                i,
            ) implies picks.dive is Some && picks.dive->0 == i by {
            if !(picks.dive is Some && picks.dive->0 == i) {
                lemma_waits_through_tick(
                    self.enemies,
                    i,
                    dt_nanos as int,
                    area,
                    slot_of(picks.dive),
                    target,
                    f.events.enemy_events,
                    rammed_by(f.player, f.enemies),
                );
            }
        }
    }

    /// Whether every bullet in flight was fired by `side`.
    pub open spec fn all_fired_by(self, side: Instigator) -> bool {
        forall|i: int|
            0 <= i < self.bullets.len() && (#[trigger] self.bullets[i]) is Some
                ==> self.bullets[i]->0.instigator == side
    }

    /// No bullet harms its own side, and no bullet harms a bullet. In the
    /// collision stage a bullet is spent only against the other side: one
    /// fired by the player only if it touches an enemy, one fired by an
    /// enemy only if it touches the ship. With only the enemies' bullets in
    /// flight no enemy dies; with only the player's bullets in flight no
    /// bullet strikes the ship.
    pub proof fn lemma_no_friendly_fire(self)
        ensures
            self.collided().bullets.len() == self.bullets.len(),
            forall|i: int|
                0 <= i < self.bullets.len() && (#[trigger] self.bullets[i]) is Some
                    && self.collided().bullets[i] is None ==> match self.bullets[i]->0.instigator {
                    Instigator::Player => first_hit(self.enemies, self.bullets[i]->0)
                        < self.enemies.len(),
                    Instigator::Enemy => self.player is Some && self.player->0.touched_by_box(
                        self.bullets[i]->0.hitbox(),
                    ),
                },
            self.all_fired_by(Instigator::Enemy) ==> self.collided().events.enemy_events
                == self.events.enemy_events,
            self.all_fired_by(Instigator::Player) ==> struck_by(
                self.player,
                after_strikes(self.bullets, self.enemies),
            ) is None,
    {
        let after_enemies = after_strikes(self.bullets, self.enemies);
        match self.player {
            Some(p) => {
                lemma_first_struck(after_enemies, p, 0);
                if self.all_fired_by(Instigator::Player) {
                    lemma_player_bullets_strike_no_player(after_enemies, p, 0);
                }
            },
            None => {},
        }
        if self.all_fired_by(Instigator::Enemy) {
            lemma_enemy_bullets_kill_no_enemy(self.bullets, self.enemies);
            assert(self.collided().events.enemy_events =~= self.events.enemy_events);
        }
    }

    /// A round that is started and ended at once leaves nothing behind: no
    /// bullet, no enemy, no ship, no notice, and score and wave at zero.
    pub proof fn lemma_round_trip(self, area: PlayArea)
        ensures
            self.started(area).ended().bullets == Seq::<Option<Bullet>>::empty(),
            self.started(area).ended().enemies == Seq::<Option<Enemy>>::empty(),
            live_count(self.started(area).ended().bullets) == 0,
            live_count(self.started(area).ended().enemies) == 0,
            self.started(area).ended().player is None,
            self.started(area).ended().cooldown is None,
            self.started(area).ended().events == Notices::none(),
            self.started(area).ended().game_mode == self.game_mode.restarted(),
            self.started(area).ended().game_mode.score == 0,
            self.started(area).ended().game_mode.wave == 0,
    {
    }

    /// Notices do not pile up. Of the notices that a tick finds, only the
    /// shots matter, which it turns into bullets; the others are dropped
    /// unread, and the notices after the tick are those posted during it.
    pub proof fn lemma_no_backlog(
        self,
        input: Input,
        dt_nanos: nat,
        area: PlayArea,
        picks: Picks,
    )
        ensures
            self.step(input, dt_nanos, area, picks) == self.with_shots_only().step(
                input,
                dt_nanos,
                area,
                picks,
            ),
            self.begun().events == Notices::none(),
    {
    }

    /// The score never falls during a round, the highest score never falls
    /// at all, and the highest score is never below the score. Only the
    /// death of an enemy moves a counter.
    pub proof fn lemma_score_never_falls(
        self,
        input: Input,
        dt_nanos: nat,
        area: PlayArea,
        picks: Picks,
    )
        requires
            self.game_mode.wf(),
        ensures
            self.step(input, dt_nanos, area, picks).game_mode.score >= self.game_mode.score,
            self.step(input, dt_nanos, area, picks).game_mode.highest_score
                >= self.game_mode.highest_score,
            self.step(input, dt_nanos, area, picks).game_mode.wf(),
            self.step(input, dt_nanos, area, picks).events.enemy_events.len() == 0 ==> self.step(
                input,
                dt_nanos,
                area,
                picks,
            ).game_mode == self.game_mode,
            self.started(area).game_mode.highest_score == self.game_mode.highest_score,
            self.started(area).game_mode.wf(),
            self.ended().game_mode == self.game_mode,
    {
        let f = self.before_picks(input, dt_nanos, area).scheduled(
            input,
            dt_nanos,
            picks,
        ).cooled_down(dt_nanos).transitioned(area).collided();
        f.game_mode.lemma_after_deaths(live_count(f.enemies), f.events.enemy_events.len());
    }
}

impl View for World {
    type V = WorldView;

    closed spec fn view(&self) -> WorldView {
        WorldView {
            enemies: self.enemies@,
            bullets: self.bullets@,
            player: self.player,
            cooldown: cooldown_state(self.cooldown),
            kamikaze_timer: self.kamikaze_timer@,
            shooting_timer: self.shooting_timer@,
            game_mode: self.game_mode,
            events: self.events@,
        }
    }
}

impl World {
    /// What holds of every world; see [`WorldView::wf`].
    pub open spec fn wf(&self) -> bool {
        self@.wf()
    }

    /// A world before its first round.
    pub fn new() -> (world: World)
        ensures
            world@ == WorldView::empty(),
            world.wf(),
    {
        World {
            enemies: Vec::new(),
            bullets: Vec::new(),
            player: None,
            cooldown: None,
            kamikaze_timer: kamikaze_timer(),
            shooting_timer: shooting_timer(),
            game_mode: GameModeData::new(),
            events: EventBus::new(),
        }
    }

    /// Starts a round: spawns the wave and the ship, clears what an earlier
    /// round may have left, resets both schedulers, and puts score and wave
    /// back to zero.
    pub fn start_round(&mut self, area: PlayArea)
        requires
            old(self).wf(),
        ensures
            final(self)@ == old(self)@.started(area),
            final(self).wf(),
    {
        self.enemies = spawn_enemies(area);
        destroy_all_bullets(&mut self.bullets);
        self.player = Some(spawn_player(area));
        self.cooldown = None;
        self.kamikaze_timer.reset();
        self.shooting_timer.reset();
        self.game_mode.reset();
        self.events.clear();
    }

    /// Ends a round: every bullet, every enemy and the ship are taken out,
    /// wherever they are, so that nothing leaks into the next round.
    pub fn end_round(&mut self)
        requires
            old(self).wf(),
        ensures
            final(self)@ == old(self)@.ended(),
            final(self).wf(),
    {
        destroy_all_bullets(&mut self.bullets);
        self.enemies.clear();
        despawn_player(&mut self.player, &mut self.cooldown);
        self.events.clear();
    }

    /// Requests a bullet at `origin`, flying along `direction`, fired by
    /// `originator`. The bullet appears when the next tick begins.
    pub fn fire(&mut self, origin: Vec2, direction: Vec2, originator: Instigator)
        requires
            old(self).wf(),
        ensures
            final(self)@ == old(self)@.with_shot(
                BulletShotEvent { instigator: originator, position: origin, direction },
            ),
            final(self).wf(),
    {
        fire(&mut self.events.bullet_shots, origin, direction, originator);
    }

    /// The enemies, each in its slot.
    pub fn enemies(&self) -> (enemies: &Vec<Option<Enemy>>)
        ensures
            enemies@ == self@.enemies,
    {
        &self.enemies
    }

    /// The bullets, each in its slot.
    pub fn bullets(&self) -> (bullets: &Vec<Option<Bullet>>)
        ensures
            bullets@ == self@.bullets,
    {
        &self.bullets
    }

    /// The ship, if there is one.
    pub fn player(&self) -> (player: Option<Player>)
        ensures
            player == self@.player,
    {
        self.player
    }

    /// Whether the ship's cooldown is running.
    pub fn is_cooling_down(&self) -> (running: bool)
        ensures
            running == (self@.cooldown is Some),
    {
        self.cooldown.is_some()
    }

    /// The counters.
    pub fn game_mode(&self) -> (data: GameModeData)
        ensures
            data == self@.game_mode,
    {
        self.game_mode
    }

    /// The notices of the last tick.
    pub fn events(&self) -> (events: &EventBus)
        ensures
            events@ == self@.events,
    {
        &self.events
    }

    /// How many enemies are left.
    pub fn live_enemies(&self) -> (n: usize)
        ensures
            n == live_count(self@.enemies),
    {
        count_live(&self.enemies)
    }

    fn begin(&mut self)
        ensures
            final(self)@ == old(self)@.begun(),
    {
        spawn_bullet(&mut self.bullets, &self.events.bullet_shots);
        self.events.clear();
    }

    fn movement(&mut self, input: Input, dt_nanos: u64, area: PlayArea)
        ensures
            final(self)@ == old(self)@.moved(input, dt_nanos as nat, area),
    {
        player_movement(&mut self.player, input.left, input.right, dt_nanos, area);
        enemy_movement(&mut self.enemies, dt_nanos);
        bullet_movement(&mut self.bullets, dt_nanos);
    }

    fn schedule(&mut self, input: Input, dt_nanos: u64) -> (picks: Picks)
        ensures
            old(self)@.may_pick(dt_nanos as nat, picks),
            final(self)@ == old(self)@.scheduled(input, dt_nanos as nat, picks),
    {
        let dive = update_kamikaze_timer(
            &mut self.enemies,
            &self.player,
            &mut self.kamikaze_timer,
            dt_nanos,
        );
        let shooter = update_shooting_timer(
            &self.enemies,
            &mut self.events.bullet_shots,
            &mut self.shooting_timer,
            dt_nanos,
        );
        player_shoot(&self.player, &mut self.cooldown, input.fire, &mut self.events.bullet_shots);
        let picks = Picks { dive, shooter };
        proof {
            let before = old(self)@;
            let after = before.scheduled(input, dt_nanos as nat, picks);
            assert(self@.events.bullet_shots =~= after.events.bullet_shots);
            assert forall|i: int| is_live(before.enemies, i) == is_live(self@.enemies, i) by {}
        }
        picks
    }

    fn cool_down(&mut self, dt_nanos: u64)
        ensures
            final(self)@ == old(self)@.cooled_down(dt_nanos as nat),
    {
        update_cooldown(&mut self.cooldown, dt_nanos);
    }

    fn transition(&mut self, area: PlayArea)
        ensures
            final(self)@ == old(self)@.transitioned(area),
    {
        return_to_base(&mut self.enemies, area);
        back_to_idle(&mut self.enemies);
        destroy_bullets(&mut self.bullets, area);
    }

    fn collide(&mut self) -> (rammer: Option<usize>)
        ensures
            final(self)@ == old(self)@.collided(),
            slot_of(rammer) == rammed_by(old(self)@.player, old(self)@.enemies),
    {
        crate::enemy::check_collision_with_bullet(
            &mut self.bullets,
            &self.enemies,
            &mut self.events.enemy_events,
        );
        let rammer = crate::player::check_collision_with_enemy(
            &self.player,
            &self.enemies,
            &mut self.events.player_events,
        );
        crate::player::check_collision_with_bullet(
            &self.player,
            &mut self.bullets,
            &mut self.events.player_events,
        );
        proof {
            let after = old(self)@.collided();
            assert(self@.events.player_events =~= after.events.player_events);
        }
        rammer
    }

    fn dispatch(&mut self, rammer: Option<usize>)
        requires
            slot_of(rammer) == rammed_by(old(self)@.player, old(self)@.enemies),
        ensures
            final(self)@ == old(self)@.dispatched(),
    {
        let live: usize = count_live(&self.enemies);
        crate::game_mode::listen_enemy_event(
            &self.events.enemy_events,
            live,
            &mut self.game_mode,
            &mut self.events.game_mode_events,
        );
        crate::enemy::listen_enemy_event(&mut self.enemies, &self.events.enemy_events);
        match rammer {
            Some(slot) => {
                remove_enemy(&mut self.enemies, slot);
            },
            None => {},
        }
        listen_player_event(&mut self.player, &mut self.cooldown, &self.events.player_events);
    }

    /// Advances the world by one tick of `dt_nanos` nanoseconds, with the
    /// keys held as `input` says and the play area as large as `area` says.
    /// The notices posted during the tick can be read from [`World::events`]
    /// until the next tick. Returns whom the schedulers picked.
    pub fn tick(&mut self, dt_nanos: u64, input: Input, area: PlayArea) -> (picks: Picks)
        requires
            old(self).wf(),
        ensures
            old(self)@.before_picks(input, dt_nanos as nat, area).may_pick(dt_nanos as nat, picks),
            final(self)@ == old(self)@.step(input, dt_nanos as nat, area, picks),
            final(self).wf(),
            forall|i: int|
                began_dive(old(self)@.enemies, final(self)@.enemies, i) ==> picks.dive is Some
                    && picks.dive->0 == i,
            final(self)@.game_mode.score >= old(self)@.game_mode.score,
            final(self)@.game_mode.highest_score >= old(self)@.game_mode.highest_score,
    {
        self.begin();
        self.movement(input, dt_nanos, area);
        let picks = self.schedule(input, dt_nanos);
        self.cool_down(dt_nanos);
        self.transition(area);
        let rammer = self.collide();
        self.dispatch(rammer);
        proof {
            old(self)@.lemma_step_wf(input, dt_nanos as nat, area, picks);
            old(self)@.lemma_one_dive_per_tick(input, dt_nanos as nat, area, picks);
            old(self)@.lemma_score_never_falls(input, dt_nanos as nat, area, picks);
        }
        picks
    }
}

} // verus!
