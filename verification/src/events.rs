//! The event bus: one buffer for each kind of notice.
//!
//! Passes post notices by appending to a buffer, and react to notices by
//! reading one. A buffer lives for one tick: whatever a tick posts can be
//! read until the next tick begins, and is gone after that.

use crate::bullet::BulletShotEvent;
use crate::enemy::EnemyEvent;
use crate::game_mode::GameModeEvent;
use crate::player::PlayerEvent;
use vstd::prelude::*;

verus! {

/// The notices of one tick.
pub struct EventBus {
    pub bullet_shots: Vec<BulletShotEvent>,
    pub enemy_events: Vec<EnemyEvent>,
    pub player_events: Vec<PlayerEvent>,
    pub game_mode_events: Vec<GameModeEvent>,
}

/// What the bus holds, as sequences.
pub struct Notices {
    pub bullet_shots: Seq<BulletShotEvent>,
    pub enemy_events: Seq<EnemyEvent>,
    pub player_events: Seq<PlayerEvent>,
    pub game_mode_events: Seq<GameModeEvent>,
}

impl Notices {
    /// No notices at all.
    pub open spec fn none() -> Notices {
        Notices {
            bullet_shots: Seq::empty(),
            enemy_events: Seq::empty(),
            player_events: Seq::empty(),
            game_mode_events: Seq::empty(),
        }
    }
}

impl View for EventBus {
    type V = Notices;

    open spec fn view(&self) -> Notices {
        Notices {
            bullet_shots: self.bullet_shots@,
            enemy_events: self.enemy_events@,
            player_events: self.player_events@,
            game_mode_events: self.game_mode_events@,
        }
    }
}

impl EventBus {
    /// An empty bus.
    pub fn new() -> (bus: EventBus)
        ensures
            bus@ == Notices::none(),
    {
        EventBus {
            bullet_shots: Vec::new(),
            enemy_events: Vec::new(),
            player_events: Vec::new(),
            game_mode_events: Vec::new(),
        }
    }

    /// Drops every notice.
    pub fn clear(&mut self)
        ensures
            final(self)@ == Notices::none(),
    {
        self.bullet_shots.clear();
        self.enemy_events.clear();
        self.player_events.clear();
        self.game_mode_events.clear();
    }
}

} // verus!
