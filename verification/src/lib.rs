//! The simulation core of a small arcade shooter: a player ship, a wave of
//! enemies and the bullets they exchange, advanced one tick at a time.
//!
//! The core draws nothing and reads no keys. Once per frame its owner hands
//! [`world::World::tick`] the time that has passed, the keys that are held
//! and the size of the play area, and afterwards reads where everything is
//! and what happened from the world.
//!
//! Units. Lengths and coordinates are whole thousandths of a world unit
//! ([`vector::UNIT`]), speeds are whole units per second, and times are whole
//! nanoseconds. The origin is the lower left corner of the play area.
//!
//! Modules, leaves first: [`vector`] and [`collider`] hold the geometry,
//! [`timer`] the cooldowns, [`slots`] the storage of entities, [`area`] the
//! play area; [`bullet`], [`enemy`] and [`player`] hold the three kinds of
//! entity and the passes over them; [`game_mode`] keeps score; [`events`]
//! carries notices between passes; and [`world`] puts a round together.

pub mod area;
pub mod bullet;
pub mod collider;
pub mod enemy;
pub mod events;
pub mod game_mode;
pub mod player;
mod random;
pub mod slots;
pub mod timer;
pub mod vector;
pub mod world;
