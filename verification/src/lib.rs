//! Per-frame simulation core of a 2D real-time action game.
//!
//! The library turns static level data and player/AI intent into
//! authoritative entity state (position, velocity, animation frame, life)
//! once per tick.  Continuous quantities (world coordinates, velocities,
//! times, probabilities, angles) are held as fixed-point integers: one
//! world unit, one second and one probability unit are `SCALE` fixed-point
//! steps.  The rigid-body physics engine, the renderer, audio output and
//! on-disk asset parsing are external collaborators: they are reached only
//! through plain-value interfaces (body positions, ray-intersection lists,
//! draw records, sound commands).

use vstd::prelude::*;

pub mod anim;
pub mod behavior;
pub mod clamp;
pub mod component;
pub mod damping;
pub mod entity;
pub mod game;
pub mod life;
pub mod rng;
pub mod math;
pub mod sched;
pub mod physics;
pub mod resource;
pub mod spawner;
pub mod store;
pub mod tempo;
pub mod world;

pub use anim::AnimationImage;
pub use anim::AnimationImages;
pub use anim::AnimationState;
pub use anim::AnimationSystem;
pub use behavior::closest_in_sight;
pub use behavior::memory_step;
pub use behavior::nearest_position;
pub use behavior::players_positions;
pub use behavior::AudioSystem;
pub use behavior::BoidSystem;
pub use behavior::VelocityToPlayerRandomSystem;
pub use behavior::VelocityControlSystem;
pub use behavior::VelocityToPlayerCircleSystem;
pub use behavior::VelocityToPlayerMemorySystem;
pub use game::Game;
pub use sched::conflicts;
pub use sched::stage_ok;
pub use sched::SystemDecl;
pub use damping::lemma_damping_commutes;
pub use damping::VelocityDampingsSystem;
pub use life::ContactDamageSystem;
pub use life::DeadOnContactSystem;
pub use life::LifeSystem;
pub use spawner::Targets;
pub use spawner::TargetInfo;
pub use spawner::ChamanSpawnerSystem;
pub use spawner::TurretSpawnerSystem;
pub use spawner::UniqueSpawnerSystem;
pub use behavior::Sight;
pub use entity::Charger;
pub use entity::GravityBomb;
pub use entity::InsertPosition;
pub use entity::InsertableObject;
pub use spawner::ChamanSpawner;
pub use spawner::TurretPart;
pub use spawner::TurretSpawner;
pub use spawner::UniqueSpawner;
pub use world::Command;
pub use world::World;
pub use world::ENTITY_LIMIT;

pub use anim::AnimationName;
pub use anim::AnimationPart;
pub use anim::AnimationPartConf;
pub use anim::AnimationSpecie;
pub use anim::Animations;
pub use anim::AnimationsConf;
pub use anim::CompleteAnimation;
pub use anim::Framerate;
pub use anim::LoadError;
pub use clamp::ClampFunction;
pub use component::Aim;
pub use component::Boid;
pub use component::ContactDamage;
pub use component::Contactor;
pub use component::ControlForce;
pub use component::Damping;
pub use component::DeadOnContact;
pub use component::DebugCircles;
pub use component::DebugColor;
pub use component::DebugRays;
pub use component::GravityToPlayers;
pub use component::Ground;
pub use component::Life;
pub use component::Player;
pub use component::PlayersAimDamping;
pub use component::PlayersDistanceDamping;
pub use component::PositionInPath;
pub use component::SwordRifle;
pub use component::VelocityAimDamping;
pub use component::VelocityControl;
pub use component::VelocityDistanceDamping;
pub use component::VelocityToPlayerCircle;
pub use component::VelocityToPlayerMemory;
pub use component::VelocityToPlayerRandom;
pub use component::VELOCITY_TO_PLAYER_DISTANCE_TO_GOAL;
pub use math::Isometry2;
pub use math::Vec2;
pub use math::COORD_LIMIT;
pub use math::PI_FX;
pub use math::SCALE;
pub use math::TWO_PI_FX;
pub use resource::Conf;
pub use resource::UpdateTime;
pub use resource::WindowSize;
pub use physics::closest_hit;
pub use physics::toi_key;
pub use physics::BodiesMap;
pub use physics::Body;
pub use physics::BodyStatus;
pub use physics::Group;
pub use physics::PhysicWorld;
pub use physics::RayHit;
pub use physics::RigidBody;
pub use physics::StepForces;
pub use physics::StepForcesData;
pub use store::Entity;
pub use store::Storage;
pub use tempo::Activator;
pub use tempo::ActivatorSystem;
pub use tempo::Activators;
pub use tempo::lemma_beat_determined_by_clock;
pub use tempo::Tempo;
pub use tempo::Tempos;
pub use tempo::TIME_LIMIT;

verus! {

/// Scale factor that turns a fixed-point time-of-impact into the integer
/// key used to compare ray hits.
pub const CMP_PRECISION: i64 = 100;

} // verus!
