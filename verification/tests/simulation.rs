//! Clocks, behaviors, spawners, life resolution and the deferred-apply
//! point, exercised end to end on concrete worlds.

use fefe_core::entity::Player as PlayerPrototype;
use fefe_core::math::angular_distance;
use fefe_core::rng::draw_below;
use fefe_core::Activator;
use fefe_core::ActivatorSystem;
use fefe_core::Activators;
use fefe_core::AnimationName;
use fefe_core::AnimationPartConf;
use fefe_core::AnimationSpecie;
use fefe_core::Animations;
use fefe_core::AnimationsConf;
use fefe_core::BodiesMap;
use fefe_core::BodyStatus;
use fefe_core::Charger;
use fefe_core::Command;
use fefe_core::Conf;
use fefe_core::ContactDamage;
use fefe_core::ContactDamageSystem;
use fefe_core::DeadOnContact;
use fefe_core::DeadOnContactSystem;
use fefe_core::Framerate;
use fefe_core::Game;
use fefe_core::InsertPosition;
use fefe_core::InsertableObject;
use fefe_core::Isometry2;
use fefe_core::Life;
use fefe_core::LifeSystem;
use fefe_core::PhysicWorld;
use fefe_core::RayHit;
use fefe_core::RigidBody;
use fefe_core::Storage;
use fefe_core::SystemDecl;
use fefe_core::TargetInfo;
use fefe_core::Targets;
use fefe_core::Tempo;
use fefe_core::Tempos;
use fefe_core::UniqueSpawner;
use fefe_core::UniqueSpawnerSystem;
use fefe_core::Vec2;
use fefe_core::VelocityToPlayerMemory;
use fefe_core::World;
use fefe_core::closest_hit;
use fefe_core::memory_step;
use fefe_core::stage_ok;
use fefe_core::toi_key;
use fefe_core::SCALE;

fn minimal_animations() -> Animations {
    let conf = AnimationsConf {
        parts: vec![(
            String::from("body"),
            AnimationPartConf {
                filename: String::from("body"),
                layer: 0,
                framerate: Framerate::Fix(100),
            },
        )],
        table: vec![
            ((AnimationSpecie::Character, AnimationName::Idle), vec![String::from("body")]),
            ((AnimationSpecie::Bomb, AnimationName::Idle), vec![String::from("body")]),
        ],
    };
    let images = vec![vec![String::from("body0000")]];
    Animations::build(&conf, &images).unwrap()
}

fn minimal_conf() -> Conf {
    Conf {
        fps: 60,
        physic_max_timestep: 20,
        physic_min_timestep: 10,
        zoom: SCALE,
        insertables: vec![(
            String::from("charger"),
            InsertableObject::Charger(Charger {
                animation_specie: AnimationSpecie::Character,
                radius: 500,
                velocity: 800,
                damage: 1,
            }),
        )],
        player_radius: 500,
        player_linear_damping: 0,
        player_angular_damping: 0,
        exact_aim_angle: true,
    }
}

fn at(x: i64, y: i64) -> Isometry2 {
    Isometry2 { translation: Vec2 { x, y }, rotation: 0 }
}

#[test]
fn tempo_activator_follows_the_partition() {
    let mut tempos = Tempos(vec![Tempo::new(200)]);
    let mut activators: Storage<Activators> = Storage::new();
    activators.insert(
        0,
        Activators(vec![Activator {
            tempo: 0,
            partition: vec![true, false, true],
            activated: false,
            sound: 0,
        }]),
    );
    let mut flags: Vec<bool> = Vec::new();
    let mut beats: Vec<usize> = Vec::new();
    for now in [0i64, 200, 400, 600, 800, 1000] {
        ActivatorSystem::run(&mut tempos, &mut activators, now);
        beats.push(tempos.0[0].beat);
        flags.push(activators.get(0).unwrap().0[0].activated);
    }
    // one beat per period, never skipped
    assert_eq!(beats, vec![1, 2, 3, 4, 5, 6]);
    // the flag always equals partition[beat % 3]
    for (i, beat) in beats.iter().enumerate() {
        let expected = [true, false, true][beat % 3];
        assert_eq!(flags[i], expected);
    }
}

#[test]
fn tempo_catch_up_never_desynchronizes() {
    // stepping frame by frame and jumping across a hitch land on the
    // same beat and the same flag
    let mut stepped = Tempos(vec![Tempo::new(200)]);
    let mut jumped = Tempos(vec![Tempo::new(200)]);
    let mut acts_stepped: Storage<Activators> = Storage::new();
    let mut acts_jumped: Storage<Activators> = Storage::new();
    let make = || {
        Activators(vec![Activator {
            tempo: 0,
            partition: vec![true, false, true],
            activated: false,
            sound: 0,
        }])
    };
    acts_stepped.insert(0, make());
    acts_jumped.insert(0, make());
    for now in [0i64, 150, 350, 410, 590, 800] {
        ActivatorSystem::run(&mut stepped, &mut acts_stepped, now);
    }
    ActivatorSystem::run(&mut jumped, &mut acts_jumped, 800);
    assert_eq!(stepped.0[0].beat, jumped.0[0].beat);
    assert_eq!(
        acts_stepped.get(0).unwrap().0[0].activated,
        acts_jumped.get(0).unwrap().0[0].activated,
    );
}

#[test]
fn memory_chase_persists_until_goal() {
    let target = Vec2 { x: 5000, y: 0 };
    let mut m = VelocityToPlayerMemory {
        activator: 0,
        last_closest_in_sight: Some(target),
        velocity: 1000,
        memory: true,
    };
    // target lost from sight: the memory persists, the chase goes on
    let vel = memory_step(&mut m, true, None, Vec2 { x: 0, y: 0 });
    assert_eq!(m.last_closest_in_sight, Some(target));
    assert_eq!(vel, Vec2 { x: 1000, y: 0 });
    // still lost, closer now: memory unchanged across frames
    let vel = memory_step(&mut m, true, None, Vec2 { x: 4000, y: 0 });
    assert_eq!(m.last_closest_in_sight, Some(target));
    assert_eq!(vel, Vec2 { x: 1000, y: 0 });
    // within the goal distance: velocity exactly zero, memory cleared
    let vel = memory_step(&mut m, true, None, Vec2 { x: 4950, y: 0 });
    assert_eq!(vel, Vec2 { x: 0, y: 0 });
    assert_eq!(m.last_closest_in_sight, None);
}

#[test]
fn memory_chase_without_memory_forgets() {
    let target = Vec2 { x: 5000, y: 0 };
    let mut m = VelocityToPlayerMemory {
        activator: 0,
        last_closest_in_sight: Some(target),
        velocity: 1000,
        memory: false,
    };
    let vel = memory_step(&mut m, true, None, Vec2 { x: 0, y: 0 });
    assert_eq!(m.last_closest_in_sight, None);
    assert_eq!(vel, Vec2 { x: 0, y: 0 });
}

#[test]
fn ray_tie_break_takes_first_of_equal_keys() {
    // 1.000 and 1.004 world units, precision scale 100: equal keys
    assert_eq!(toi_key(1000), 100);
    assert_eq!(toi_key(1004), 100);
    let hits = vec![RayHit { body: 7, toi: 1004 }, RayHit { body: 8, toi: 1000 }];
    assert_eq!(closest_hit(&hits), Some(0));
    // a strictly smaller key always wins, wherever it sits
    let hits = vec![RayHit { body: 7, toi: 1100 }, RayHit { body: 8, toi: 1000 }];
    assert_eq!(closest_hit(&hits), Some(1));
    let none: Vec<RayHit> = vec![];
    assert_eq!(closest_hit(&none), None);
}

#[test]
fn unique_spawner_replaces_itself_with_one_spawn() {
    let animations = minimal_animations();
    let conf = minimal_conf();
    let mut world = World::new();
    let mut phys = PhysicWorld::new();
    let ground = world.create_entity();
    let mut bodies_map = BodiesMap::new(ground);

    // one player in unobstructed line of sight
    let player = PlayerPrototype.insert(
        InsertPosition { position: at(3000, 0), path: None, facing: None },
        &mut world,
        &mut phys,
        &mut bodies_map,
        &animations,
        0,
        0,
    );
    let player_handle = world.rigid_body.get(player.index).unwrap().0;

    // the spawner, its activator forced on, no probability curves
    let spawner = world.create_entity();
    world.unique_spawner.insert(
        spawner.index,
        UniqueSpawner {
            activator: 0,
            spawn: String::from("charger"),
            dist_proba_clamp: None,
            aim_proba_clamp: None,
        },
    );
    world.activators.insert(
        spawner.index,
        Activators(vec![Activator {
            tempo: 0,
            partition: vec![true],
            activated: true,
            sound: 0,
        }]),
    );
    RigidBody::safe_insert(
        spawner,
        at(0, 0),
        BodyStatus::Static,
        &mut world.rigid_body,
        &mut phys,
        &mut bodies_map,
    );
    let mut targets: Storage<Targets> = Storage::new();
    targets.insert(
        spawner.index,
        Targets(vec![TargetInfo {
            position: Vec2 { x: 3000, y: 0 },
            aim: 0,
            angle_from_player: 0,
            hits: vec![RayHit { body: player_handle, toi: 2500 }],
        }]),
    );

    let mut commands: Vec<Command> = Vec::new();
    UniqueSpawnerSystem::run(&world, &targets, &bodies_map, &phys, &conf, &mut commands);
    assert_eq!(commands.len(), 2);

    let spawned = world.maintain(&mut commands, &mut phys, &mut bodies_map, &animations, 0, 0);
    // the spawner died atomically with the spawn of exactly one charger
    assert!(!world.is_alive(spawner));
    assert_eq!(spawned.len(), 1);
    assert!(world.is_alive(spawned[0]));
    assert!(world.is_alive(player));
    assert_eq!(world.life.get(spawned[0].index), Some(&Life(1)));
    assert!(world.dead_on_contact.get(spawned[0].index).is_some());
}

#[test]
fn unique_spawner_needs_line_of_sight() {
    let animations = minimal_animations();
    let conf = minimal_conf();
    let mut world = World::new();
    let mut phys = PhysicWorld::new();
    let ground = world.create_entity();
    let mut bodies_map = BodiesMap::new(ground);
    // a wall body, owned by a non-player entity
    let wall = world.create_entity();
    let wall_rb = RigidBody::safe_insert(
        wall,
        at(1500, 0),
        BodyStatus::Static,
        &mut world.rigid_body,
        &mut phys,
        &mut bodies_map,
    );
    let player = PlayerPrototype.insert(
        InsertPosition { position: at(3000, 0), path: None, facing: None },
        &mut world,
        &mut phys,
        &mut bodies_map,
        &animations,
        0,
        0,
    );
    let player_handle = world.rigid_body.get(player.index).unwrap().0;
    let spawner = world.create_entity();
    world.unique_spawner.insert(
        spawner.index,
        UniqueSpawner {
            activator: 0,
            spawn: String::from("charger"),
            dist_proba_clamp: None,
            aim_proba_clamp: None,
        },
    );
    world.activators.insert(
        spawner.index,
        Activators(vec![Activator {
            tempo: 0,
            partition: vec![true],
            activated: true,
            sound: 0,
        }]),
    );
    RigidBody::safe_insert(
        spawner,
        at(0, 0),
        BodyStatus::Static,
        &mut world.rigid_body,
        &mut phys,
        &mut bodies_map,
    );
    // the wall sits in front of the player along the sight ray
    let mut targets: Storage<Targets> = Storage::new();
    targets.insert(
        spawner.index,
        Targets(vec![TargetInfo {
            position: Vec2 { x: 3000, y: 0 },
            aim: 0,
            angle_from_player: 0,
            hits: vec![
                RayHit { body: player_handle, toi: 2500 },
                RayHit { body: wall_rb.0, toi: 1200 },
            ],
        }]),
    );
    let mut commands: Vec<Command> = Vec::new();
    UniqueSpawnerSystem::run(&world, &targets, &bodies_map, &phys, &conf, &mut commands);
    assert_eq!(commands.len(), 0);
    assert!(world.is_alive(spawner));
}

#[test]
fn contact_damage_kills_a_one_life_entity() {
    let animations = minimal_animations();
    let mut world = World::new();
    let mut phys = PhysicWorld::new();
    let ground = world.create_entity();
    let mut bodies_map = BodiesMap::new(ground);

    let attacker = world.create_entity();
    world.contact_damage.insert(attacker.index, ContactDamage(1));
    let victim = world.create_entity();
    world.life.insert(victim.index, Life(1));

    let contacts = vec![(attacker, victim)];
    ContactDamageSystem::run(
        &contacts,
        &world.gens,
        &world.alive,
        &world.contact_damage,
        &mut world.life,
    );
    assert_eq!(world.life.get(victim.index), Some(&Life(0)));

    let mut commands: Vec<Command> = Vec::new();
    LifeSystem::run(&world.gens, &world.alive, &world.life, &mut commands);
    assert_eq!(commands.len(), 1);

    let spawned = world.maintain(&mut commands, &mut phys, &mut bodies_map, &animations, 0, 0);
    assert_eq!(spawned.len(), 0);
    // queued for destruction and absent from the store afterwards
    assert!(!world.is_alive(victim));
    assert!(world.life.get(victim.index).is_none());
    assert!(world.is_alive(attacker));
}

#[test]
fn dead_on_contact_dies_of_any_contact() {
    let animations = minimal_animations();
    let mut world = World::new();
    let mut phys = PhysicWorld::new();
    let ground = world.create_entity();
    let mut bodies_map = BodiesMap::new(ground);
    let wall = world.create_entity();
    let fragile = world.create_entity();
    world.dead_on_contact.insert(fragile.index, DeadOnContact);
    let contacts = vec![(wall, fragile)];
    let mut commands: Vec<Command> = Vec::new();
    DeadOnContactSystem::run(
        &contacts,
        &world.gens,
        &world.alive,
        &world.dead_on_contact,
        &mut commands,
    );
    world.maintain(&mut commands, &mut phys, &mut bodies_map, &animations, 0, 0);
    assert!(!world.is_alive(fragile));
    assert!(world.is_alive(wall));
}

#[test]
fn destroyed_slots_are_reused_under_a_fresh_generation() {
    let animations = minimal_animations();
    let mut world = World::new();
    let mut phys = PhysicWorld::new();
    let ground = world.create_entity();
    let mut bodies_map = BodiesMap::new(ground);
    let e1 = world.create_entity();
    let mut commands: Vec<Command> = vec![Command::Destroy(e1)];
    world.maintain(&mut commands, &mut phys, &mut bodies_map, &animations, 0, 0);
    assert!(!world.is_alive(e1));
    let e2 = world.create_entity();
    assert_eq!(e2.index, e1.index);
    assert_ne!(e2.generation, e1.generation);
    assert!(world.is_alive(e2));
    assert!(!world.is_alive(e1));
}

#[test]
fn draws_stay_below_their_bound() {
    assert_eq!(draw_below(1), 0);
    for _ in 0..100 {
        assert!(draw_below(10) < 10);
    }
}

#[test]
fn angular_distance_folds_into_a_half_turn() {
    for delta in [-7000i64, -3000, -100, 0, 100, 3000, 7000] {
        let exact = angular_distance(delta, true);
        let historical = angular_distance(delta, false);
        assert!(0 <= exact && exact <= 3142);
        assert!(0 <= historical && historical <= 3142);
    }
    // the historical formula scales the remainder by the half turn and
    // diverges from the exact fold
    assert_eq!(angular_distance(3000, true), 3000);
    assert_eq!(angular_distance(3000, false), 3142);
}

#[test]
fn vector_norms_are_exact_floors() {
    assert_eq!(Vec2 { x: 300, y: 400 }.norm(), 500);
    assert_eq!(Vec2 { x: 0, y: 0 }.norm(), 0);
    assert_eq!(Vec2 { x: -3, y: 4 }.norm(), 5);
    assert_eq!(Vec2 { x: 10, y: 10 }.norm(), 14);
}

#[test]
fn conflicting_systems_never_share_a_stage() {
    let a = SystemDecl { reads: vec![1], writes: vec![2] };
    let b = SystemDecl { reads: vec![2], writes: vec![3] };
    let c = SystemDecl { reads: vec![1], writes: vec![4] };
    // a writes what b reads
    let bad = vec![a, b];
    assert!(!stage_ok(&bad));
    let a = SystemDecl { reads: vec![1], writes: vec![2] };
    let ok = vec![a, c];
    assert!(stage_ok(&ok));
}

#[test]
fn held_keys_encode_a_direction() {
    let mut game = Game::new();
    game.key_event(fefe_core::game::DIR_RIGHT, true);
    game.key_event(fefe_core::game::DIR_UP, true);
    assert_eq!(game.direction(), Vec2 { x: SCALE, y: SCALE });
    game.key_event(fefe_core::game::DIR_RIGHT, false);
    assert_eq!(game.direction(), Vec2 { x: 0, y: SCALE });
    game.key_event(fefe_core::game::DIR_UP, false);
    assert_eq!(game.direction(), Vec2 { x: 0, y: 0 });
    assert!(!game.quit());
    assert!(!game.paused());
}

#[test]
fn step_forces_generators_are_separate() {
    let mut phys = PhysicWorld::new();
    let a = fefe_core::StepForces::new(&mut phys);
    let b = fefe_core::StepForces::new(&mut phys);
    a.get_mut(&mut phys).forces.push((1, Vec2 { x: 7, y: 0 }));
    assert_eq!(a.get(&phys).forces.len(), 1);
    assert_eq!(b.get(&phys).forces.len(), 0);
    assert_eq!(a.get(&phys).forces[0].1, Vec2 { x: 7, y: 0 });
}

#[test]
fn path_distances_wrap_around() {
    let mut p = fefe_core::PositionInPath {
        velocity: 100,
        current_point: 0,
        current_advancement: 0,
        points: vec![],
        distances: vec![],
    };
    p.set(vec![
        Vec2 { x: 0, y: 0 },
        Vec2 { x: 300, y: 400 },
        Vec2 { x: 300, y: 0 },
    ]);
    assert_eq!(p.distances, vec![500, 400, 300]);
}

#[test]
fn vectors_add_and_subtract_componentwise() {
    let a = Vec2 { x: 3, y: -4 };
    let b = Vec2 { x: 10, y: 2 };
    assert_eq!(a.plus(b), Vec2 { x: 13, y: -2 });
    assert_eq!(b.minus(a), Vec2 { x: 7, y: 6 });
    assert_eq!(Vec2::zero(), Vec2 { x: 0, y: 0 });
}

#[test]
fn insert_position_from_a_bare_isometry() {
    let iso = Isometry2 { translation: Vec2 { x: 5, y: 6 }, rotation: 7 };
    let p = fefe_core::InsertPosition::from(iso);
    assert_eq!(p.position, iso);
    assert!(p.path.is_none());
    assert!(p.facing.is_none());
}

#[test]
fn double_queued_destruction_applies_once() {
    let animations = minimal_animations();
    let mut world = World::new();
    let mut phys = PhysicWorld::new();
    let ground = world.create_entity();
    let mut bodies_map = BodiesMap::new(ground);
    // an entity both damaged to death and dead on contact is queued twice
    let e = world.create_entity();
    world.life.insert(e.index, Life(0));
    world.dead_on_contact.insert(e.index, DeadOnContact);
    let mut commands: Vec<Command> = vec![Command::Destroy(e), Command::Destroy(e)];
    let spawned = world.maintain(&mut commands, &mut phys, &mut bodies_map, &animations, 0, 0);
    assert_eq!(spawned.len(), 0);
    assert!(!world.is_alive(e));
    assert!(world.is_alive(ground));
}

#[test]
fn constant_clamp_is_flat() {
    let c = fefe_core::ClampFunction { min_t: 10, max_t: 20, min_v: 700, max_v: 700 };
    for t in [-100i64, 10, 15, 20, 100] {
        assert_eq!(c.compute(t), 700);
    }
}

#[test]
fn empty_world_maintains_to_nothing() {
    let animations = minimal_animations();
    let mut world = World::new();
    let mut phys = PhysicWorld::new();
    let ground = world.create_entity();
    let mut bodies_map = BodiesMap::new(ground);
    let mut commands: Vec<Command> = Vec::new();
    let spawned = world.maintain(&mut commands, &mut phys, &mut bodies_map, &animations, 0, 0);
    assert_eq!(spawned.len(), 0);
    assert_eq!(commands.len(), 0);
}
