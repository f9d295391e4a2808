//! The per-frame systems driven together: playback, movement, damping
//! and the scheduler order.

use fefe_core::anim::AnimationState;
use fefe_core::entity::Player as PlayerPrototype;
use fefe_core::spawner::ChamanSpawnerSystem;
use fefe_core::Activator;
use fefe_core::Activators;
use fefe_core::AnimationName;
use fefe_core::AnimationPartConf;
use fefe_core::AnimationSpecie;
use fefe_core::Animations;
use fefe_core::AnimationsConf;
use fefe_core::AnimationSystem;
use fefe_core::BodiesMap;
use fefe_core::BodyStatus;
use fefe_core::ChamanSpawner;
use fefe_core::ClampFunction;
use fefe_core::Command;
use fefe_core::Conf;
use fefe_core::Contactor;
use fefe_core::Framerate;
use fefe_core::InsertPosition;
use fefe_core::InsertableObject;
use fefe_core::Isometry2;
use fefe_core::GravityBomb;
use fefe_core::PhysicWorld;
use fefe_core::RigidBody;
use fefe_core::Sight;
use fefe_core::Storage;
use fefe_core::TargetInfo;
use fefe_core::Targets;
use fefe_core::TurretPart;
use fefe_core::TurretSpawner;
use fefe_core::TurretSpawnerSystem;
use fefe_core::Tempo;
use fefe_core::Tempos;
use fefe_core::Vec2;
use fefe_core::VelocityAimDamping;
use fefe_core::VelocityControl;
use fefe_core::VelocityControlSystem;
use fefe_core::VelocityDampingsSystem;
use fefe_core::VelocityDistanceDamping;
use fefe_core::VelocityToPlayerCircle;
use fefe_core::VelocityToPlayerCircleSystem;
use fefe_core::VelocityToPlayerMemory;
use fefe_core::VelocityToPlayerMemorySystem;
use fefe_core::World;
use fefe_core::AudioSystem;
use fefe_core::SCALE;

fn minimal_animations() -> Animations {
    let conf = AnimationsConf {
        parts: vec![(
            String::from("body"),
            AnimationPartConf {
                filename: String::from("body"),
                layer: 2,
                framerate: Framerate::Fix(100),
            },
        )],
        table: vec![
            ((AnimationSpecie::Character, AnimationName::Idle), vec![String::from("body")]),
            ((AnimationSpecie::Bomb, AnimationName::Idle), vec![String::from("body")]),
        ],
    };
    let images = vec![vec![String::from("body0000"), String::from("body0001")]];
    Animations::build(&conf, &images).unwrap()
}

fn at(x: i64, y: i64) -> Isometry2 {
    Isometry2 { translation: Vec2 { x, y }, rotation: 0 }
}

fn world_with_player(animations: &Animations) -> (World, PhysicWorld, BodiesMap, usize) {
    let mut world = World::new();
    let mut phys = PhysicWorld::new();
    let ground = world.create_entity();
    let mut bodies_map = BodiesMap::new(ground);
    let player = PlayerPrototype.insert(
        InsertPosition { position: at(2000, 0), path: None, facing: None },
        &mut world,
        &mut phys,
        &mut bodies_map,
        animations,
        0,
        0,
    );
    let handle = world.rigid_body.get(player.index).unwrap().0;
    (world, phys, bodies_map, handle)
}

#[test]
fn animation_playback_pops_finished_one_shots() {
    let animations = minimal_animations();
    let mut state = AnimationState::new(
        AnimationSpecie::Character,
        AnimationName::Idle,
        &animations,
    );
    let one_shot = animations.get(AnimationSpecie::Bomb, AnimationName::Idle).unwrap().duplicate();
    let duration = one_shot.duration;
    state.animations.push(one_shot);
    let mut out = Vec::new();
    state.animate(50, at(0, 0), &mut out);
    // still playing the queued one-shot
    assert_eq!(state.animations.len(), 1);
    assert_eq!(state.timer, 50);
    assert_eq!(out.len(), 1);
    state.animate(duration, at(0, 0), &mut out);
    // popped back to idle, the clock reset
    assert_eq!(state.animations.len(), 0);
    assert_eq!(state.timer, 0);
    assert_eq!(out.len(), 2);
    assert_eq!(out[1].layer, 2);
}

#[test]
fn animation_system_draws_one_record_per_part() {
    let animations = minimal_animations();
    let (mut world, phys, _bodies_map, _h) = world_with_player(&animations);
    let images = AnimationSystem::run(&mut world.animation_state, &world.rigid_body, &phys, 16);
    assert_eq!(images.0.len(), 1);
    assert!(images.0[0].id < animations.images.len());
    assert_eq!(images.0[0].position.translation, Vec2 { x: 2000, y: 0 });
}

#[test]
fn memory_system_chases_the_seen_player() {
    let animations = minimal_animations();
    let (mut world, mut phys, mut bodies_map, player_handle) = world_with_player(&animations);
    let chaser = world.create_entity();
    world.vtp_memory.insert(chaser.index, VelocityToPlayerMemory::new(600, true));
    world.activators.insert(
        chaser.index,
        Activators(vec![Activator {
            tempo: 0,
            partition: vec![true],
            activated: true,
            sound: 0,
        }]),
    );
    let rb = RigidBody::safe_insert(
        chaser,
        at(0, 0),
        BodyStatus::Kinematic,
        &mut world.rigid_body,
        &mut phys,
        &mut bodies_map,
    );
    let mut sights: Storage<Sight> = Storage::new();
    sights.insert(
        chaser.index,
        Sight(vec![vec![fefe_core::RayHit { body: player_handle, toi: 1900 }]]),
    );
    VelocityToPlayerMemorySystem::run(
        &world.player,
        &world.activators,
        &world.rigid_body,
        &mut world.vtp_memory,
        &sights,
        &bodies_map,
        &mut phys,
    );
    // the chaser saw the player at (2000, 0) and heads straight for it
    let m = world.vtp_memory.get(chaser.index).unwrap();
    assert_eq!(m.last_closest_in_sight, Some(Vec2 { x: 2000, y: 0 }));
    let body = phys.bodies[rb.0].as_ref().unwrap();
    assert_eq!(body.velocity, Vec2 { x: 600, y: 0 });
}

#[test]
fn circle_strafe_flips_and_orbits() {
    let animations = minimal_animations();
    let (mut world, mut phys, _bodies_map, _player_handle) = world_with_player(&animations);
    let orbiter = world.create_entity();
    world.vtp_circle.insert(
        orbiter.index,
        VelocityToPlayerCircle {
            activator: 0,
            circle_velocity: 300,
            direct_velocity: 300,
            shift_time_mean: 0,
            shift_time_spread: 0,
            next_shift: 0,
            dir_shift: false,
        },
    );
    world.activators.insert(
        orbiter.index,
        Activators(vec![Activator {
            tempo: 0,
            partition: vec![true],
            activated: true,
            sound: 4,
        }]),
    );
    world.contactor.insert(orbiter.index, Contactor(vec![]));
    let mut bm = BodiesMap::new(world.create_entity());
    let rb = RigidBody::safe_insert(
        orbiter,
        at(0, 0),
        BodyStatus::Kinematic,
        &mut world.rigid_body,
        &mut phys,
        &mut bm,
    );
    let sounds = VelocityToPlayerCircleSystem::run(
        &world.player,
        &world.rigid_body,
        &world.activators,
        &world.contactor,
        &mut world.vtp_circle,
        &mut phys,
    );
    // the activation flipped the orbit and played the activator's sound
    assert!(world.vtp_circle.get(orbiter.index).unwrap().dir_shift);
    assert_eq!(sounds.len(), 1);
    assert_eq!(sounds[0].0, 4);
    // direct component toward the player at (2000, 0), orbit component
    // perpendicular, flipped
    let body = phys.bodies[rb.0].as_ref().unwrap();
    assert_eq!(body.velocity, Vec2 { x: 300, y: 300 });
}

#[test]
fn velocity_control_commits_the_input_direction() {
    let animations = minimal_animations();
    let (mut world, mut phys, _bm, player_handle) = world_with_player(&animations);
    let player_idx = {
        let mut idx = None;
        for i in 0..world.gens.len() {
            if world.player.get(i).is_some() {
                idx = Some(i);
            }
        }
        idx.unwrap()
    };
    world.velocity_control.insert(
        player_idx,
        VelocityControl { velocity: 500, direction: Vec2 { x: SCALE, y: 0 } },
    );
    VelocityControlSystem::run(&world.velocity_control, &world.rigid_body, &mut phys);
    let body = phys.bodies[player_handle].as_ref().unwrap();
    assert_eq!(body.velocity, Vec2 { x: 500, y: 0 });
}

#[test]
fn damping_composer_scales_the_written_velocity() {
    let animations = minimal_animations();
    let (mut world, mut phys, _bm, player_handle) = world_with_player(&animations);
    let damped = world.create_entity();
    let mut bm = BodiesMap::new(world.create_entity());
    let rb = RigidBody::safe_insert(
        damped,
        at(0, 0),
        BodyStatus::Dynamic,
        &mut world.rigid_body,
        &mut phys,
        &mut bm,
    );
    phys.set_velocity(rb.0, Vec2 { x: 800, y: 0 }, 0);
    // a curve at half strength everywhere
    world.velocity_distance_damping.insert(
        damped.index,
        VelocityDistanceDamping(ClampFunction {
            min_t: 0,
            max_t: 1,
            min_v: 500,
            max_v: 500,
        }),
    );
    let mut targets: Storage<Targets> = Storage::new();
    targets.insert(
        damped.index,
        Targets(vec![TargetInfo {
            position: Vec2 { x: 2000, y: 0 },
            aim: 0,
            angle_from_player: 0,
            hits: vec![],
        }]),
    );
    VelocityDampingsSystem::run(
        &world.velocity_distance_damping,
        &world.velocity_aim_damping,
        &world.rigid_body,
        &targets,
        &mut phys,
        true,
    );
    let body = phys.bodies[rb.0].as_ref().unwrap();
    assert_eq!(body.velocity, Vec2 { x: 400, y: 0 });
    let _ = player_handle;
    let _ = VelocityAimDamping(ClampFunction { min_t: 0, max_t: 1, min_v: 0, max_v: 0 });
}

#[test]
fn turret_fires_along_its_rotating_aim() {
    let animations = minimal_animations();
    let conf = Conf {
        fps: 60,
        physic_max_timestep: 20,
        physic_min_timestep: 10,
        zoom: SCALE,
        insertables: vec![(
            String::from("bomb"),
            InsertableObject::GravityBomb(GravityBomb {
                animation_specie: AnimationSpecie::Bomb,
                damage: 1,
                force: 100,
                powi: 2,
                players_aim_damping: None,
                radius: 200,
                dead_on_contact: true,
                insert_shift: false,
            }),
        )],
        player_radius: 500,
        player_linear_damping: 0,
        player_angular_damping: 0,
        exact_aim_angle: true,
    };
    let mut world = World::new();
    let mut phys = PhysicWorld::new();
    let ground = world.create_entity();
    let mut bodies_map = BodiesMap::new(ground);
    let turret = world.create_entity();
    world.turret_spawner.insert(
        turret.index,
        TurretSpawner(vec![TurretPart {
            activator: 0,
            rotation_activator: Some(0),
            spawn: String::from("bomb"),
            rotation_time: 8,
            clockwise: false,
            start_time: 0,
            shoot_distance: 700,
        }]),
    );
    world.activators.insert(
        turret.index,
        Activators(vec![Activator {
            tempo: 0,
            partition: vec![true],
            activated: true,
            sound: 0,
        }]),
    );
    RigidBody::safe_insert(
        turret,
        at(0, 0),
        BodyStatus::Static,
        &mut world.rigid_body,
        &mut phys,
        &mut bodies_map,
    );
    let mut tempos = Tempos(vec![Tempo::new(100)]);
    tempos.0[0].tick(250);
    let mut commands: Vec<Command> = Vec::new();
    TurretSpawnerSystem::run(&world, &tempos, &phys, &conf, &mut commands);
    assert_eq!(commands.len(), 1);
    let spawned = world.maintain(&mut commands, &mut phys, &mut bodies_map, &animations, 0, 0);
    assert_eq!(spawned.len(), 1);
    assert!(world.is_alive(turret));
    assert!(world.gravity_to_players.get(spawned[0].index).is_some());
}

#[test]
fn chaman_spawns_up_to_its_count() {
    let animations = minimal_animations();
    let conf = Conf {
        fps: 60,
        physic_max_timestep: 20,
        physic_min_timestep: 10,
        zoom: SCALE,
        insertables: vec![(
            String::from("charger"),
            InsertableObject::Charger(fefe_core::Charger {
                animation_specie: AnimationSpecie::Character,
                radius: 500,
                velocity: 800,
                damage: 1,
            }),
        )],
        player_radius: 500,
        player_linear_damping: 0,
        player_angular_damping: 0,
        exact_aim_angle: true,
    };
    let mut world = World::new();
    let mut phys = PhysicWorld::new();
    let ground = world.create_entity();
    let mut bodies_map = BodiesMap::new(ground);
    let chaman = world.create_entity();
    world.chaman_spawner.insert(
        chaman.index,
        ChamanSpawner {
            activator: 0,
            spawn: String::from("charger"),
            number_of_spawn: 1,
            spawned: vec![],
        },
    );
    world.activators.insert(
        chaman.index,
        Activators(vec![Activator {
            tempo: 0,
            partition: vec![true],
            activated: true,
            sound: 0,
        }]),
    );
    RigidBody::safe_insert(
        chaman,
        at(0, 0),
        BodyStatus::Static,
        &mut world.rigid_body,
        &mut phys,
        &mut bodies_map,
    );
    let mut commands: Vec<Command> = Vec::new();
    fefe_core::ChamanSpawnerSystem::run(&world, &phys, &conf, &mut commands);
    assert_eq!(commands.len(), 1);
    let spawned = world.maintain(&mut commands, &mut phys, &mut bodies_map, &animations, 0, 0);
    assert_eq!(spawned.len(), 1);
    ChamanSpawnerSystem::record(&mut world.chaman_spawner, chaman.index, spawned[0]);
    let cs = world.chaman_spawner.get(chaman.index).unwrap();
    assert_eq!(cs.spawned.len(), 1);
    // the count reached: a second activation queues nothing
    let mut commands: Vec<Command> = Vec::new();
    fefe_core::ChamanSpawnerSystem::run(&world, &phys, &conf, &mut commands);
    assert_eq!(commands.len(), 0);
}

#[test]
fn audio_listens_from_the_first_player() {
    let animations = minimal_animations();
    let (world, phys, _bm, _h) = world_with_player(&animations);
    let p = AudioSystem::run(&world.player, &world.rigid_body, &phys);
    assert_eq!(p, Some(Vec2 { x: 2000, y: 0 }));
    let empty = World::new();
    assert_eq!(AudioSystem::run(&empty.player, &empty.rigid_body, &phys), None);
}

#[test]
fn conf_lookup_takes_the_first_declared_match() {
    let proto = |v: i64| {
        InsertableObject::Charger(fefe_core::Charger {
            animation_specie: AnimationSpecie::Character,
            radius: v,
            velocity: 1,
            damage: 1,
        })
    };
    let conf = Conf {
        fps: 60,
        physic_max_timestep: 20,
        physic_min_timestep: 10,
        zoom: SCALE,
        insertables: vec![
            (String::from("a"), proto(1)),
            (String::from("a"), proto(2)),
            (String::from("b"), proto(3)),
        ],
        player_radius: 500,
        player_linear_damping: 0,
        player_angular_damping: 0,
        exact_aim_angle: true,
    };
    match conf.lookup(&String::from("a")) {
        Some(InsertableObject::Charger(c)) => assert_eq!(c.radius, 1),
        _ => panic!("the first declared prototype must win"),
    }
    assert!(conf.lookup(&String::from("c")).is_none());
}

#[test]
fn gravity_bomb_shifts_along_the_facing() {
    let animations = minimal_animations();
    let mut world = World::new();
    let mut phys = PhysicWorld::new();
    let ground = world.create_entity();
    let mut bodies_map = BodiesMap::new(ground);
    let bomb = GravityBomb {
        animation_specie: AnimationSpecie::Bomb,
        damage: 1,
        force: 100,
        powi: 2,
        players_aim_damping: None,
        radius: 400,
        dead_on_contact: false,
        insert_shift: true,
    };
    let e = bomb.insert(
        InsertPosition {
            position: at(1000, 2000),
            path: None,
            // facing straight along the first axis, at the unit scale
            facing: Some(Vec2 { x: SCALE, y: 0 }),
        },
        &mut world,
        &mut phys,
        &mut bodies_map,
        &animations,
    );
    let rb = world.rigid_body.get(e.index).unwrap();
    let body = phys.bodies[rb.0].as_ref().unwrap();
    // placed one radius along the facing
    assert_eq!(body.position.translation, Vec2 { x: 1400, y: 2000 });
    // the same bomb without the shift lands on the insert position
    let plain = GravityBomb { insert_shift: false, ..bomb };
    let e2 = plain.insert(
        InsertPosition {
            position: at(1000, 2000),
            path: None,
            facing: Some(Vec2 { x: SCALE, y: 0 }),
        },
        &mut world,
        &mut phys,
        &mut bodies_map,
        &animations,
    );
    let rb2 = world.rigid_body.get(e2.index).unwrap();
    let body2 = phys.bodies[rb2.0].as_ref().unwrap();
    assert_eq!(body2.position.translation, Vec2 { x: 1000, y: 2000 });
}
