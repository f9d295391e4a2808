//! Animation frame selection, clamp curves and table loading.

use fefe_core::AnimationName;
use fefe_core::AnimationPart;
use fefe_core::AnimationPartConf;
use fefe_core::AnimationSpecie;
use fefe_core::Animations;
use fefe_core::AnimationsConf;
use fefe_core::ClampFunction;
use fefe_core::CompleteAnimation;
use fefe_core::Framerate;
use fefe_core::LoadError;

fn fix_part(image_time: i64, images: Vec<usize>) -> AnimationPart {
    AnimationPart { layer: 0, framerate: Framerate::Fix(image_time), images }
}

fn walk_part(rate: i64, images: Vec<usize>) -> AnimationPart {
    AnimationPart { layer: 0, framerate: Framerate::Walk(rate), images }
}

#[test]
fn fix_animation_starts_on_first_image() {
    let part = fix_part(100, vec![7, 8, 9]);
    assert_eq!(part.image_at(0, 0), 7);
    assert_eq!(part.image_at(0, 999), 7);
}

#[test]
fn fix_animation_is_periodic() {
    // period = images.len() * image_time = 3 * 100 ticks
    let part = fix_part(100, vec![7, 8, 9]);
    for timer in [0i64, 37, 150, 299] {
        assert_eq!(part.image_at(timer, 0), part.image_at(timer + 300, 0));
        assert_eq!(part.image_at(timer, 0), part.image_at(timer + 600, 0));
    }
    assert_eq!(part.image_at(100, 0), 8);
    assert_eq!(part.image_at(200, 0), 9);
}

#[test]
fn walk_animation_starts_on_first_image() {
    let part = walk_part(400, vec![3, 4]);
    assert_eq!(part.image_at(0, 0), 3);
    assert_eq!(part.image_at(555, 0), 3);
}

#[test]
fn walk_animation_loops_per_rate() {
    // one full loop per 400 fixed-point units of travel
    let part = walk_part(400, vec![3, 4, 5, 6]);
    for distance in [0i64, 50, 120, 399] {
        assert_eq!(part.image_at(0, distance), part.image_at(0, distance + 400));
    }
    assert_eq!(part.image_at(0, 100), 4);
    assert_eq!(part.image_at(0, 200), 5);
    assert_eq!(part.image_at(0, 399), 6);
}

#[test]
fn complete_animation_duration_is_slowest_fix_part() {
    let parts = vec![
        walk_part(400, vec![0, 1]),
        fix_part(100, vec![2, 3, 4]),
        fix_part(50, vec![5, 6]),
    ];
    let anim = CompleteAnimation::new(parts).unwrap();
    // max of 3 * 100 and 2 * 50
    assert_eq!(anim.duration, 300);
}

#[test]
fn complete_animation_needs_a_fix_part() {
    let parts = vec![walk_part(400, vec![0, 1]), walk_part(200, vec![2])];
    let r = CompleteAnimation::new(parts);
    assert!(matches!(r, Err(LoadError::NoFixedPart)));
}

#[test]
fn clamp_is_bounded_and_hits_its_ends() {
    let c = ClampFunction { min_t: 1000, max_t: 3000, min_v: 0, max_v: 1000 };
    assert_eq!(c.compute(-5000), 0);
    assert_eq!(c.compute(1000), 0);
    assert_eq!(c.compute(3000), 1000);
    assert_eq!(c.compute(9000), 1000);
    let mid = c.compute(2000);
    assert_eq!(mid, 500);
    for t in [-2000i64, 0, 1500, 2500, 3500, 100000] {
        let v = c.compute(t);
        assert!(0 <= v && v <= 1000);
    }
}

#[test]
fn clamp_is_monotone_both_ways() {
    let up = ClampFunction { min_t: 0, max_t: 1000, min_v: 100, max_v: 900 };
    let down = ClampFunction { min_t: 0, max_t: 1000, min_v: 900, max_v: 100 };
    let mut last_up = up.compute(-100);
    let mut last_down = down.compute(-100);
    for t in [-50i64, 0, 123, 456, 789, 1000, 2000] {
        let u = up.compute(t);
        let d = down.compute(t);
        assert!(u >= last_up);
        assert!(d <= last_down);
        last_up = u;
        last_down = d;
    }
}

fn part_conf(image_time: i64) -> AnimationPartConf {
    AnimationPartConf {
        filename: String::from("body"),
        layer: 0,
        framerate: Framerate::Fix(image_time),
    }
}

fn one_part_conf() -> AnimationsConf {
    AnimationsConf {
        parts: vec![(String::from("body"), part_conf(100))],
        table: vec![
            ((AnimationSpecie::Character, AnimationName::Idle), vec![String::from("body")]),
            ((AnimationSpecie::Bomb, AnimationName::Idle), vec![String::from("body")]),
        ],
    }
}

#[test]
fn animations_build_assigns_images_and_durations() {
    let conf = one_part_conf();
    let images = vec![vec![String::from("body0000"), String::from("body0001")]];
    let a = Animations::build(&conf, &images).unwrap();
    assert_eq!(a.images.len(), 2);
    assert_eq!(a.table.len(), 2);
    // duration = 2 images * 100 ticks
    assert_eq!(a.table[0].1.duration, 200);
    assert!(a.has(AnimationSpecie::Character, AnimationName::Idle));
    assert!(!a.has(AnimationSpecie::Character, AnimationName::Walk));
}

#[test]
fn animations_build_rejects_empty_image_set() {
    let conf = one_part_conf();
    let images = vec![vec![]];
    let r = Animations::build(&conf, &images);
    match r {
        Err(LoadError::NoImages { part }) => assert_eq!(part, "body"),
        _ => panic!("an empty image set must be rejected"),
    }
}

#[test]
fn animations_build_rejects_dangling_part_name() {
    let mut conf = one_part_conf();
    conf.table[0].1 = vec![String::from("tail")];
    let images = vec![vec![String::from("body0000")]];
    let r = Animations::build(&conf, &images);
    match r {
        Err(LoadError::UnknownPart { part }) => assert_eq!(part, "tail"),
        _ => panic!("a dangling part name must be rejected"),
    }
}

#[test]
fn animations_build_rejects_walk_only_animation() {
    let mut conf = one_part_conf();
    conf.parts[0].1.framerate = Framerate::Walk(400);
    let images = vec![vec![String::from("body0000")]];
    let r = Animations::build(&conf, &images);
    assert!(matches!(r, Err(LoadError::NoFixedPart)));
}
