//! Animation frame selection.
//!
//! An `AnimationPart` owns an ordered, non-empty set of image ids and a
//! `Framerate` that selects one of them from the entity's walk odometer or
//! frame clock.  A `CompleteAnimation` is an ordered set of parts sharing
//! a timeline; its `duration` is fixed at load time by the slowest
//! fixed-rate part and governs when a one-shot animation is popped.

use vstd::prelude::*;
use crate::math::COORD_LIMIT;
use crate::physics::PhysicWorld;
use crate::physics::RigidBody;
use crate::store::Storage;
use crate::tempo::TIME_LIMIT;
use vstd::arithmetic::div_mod::lemma_hoist_over_denominator;
use vstd::arithmetic::div_mod::lemma_mod_add_multiples_vanish;
use vstd::arithmetic::div_mod::lemma_small_mod;
use vstd::arithmetic::mul::lemma_mul_is_distributive_add_other_way;

verus! {

/// Most images one animation part may hold.
pub const IMAGES_LIMIT: usize = 4096;

/// How an animation part advances through its images.
#[derive(Clone, Copy, PartialEq, Eq, Structural, Debug)]
pub enum Framerate {
    /// Distance of travel for one full loop of the images.
    Walk(i64),
    /// Ticks one image stays on screen (the reciprocal of an
    /// images-per-tick rate).
    Fix(i64),
}

/// One layer of an animation: a non-empty ordered set of image ids and
/// the rate to cycle through them.
#[derive(Clone, PartialEq, Eq, Debug)]
pub struct AnimationPart {
    pub layer: i64,
    pub framerate: Framerate,
    /// Indices into the global image list; never empty (validated at
    /// load, not at run time).
    pub images: Vec<usize>,
}

impl AnimationPart {
    pub open spec fn wf(self) -> bool {
        &&& 0 < self.images@.len() <= IMAGES_LIMIT
        &&& match self.framerate {
            Framerate::Walk(r) => 0 < r <= COORD_LIMIT,
            Framerate::Fix(d) => 0 < d <= COORD_LIMIT,
        }
        &&& -COORD_LIMIT <= self.layer <= COORD_LIMIT
    }

    /// Index into `images` selected for a frame clock and walk odometer.
    pub open spec fn image_index_spec(self, timer: int, distance: int) -> int {
        let len = self.images@.len() as int;
        match self.framerate {
            Framerate::Walk(rate) => (distance * len / (rate as int)) % len,
            Framerate::Fix(image_time) => (timer / (image_time as int)) % len,
        }
    }

    /// Image id selected for a frame clock and walk odometer.
    pub open spec fn image_at_spec(self, timer: int, distance: int) -> int {
        self.images@[self.image_index_spec(timer, distance)] as int
    }

    /// A fixed-rate part shows image `timer / image_time mod len`; a
    /// walk-rate part shows image `distance / rate` of a full loop.
    pub fn image_at(&self, timer: i64, distance: i64) -> (r: usize)
        requires
            self.wf(),
            0 <= timer <= TIME_LIMIT,
            0 <= distance <= TIME_LIMIT,
        ensures
            r == self.image_at_spec(timer as int, distance as int),
    {
        let len = self.images.len();
        match self.framerate {
            Framerate::Walk(rate) => {
                assert(distance * len <= TIME_LIMIT * (IMAGES_LIMIT as i64)) by (nonlinear_arith)
                    requires
                        0 <= distance <= TIME_LIMIT,
                        0 < len <= IMAGES_LIMIT,
                ;
                let scaled: u64 = (distance as u64) * (len as u64);
                let i: u64 = scaled / (rate as u64);
                let idx: u64 = i % (len as u64);
                self.images[idx as usize]
            },
            Framerate::Fix(image_time) => {
                let i: u64 = (timer as u64) / (image_time as u64);
                let idx: u64 = i % (len as u64);
                self.images[idx as usize]
            },
        }
    }

    /// Ticks this part takes to show each image once, where that is
    /// bounded: only fixed-rate parts bound the timeline.
    pub fn duration(&self) -> (r: Option<i64>)
        requires
            self.wf(),
        ensures
            r == self.duration_spec(),
    {
        match self.framerate {
            Framerate::Walk(_) => None,
            Framerate::Fix(image_time) => {
                assert(self.images@.len() * image_time <= (IMAGES_LIMIT as i64) * COORD_LIMIT) by (nonlinear_arith)
                    requires
                        0 < self.images@.len() <= IMAGES_LIMIT,
                        0 < image_time <= COORD_LIMIT,
                ;
                assert(self.images@.len() * image_time >= 1) by (nonlinear_arith)
                    requires
                        self.images@.len() >= 1,
                        image_time >= 1,
                ;
                Some((self.images.len() as i64) * image_time)
            },
        }
    }

    pub open spec fn duration_spec(self) -> Option<i64> {
        match self.framerate {
            Framerate::Walk(_) => None,
            Framerate::Fix(image_time) => Some((self.images@.len() * image_time) as i64),
        }
    }

    /// An exact copy, field by field.
    pub fn duplicate(&self) -> (r: Self)
        ensures
            r.layer == self.layer,
            r.framerate == self.framerate,
            r.images@ == self.images@,
    {
        let mut images: Vec<usize> = Vec::new();
        let n = self.images.len();
        let mut j: usize = 0;
        while j < n
            invariant
                j <= n,
                n == self.images@.len(),
                images@ == self.images@.subrange(0, j as int),
            decreases n - j,
        {
            images.push(self.images[j]);
            j = j + 1;
        }
        assert(images@ == self.images@);
        AnimationPart { layer: self.layer, framerate: self.framerate, images }
    }
}

/// `a` holds exactly the same animation parts as `b`, element by element.
pub open spec fn parts_match(a: Seq<AnimationPart>, b: Seq<AnimationPart>) -> bool {
    &&& a.len() == b.len()
    &&& forall|i: int| 0 <= i < a.len() ==> {
        let p = #[trigger] a[i];
        let q = b[i];
        p.layer == q.layer && p.framerate == q.framerate && p.images@ == q.images@
    }
}

/// `a` is the same animation as `b`: same duration, same parts.
pub open spec fn anim_match(a: CompleteAnimation, b: CompleteAnimation) -> bool {
    &&& a.duration == b.duration
    &&& parts_match(a.parts@, b.parts@)
}

/// Whether some part runs at a fixed rate; only those bound the timeline.
pub open spec fn has_fix(parts: Seq<AnimationPart>) -> bool {
    exists|i: int| 0 <= i < parts.len() && (#[trigger] parts[i].framerate) matches Framerate::Fix(_)
}

/// Longest `images.len() * image_time` across the fixed-rate parts, `-1`
/// when there is none.
pub open spec fn max_fix_duration(parts: Seq<AnimationPart>) -> int
    decreases parts.len(),
{
    if parts.len() == 0 {
        -1
    } else {
        let rest = max_fix_duration(parts.drop_last());
        match parts.last().framerate {
            Framerate::Fix(d) => {
                let dur = parts.last().images@.len() * d;
                if dur > rest {
                    dur
                } else {
                    rest
                }
            },
            Framerate::Walk(_) => rest,
        }
    }
}

/// The longest fixed duration is nonnegative exactly when a fixed-rate
/// part exists, and positive then.
pub proof fn lemma_max_fix_duration_sign(parts: Seq<AnimationPart>)
    requires
        forall|i: int| 0 <= i < parts.len() ==> (#[trigger] parts[i]).wf(),
    ensures
        max_fix_duration(parts) >= 1 <==> has_fix(parts),
        max_fix_duration(parts) == -1 || max_fix_duration(parts) >= 1,
        max_fix_duration(parts) <= (IMAGES_LIMIT as int) * (COORD_LIMIT as int),
    decreases parts.len(),
{
    if parts.len() > 0 {
        assert(forall|i: int| 0 <= i < parts.drop_last().len()
            ==> (#[trigger] parts.drop_last()[i]).wf());
        lemma_max_fix_duration_sign(parts.drop_last());
        match parts.last().framerate {
            Framerate::Fix(d) => {
                assert(parts.last().wf());
                assert(1 <= parts.last().images@.len() * d
                    <= (IMAGES_LIMIT as int) * (COORD_LIMIT as int)) by (nonlinear_arith)
                    requires
                        0 < parts.last().images@.len() <= IMAGES_LIMIT as int,
                        0 < d <= COORD_LIMIT,
                ;
            },
            Framerate::Walk(_) => {},
        }
        if has_fix(parts) {
            let i = choose|i: int| 0 <= i < parts.len()
                && (#[trigger] parts[i].framerate) matches Framerate::Fix(_);
            if i < parts.len() - 1 {
                assert(parts.drop_last()[i] == parts[i]);
                assert(has_fix(parts.drop_last()));
            }
        }
        if has_fix(parts.drop_last()) {
            let i = choose|i: int| 0 <= i < parts.drop_last().len()
                && (#[trigger] parts.drop_last()[i].framerate) matches Framerate::Fix(_);
            assert(parts[i] == parts.drop_last()[i]);
            assert(has_fix(parts));
        }
    }
}

/// An ordered set of animation parts sharing one timeline.
#[derive(Clone, PartialEq, Eq, Debug)]
pub struct CompleteAnimation {
    /// Ticks before a one-shot playback of this animation ends: the
    /// longest `images.len() * image_time` across the fixed-rate parts.
    pub duration: i64,
    pub parts: Vec<AnimationPart>,
}

impl CompleteAnimation {
    pub open spec fn wf(self) -> bool {
        &&& self.duration >= 1
        &&& forall|i: int| 0 <= i < self.parts@.len() ==> (#[trigger] self.parts@[i]).wf()
    }

    /// Builds an animation from its parts and fixes its duration.  Fails
    /// exactly when no part has a fixed rate, since the duration is
    /// undefined then: a load-time error.
    pub fn new(parts: Vec<AnimationPart>) -> (r: Result<CompleteAnimation, LoadError>)
        requires
            forall|i: int| 0 <= i < parts@.len() ==> (#[trigger] parts@[i]).wf(),
        ensures
            match r {
                Ok(c) => {
                    &&& c.parts == parts
                    &&& has_fix(parts@)
                    &&& c.duration == max_fix_duration(parts@)
                    &&& c.wf()
                },
                Err(e) => {
                    &&& e matches LoadError::NoFixedPart
                    &&& !has_fix(parts@)
                },
            },
    {
        proof {
            lemma_max_fix_duration_sign(parts@);
        }
        let n = parts.len();
        let mut cur: i64 = -1;
        let mut i: usize = 0;
        while i < n
            invariant
                i <= n,
                n == parts@.len(),
                forall|k: int| 0 <= k < parts@.len() ==> (#[trigger] parts@[k]).wf(),
                cur == max_fix_duration(parts@.subrange(0, i as int)),
                -1 <= cur <= (IMAGES_LIMIT as i64) * COORD_LIMIT,
            decreases n - i,
        {
            proof {
                lemma_max_fix_duration_sign(parts@.subrange(0, i as int));
                assert(parts@.subrange(0, i + 1 as int).drop_last() =~= parts@.subrange(0, i as int));
                assert(parts@.subrange(0, i + 1 as int).last() == parts@[i as int]);
                lemma_max_fix_duration_sign(parts@.subrange(0, i + 1 as int));
            }
            let d = parts[i].duration();
            if let Some(dur) = d {
                if dur > cur {
                    cur = dur;
                }
            }
            i = i + 1;
        }
        proof {
            assert(parts@.subrange(0, n as int) =~= parts@);
        }
        if cur < 0 {
            Err(LoadError::NoFixedPart)
        } else {
            Ok(CompleteAnimation { duration: cur, parts })
        }
    }

    /// An exact copy, part by part.
    pub fn duplicate(&self) -> (r: Self)
        ensures
            anim_match(r, *self),
    {
        let mut parts: Vec<AnimationPart> = Vec::new();
        let n = self.parts.len();
        let mut i: usize = 0;
        while i < n
            invariant
                i <= n,
                n == self.parts@.len(),
                parts_match(parts@, self.parts@.subrange(0, i as int)),
            decreases n - i,
        {
            parts.push(self.parts[i].duplicate());
            proof {
                assert(self.parts@.subrange(0, i + 1 as int) =~=
                    self.parts@.subrange(0, i as int).push(self.parts@[i as int]));
            }
            i = i + 1;
        }
        proof {
            assert(self.parts@.subrange(0, n as int) =~= self.parts@);
        }
        CompleteAnimation { duration: self.duration, parts }
    }
}

/// Errors of animation-table loading; fatal at startup, reported with the
/// offending key.
#[derive(Clone, PartialEq, Eq, Debug)]
pub enum LoadError {
    /// An animation part matched no image in the assets directory.
    NoImages { part: String },
    /// An animation referenced a part name that no part defines.
    UnknownPart { part: String },
    /// An animation has no fixed-rate part, so its duration is undefined.
    NoFixedPart,
}

/// Which animation of a specie is playing.
#[derive(Clone, Copy, PartialEq, Eq, Structural, Debug, Hash)]
pub enum AnimationName {
    Idle,
    Walk,
    SwordAttack,
}

/// Which family of animations an entity draws from.
#[derive(Clone, Copy, PartialEq, Eq, Structural, Debug, Hash)]
pub enum AnimationSpecie {
    Character,
    Bomb,
}

/// Tuning of one animation part as configuration declares it.
#[derive(Clone, PartialEq, Eq, Debug)]
pub struct AnimationPartConf {
    /// Image file name pattern the part's images are found under.
    pub filename: String,
    pub layer: i64,
    pub framerate: Framerate,
}

/// The animation table as configuration declares it: named parts, and for
/// each `(specie, name)` pair the ordered part names it is made of.
#[derive(Clone, PartialEq, Eq, Debug)]
pub struct AnimationsConf {
    pub parts: Vec<(String, AnimationPartConf)>,
    pub table: Vec<((AnimationSpecie, AnimationName), Vec<String>)>,
}

impl AnimationsConf {
    /// Part tuning values stay inside the fixed-point ranges; checked by
    /// the loader before building.
    pub open spec fn wf(self) -> bool {
        &&& self.parts@.len() <= IMAGES_LIMIT
        &&& forall|k: int| 0 <= k < self.parts@.len() ==> {
            let c = (#[trigger] self.parts@[k]).1;
            &&& -COORD_LIMIT <= c.layer <= COORD_LIMIT
            &&& match c.framerate {
                Framerate::Walk(r) => 0 < r <= COORD_LIMIT,
                Framerate::Fix(d) => 0 < d <= COORD_LIMIT,
            }
        }
    }
}

/// Whether a part name resolves among the declared parts.
pub open spec fn resolves(parts: Seq<(String, AnimationPartConf)>, name: Seq<char>) -> bool {
    exists|k: int| 0 <= k < parts.len() && (#[trigger] parts[k]).0@ == name
}

/// `r` is the first declared part carrying `name`.
pub open spec fn first_match(
    parts: Seq<(String, AnimationPartConf)>,
    name: Seq<char>,
    r: int,
) -> bool {
    &&& 0 <= r < parts.len()
    &&& parts[r].0@ == name
    &&& forall|k: int| 0 <= k < r ==> (#[trigger] parts[k]).0@ != name
}

/// An animation entry is loadable: every part name it references
/// resolves, and at least one referenced part runs at a fixed rate.
pub open spec fn entry_valid(
    parts: Seq<(String, AnimationPartConf)>,
    names: Seq<String>,
) -> bool {
    &&& forall|j: int| 0 <= j < names.len() ==> resolves(parts, (#[trigger] names[j])@)
    &&& exists|j: int, k: int|
        0 <= j < names.len() && #[trigger] first_match(parts, names[j]@, k)
            && parts[k].1.framerate matches Framerate::Fix(_)
}

/// The whole animation configuration is loadable: every part found at
/// least one image, and every table entry is loadable.
pub open spec fn conf_valid(conf: AnimationsConf, part_images: Seq<Vec<String>>) -> bool {
    &&& forall|k: int| 0 <= k < part_images.len() ==> (#[trigger] part_images[k])@.len() > 0
    &&& forall|e: int| 0 <= e < conf.table@.len()
        ==> entry_valid(conf.parts@, (#[trigger] conf.table@[e]).1@)
}

/// Position in the global image list where part `k`'s images begin: the
/// images of the parts declared before it come first.
pub open spec fn image_base(part_images: Seq<Vec<String>>, k: int) -> int
    decreases k,
{
    if k <= 0 {
        0
    } else {
        image_base(part_images, k - 1) + part_images[k - 1]@.len()
    }
}

/// The image ids assigned to part `k`: consecutive from its base, one
/// per image found for it.
pub open spec fn part_ids(part_images: Seq<Vec<String>>, k: int) -> Seq<usize> {
    Seq::new(part_images[k]@.len(), |x: int| (image_base(part_images, k) + x) as usize)
}

/// Entry `e`'s part `j` in the built table carries the consecutive ids
/// of the declared part its name first matches.
pub open spec fn entry_ids_ok(
    table: Seq<((AnimationSpecie, AnimationName), CompleteAnimation)>,
    conf: AnimationsConf,
    part_images: Seq<Vec<String>>,
    e: int,
    j: int,
) -> bool {
    exists|kk: int| {
        &&& #[trigger] first_match(conf.parts@, conf.table@[e].1@[j]@, kk)
        &&& table[e].1.parts@[j].images@ == part_ids(part_images, kk)
    }
}

/// The image names of the first `k` parts, in declaration order.
pub open spec fn images_concat(part_images: Seq<Vec<String>>, k: int) -> Seq<String>
    decreases k,
{
    if k <= 0 {
        Seq::empty()
    } else {
        images_concat(part_images, k - 1) + part_images[k - 1]@
    }
}

/// The concatenation of the first `k` parts' images ends where part `k`
/// begins.
pub proof fn lemma_images_concat_len(part_images: Seq<Vec<String>>, k: int)
    requires
        k >= 0,
    ensures
        images_concat(part_images, k).len() == image_base(part_images, k),
    decreases k,
{
    if k > 0 {
        lemma_images_concat_len(part_images, k - 1);
    }
}

/// Every image id of the part points below `n`.
pub open spec fn ids_below(p: AnimationPart, n: int) -> bool {
    forall|j: int| 0 <= j < p.images@.len() ==> #[trigger] p.images@[j] < n
}

/// Every image id of the animation points below `n`.
pub open spec fn anim_ids_below(c: CompleteAnimation, n: int) -> bool {
    forall|i: int| 0 <= i < c.parts@.len() ==> ids_below(#[trigger] c.parts@[i], n)
}

/// The loaded animation assets: the global image list and the table that
/// maps a specie and an animation name to a complete animation.
pub struct Animations {
    /// File names of the images, indexed by the ids the parts hold.
    pub images: Vec<String>,
    pub table: Vec<((AnimationSpecie, AnimationName), CompleteAnimation)>,
}

impl Animations {
    pub open spec fn wf(self) -> bool {
        forall|e: int| 0 <= e < self.table@.len() ==> {
            let c = (#[trigger] self.table@[e]).1;
            c.wf() && anim_ids_below(c, self.images@.len() as int)
        }
    }

    pub open spec fn has_spec(self, specie: AnimationSpecie, name: AnimationName) -> bool {
        exists|e: int| 0 <= e < self.table@.len()
            && (#[trigger] self.table@[e]).0 == (specie, name)
    }

    /// Look an animation up by specie and name.
    pub fn get(&self, specie: AnimationSpecie, name: AnimationName) -> (r: Option<
        &CompleteAnimation,
    >)
        ensures
            match r {
                Some(c) => exists|e: int| 0 <= e < self.table@.len()
                    && (#[trigger] self.table@[e]).0 == (specie, name)
                    && self.table@[e].1 == *c,
                None => !self.has_spec(specie, name),
            },
    {
        let n = self.table.len();
        let mut e: usize = 0;
        while e < n
            invariant
                e <= n,
                n == self.table@.len(),
                forall|k: int| 0 <= k < e
                    ==> (#[trigger] self.table@[k]).0 != (specie, name),
            decreases n - e,
        {
            let key = self.table[e].0;
            if key.0 == specie && key.1 == name {
                assert(self.table@[e as int].0 == (specie, name));
                return Some(&self.table[e].1);
            }
            e = e + 1;
        }
        None
    }

    pub fn has(&self, specie: AnimationSpecie, name: AnimationName) -> (r: bool)
        ensures
            r == self.has_spec(specie, name),
    {
        self.get(specie, name).is_some()
    }
}

/// Finds the first part of the built table carrying `name`.
fn find_part(parts_table: &Vec<(String, AnimationPart)>, name: &String) -> (r: Option<usize>)
    ensures
        match r {
            Some(i) => {
                &&& i < parts_table@.len()
                &&& parts_table@[i as int].0@ == name@
                &&& forall|k: int| 0 <= k < i ==> (#[trigger] parts_table@[k]).0@ != name@
            },
            None => forall|k: int| 0 <= k < parts_table@.len()
                ==> (#[trigger] parts_table@[k]).0@ != name@,
        },
{
    let n = parts_table.len();
    let mut k: usize = 0;
    while k < n
        invariant
            k <= n,
            n == parts_table@.len(),
            forall|k2: int| 0 <= k2 < k ==> (#[trigger] parts_table@[k2]).0@ != name@,
        decreases n - k,
    {
        if parts_table[k].0 == *name {
            return Some(k);
        }
        k = k + 1;
    }
    None
}

impl Animations {
    /// Builds the image list and the animation table from the declared
    /// parts and the images found for each.  Everything the run time will
    /// rely on is validated here, never again: every part found at least
    /// one image, every referenced part name resolves, and every
    /// animation has a fixed-rate part to bound its duration.
    pub fn build(conf: &AnimationsConf, part_images: &Vec<Vec<String>>) -> (r: Result<
        Animations,
        LoadError,
    >)
        requires
            conf.wf(),
            part_images@.len() == conf.parts@.len(),
            forall|k: int| 0 <= k < part_images@.len()
                ==> (#[trigger] part_images@[k])@.len() <= IMAGES_LIMIT,
        ensures
            r is Ok <==> conf_valid(*conf, part_images@),
            match r {
                Ok(a) => {
                    &&& a.wf()
                    &&& a.table@.len() == conf.table@.len()
                    &&& forall|e: int| 0 <= e < conf.table@.len()
                        ==> (#[trigger] a.table@[e]).0 == conf.table@[e].0
                    &&& forall|e: int| 0 <= e < conf.table@.len()
                        ==> (#[trigger] a.table@[e]).1.parts@.len() == conf.table@[e].1@.len()
                    &&& forall|e: int| 0 <= e < conf.table@.len()
                        ==> (#[trigger] a.table@[e]).1.duration
                            == max_fix_duration(a.table@[e].1.parts@)
                    // the global image list is the parts' images in
                    // declaration order, and each entry's parts carry the
                    // consecutive ids of their own part's images
                    &&& a.images@ == images_concat(part_images@, conf.parts@.len() as int)
                    &&& forall|e: int, j: int|
                        0 <= e < conf.table@.len() && 0 <= j < conf.table@[e].1@.len()
                            ==> #[trigger] entry_ids_ok(a.table@, *conf, part_images@, e, j)
                },
                Err(LoadError::NoImages { part }) => exists|k: int|
                    0 <= k < part_images@.len() && (#[trigger] part_images@[k])@.len() == 0
                        && conf.parts@[k].0@ == part@,
                Err(LoadError::UnknownPart { part }) => !resolves(conf.parts@, part@),
                Err(LoadError::NoFixedPart) => exists|e: int|
                    0 <= e < conf.table@.len()
                        && !entry_valid(conf.parts@, (#[trigger] conf.table@[e]).1@),
            },
    {
        let n_parts = conf.parts.len();
        let mut images: Vec<String> = Vec::new();
        let mut parts_table: Vec<(String, AnimationPart)> = Vec::new();
        let mut k: usize = 0;
        while k < n_parts
            invariant
                k <= n_parts,
                n_parts == conf.parts@.len() == part_images@.len(),
                conf.wf(),
                forall|k2: int| 0 <= k2 < part_images@.len()
                    ==> (#[trigger] part_images@[k2])@.len() <= IMAGES_LIMIT,
                parts_table@.len() == k,
                images@.len() <= k * (IMAGES_LIMIT as int),
                images@ == images_concat(part_images@, k as int),
                images@.len() == image_base(part_images@, k as int),
                forall|k2: int| 0 <= k2 < k ==> {
                    let built = #[trigger] parts_table@[k2];
                    &&& built.0@ == conf.parts@[k2].0@
                    &&& built.1.framerate == conf.parts@[k2].1.framerate
                    &&& built.1.layer == conf.parts@[k2].1.layer
                    &&& built.1.wf()
                    &&& ids_below(built.1, images@.len() as int)
                    &&& built.1.images@ == part_ids(part_images@, k2)
                },
                forall|k2: int| 0 <= k2 < k ==> (#[trigger] part_images@[k2])@.len() > 0,
            decreases n_parts - k,
        {
            let imgs = &part_images[k];
            let m = imgs.len();
            if m == 0 {
                return Err(LoadError::NoImages { part: conf.parts[k].0.clone() });
            }
            let base = images.len();
            assert(base + m <= (k + 1) * (IMAGES_LIMIT as int)) by (nonlinear_arith)
                requires
                    base <= k * (IMAGES_LIMIT as int),
                    0 < m <= IMAGES_LIMIT,
            ;
            assert((k + 1) * (IMAGES_LIMIT as int) <= (IMAGES_LIMIT as int) * (IMAGES_LIMIT as int))
                by (nonlinear_arith)
                requires
                    k + 1 <= IMAGES_LIMIT as int,
            ;
            let mut ids: Vec<usize> = Vec::new();
            let mut j: usize = 0;
            while j < m
                invariant
                    j <= m,
                    ids@.len() == j,
                    base + m <= 0x100_0000,
                    forall|x: int| 0 <= x < j ==> #[trigger] ids@[x] == base + x,
                decreases m - j,
            {
                ids.push(base + j);
                j = j + 1;
            }
            proof {
                assert(ids@ =~= part_ids(part_images@, k as int));
            }
            let ghost images_before = images@;
            let mut j2: usize = 0;
            while j2 < m
                invariant
                    j2 <= m,
                    m == imgs@.len(),
                    images@.len() == base + j2,
                    images@ == images_before + imgs@.subrange(0, j2 as int),
                decreases m - j2,
            {
                proof {
                    assert(imgs@.subrange(0, j2 + 1 as int) =~= imgs@.subrange(0, j2 as int).push(
                        imgs@[j2 as int],
                    ));
                }
                images.push(imgs[j2].clone());
                j2 = j2 + 1;
            }
            proof {
                assert(imgs@.subrange(0, m as int) =~= imgs@);
                assert(images@ =~= images_concat(part_images@, k + 1 as int));
                lemma_images_concat_len(part_images@, k + 1 as int);
            }
            let part = AnimationPart {
                layer: conf.parts[k].1.layer,
                framerate: conf.parts[k].1.framerate,
                images: ids,
            };
            parts_table.push((conf.parts[k].0.clone(), part));
            k = k + 1;
        }

        let n_entries = conf.table.len();
        let mut table: Vec<((AnimationSpecie, AnimationName), CompleteAnimation)> = Vec::new();
        let mut e: usize = 0;
        while e < n_entries
            invariant
                e <= n_entries,
                n_entries == conf.table@.len(),
                conf.wf(),
                n_parts == conf.parts@.len() == part_images@.len(),
                parts_table@.len() == n_parts,
                forall|k2: int| 0 <= k2 < n_parts ==> {
                    let built = #[trigger] parts_table@[k2];
                    &&& built.0@ == conf.parts@[k2].0@
                    &&& built.1.framerate == conf.parts@[k2].1.framerate
                    &&& built.1.layer == conf.parts@[k2].1.layer
                    &&& built.1.wf()
                    &&& ids_below(built.1, images@.len() as int)
                    &&& built.1.images@ == part_ids(part_images@, k2)
                },
                table@.len() == e,
                forall|e2: int| 0 <= e2 < e ==> {
                    let row = #[trigger] table@[e2];
                    &&& row.0 == conf.table@[e2].0
                    &&& row.1.wf()
                    &&& anim_ids_below(row.1, images@.len() as int)
                    &&& row.1.parts@.len() == conf.table@[e2].1@.len()
                    &&& row.1.duration == max_fix_duration(row.1.parts@)
                },
                forall|e2: int, j: int| 0 <= e2 < e && 0 <= j < conf.table@[e2].1@.len()
                    ==> #[trigger] entry_ids_ok(table@, *conf, part_images@, e2, j),
                forall|e2: int| 0 <= e2 < e
                    ==> entry_valid(conf.parts@, (#[trigger] conf.table@[e2]).1@),
            decreases n_entries - e,
        {
            let names = &conf.table[e].1;
            let n_names = names.len();
            let mut parts: Vec<AnimationPart> = Vec::new();
            let ghost mut wits: Seq<int> = Seq::empty();
            let mut j: usize = 0;
            while j < n_names
                invariant
                    j <= n_names,
                    n_names == names@.len(),
                    names == conf.table@[e as int].1,
                    e < n_entries == conf.table@.len(),
                    conf.wf(),
                    n_parts == conf.parts@.len(),
                    parts_table@.len() == n_parts,
                    forall|k2: int| 0 <= k2 < n_parts ==> {
                        let built = #[trigger] parts_table@[k2];
                        &&& built.0@ == conf.parts@[k2].0@
                        &&& built.1.framerate == conf.parts@[k2].1.framerate
                        &&& built.1.layer == conf.parts@[k2].1.layer
                        &&& built.1.wf()
                        &&& ids_below(built.1, images@.len() as int)
                        &&& built.1.images@ == part_ids(part_images@, k2)
                    },
                    parts@.len() == j,
                    forall|j2: int| 0 <= j2 < j
                        ==> resolves(conf.parts@, (#[trigger] names@[j2])@),
                    wits.len() == j,
                    forall|j2: int| 0 <= j2 < j ==> {
                        &&& first_match(conf.parts@, (#[trigger] names@[j2])@, wits[j2])
                        &&& parts@[j2].framerate == conf.parts@[wits[j2]].1.framerate
                        &&& parts@[j2].images@ == part_ids(part_images@, wits[j2])
                    },
                    forall|j2: int| 0 <= j2 < j
                        ==> (#[trigger] parts@[j2]).wf()
                            && ids_below(parts@[j2], images@.len() as int),
                decreases n_names - j,
            {
                let found = find_part(&parts_table, &names[j]);
                match found {
                    None => {
                        proof {
                            assert forall|k2: int| 0 <= k2 < conf.parts@.len()
                                implies (#[trigger] conf.parts@[k2]).0@ != names@[j as int]@ by {
                                assert(parts_table@[k2].0@ == conf.parts@[k2].0@);
                            }
                        }
                        assert(!resolves(conf.parts@, names@[j as int]@));
                        return Err(LoadError::UnknownPart { part: names[j].clone() });
                    },
                    Some(idx) => {
                        let part = parts_table[idx].1.duplicate();
                        proof {
                            assert forall|k2: int| 0 <= k2 < idx
                                implies (#[trigger] conf.parts@[k2]).0@ != names@[j as int]@ by {
                                assert(parts_table@[k2].0@ == conf.parts@[k2].0@);
                            }
                            assert(parts_table@[idx as int].0@ == conf.parts@[idx as int].0@);
                            assert(parts_table@[idx as int].1.framerate
                                == conf.parts@[idx as int].1.framerate);
                            assert(parts_table@[idx as int].1.wf());
                            assert(ids_below(parts_table@[idx as int].1, images@.len() as int));
                            assert(parts_table@[idx as int].1.images@ == part_ids(
                                part_images@,
                                idx as int,
                            ));
                        }
                        assert(first_match(conf.parts@, names@[j as int]@, idx as int));
                        assert(part.framerate == conf.parts@[idx as int].1.framerate);
                        assert(part.images@ == part_ids(part_images@, idx as int));
                        assert(part.wf() && ids_below(part, images@.len() as int));
                        parts.push(part);
                        assert(parts@[j as int] == part);
                        proof {
                            wits = wits.push(idx as int);
                        }
                        j = j + 1;
                    },
                }
            }
            let key = conf.table[e].0;
            match CompleteAnimation::new(parts) {
                Err(_) => {
                    proof {
                        lemma_entry_without_fix(conf.parts@, names@, parts@, wits);
                    }
                    return Err(LoadError::NoFixedPart);
                },
                Ok(c) => {
                    proof {
                        assert(has_fix(parts@));
                        let j = choose|j: int| 0 <= j < parts@.len()
                            && (#[trigger] parts@[j].framerate) matches Framerate::Fix(_);
                        assert(0 <= j < names@.len());
                        assert(first_match(conf.parts@, (names@[j])@, wits[j]));
                        assert(parts@[j].framerate == conf.parts@[wits[j]].1.framerate);
                        assert(first_match(conf.parts@, names@[j]@, wits[j])
                            && conf.parts@[wits[j]].1.framerate matches Framerate::Fix(_));
                        assert(entry_valid(conf.parts@, names@));
                    }
                    let ghost pre_table = table@;
                    table.push((key, c));
                    proof {
                        assert forall|e2: int, j2: int|
                            0 <= e2 < e + 1 && 0 <= j2 < conf.table@[e2].1@.len()
                            implies #[trigger] entry_ids_ok(
                            table@,
                            *conf,
                            part_images@,
                            e2,
                            j2,
                        ) by {
                            if e2 == e as int {
                                assert(first_match(conf.parts@, names@[j2]@, wits[j2]));
                                assert(c.parts@[j2].images@ == part_ids(part_images@, wits[j2]));
                                assert(table@[e2].1.parts@[j2].images@ == part_ids(
                                    part_images@,
                                    wits[j2],
                                ));
                            } else {
                                assert(entry_ids_ok(pre_table, *conf, part_images@, e2, j2));
                                assert(table@[e2] == pre_table[e2]);
                                let kk = choose|kk: int| {
                                    &&& #[trigger] first_match(
                                        conf.parts@,
                                        conf.table@[e2].1@[j2]@,
                                        kk,
                                    )
                                    &&& pre_table[e2].1.parts@[j2].images@ == part_ids(
                                        part_images@,
                                        kk,
                                    )
                                };
                                assert(table@[e2].1.parts@[j2].images@ == part_ids(
                                    part_images@,
                                    kk,
                                ));
                            }
                        }
                    }
                },
            }
            e = e + 1;
        }
        Ok(Animations { images, table })
    }
}

/// If none of the resolved parts has a fixed rate, the entry is not
/// loadable.
proof fn lemma_entry_without_fix(
    conf_parts: Seq<(String, AnimationPartConf)>,
    names: Seq<String>,
    parts: Seq<AnimationPart>,
    wits: Seq<int>,
)
    requires
        parts.len() == names.len(),
        wits.len() == names.len(),
        forall|j2: int| 0 <= j2 < names.len() ==> {
            &&& first_match(conf_parts, (#[trigger] names[j2])@, wits[j2])
            &&& parts[j2].framerate == conf_parts[wits[j2]].1.framerate
        },
        !has_fix(parts),
    ensures
        !entry_valid(conf_parts, names),
{
    if entry_valid(conf_parts, names) {
        let (j, k) = choose|j: int, k: int|
            0 <= j < names.len() && #[trigger] first_match(conf_parts, names[j]@, k)
                && conf_parts[k].1.framerate matches Framerate::Fix(_);
        // two first matches of one name agree
        assert(first_match(conf_parts, names[j]@, wits[j]));
        assert(k == wits[j]);
        assert(parts[j].framerate matches Framerate::Fix(_));
        assert(has_fix(parts));
    }
}

/// Per-entity animation playback state: a walk odometer, a frame clock,
/// the idle animation and the queue of one-shot animations.
pub struct AnimationState {
    /// Walk odometer: accumulates locomotion, reset to zero when not
    /// moving.
    pub distance: i64,
    pub specie: AnimationSpecie,
    pub idle_animation: CompleteAnimation,
    /// Queued one-shot animations; the front one plays, the idle
    /// animation plays when none is queued.
    pub animations: Vec<CompleteAnimation>,
    /// Frame clock in ticks since the current animation started.
    pub timer: i64,
}

/// `st` is a fresh playback state on the table's animation for
/// `(specie, name)`: odometer and clock at zero, nothing queued, and the
/// idle animation equal to the table entry.
pub open spec fn fresh_animation_state(
    st: AnimationState,
    specie: AnimationSpecie,
    name: AnimationName,
    animations: Animations,
) -> bool {
    &&& st.distance == 0
    &&& st.timer == 0
    &&& st.specie == specie
    &&& st.animations@.len() == 0
    &&& exists|e: int| 0 <= e < animations.table@.len()
        && (#[trigger] animations.table@[e]).0 == (specie, name)
        && anim_match(st.idle_animation, animations.table@[e].1)
}

impl AnimationState {
    pub open spec fn wf(self) -> bool {
        &&& self.idle_animation.wf()
        &&& forall|i: int| 0 <= i < self.animations@.len()
            ==> (#[trigger] self.animations@[i]).wf()
        &&& 0 <= self.timer <= TIME_LIMIT
        &&& 0 <= self.distance <= TIME_LIMIT
    }

    /// All image ids of the state point below `n`.
    pub open spec fn ids_ok(self, n: int) -> bool {
        &&& anim_ids_below(self.idle_animation, n)
        &&& forall|i: int| 0 <= i < self.animations@.len()
            ==> anim_ids_below(#[trigger] self.animations@[i], n)
    }

    /// Fresh playback state on the specie's named idle animation, with
    /// the odometer and the clock at zero.  The animation table resolves
    /// every `(specie, name)` pair that reaches here: validated at load.
    pub fn new(
        specie: AnimationSpecie,
        idle_animation: AnimationName,
        animations: &Animations,
    ) -> (r: AnimationState)
        requires
            animations.wf(),
            animations.has_spec(specie, idle_animation),
        ensures
            r.wf(),
            r.ids_ok(animations.images@.len() as int),
            fresh_animation_state(r, specie, idle_animation, *animations),
    {
        let got = animations.get(specie, idle_animation);
        match got {
            Some(anim) => AnimationState {
                distance: 0,
                specie,
                idle_animation: anim.duplicate(),
                animations: Vec::new(),
                timer: 0,
            },
            None => vstd::pervasive::unreached(),
        }
    }
}

/// One draw record: which image to show, where, and on which layer; the
/// external renderer consumes the list back-to-front by layer.
#[derive(Clone, Copy, PartialEq, Eq, Structural, Debug)]
pub struct AnimationImage {
    /// Index into the global image list.
    pub id: usize,
    pub position: crate::math::Isometry2,
    pub layer: i64,
}

/// The frame's ordered draw records, one per visible part.
pub struct AnimationImages(pub Vec<AnimationImage>);

impl AnimationState {
    /// The animation that currently drives the parts: the front of the
    /// queue, or the idle animation when nothing is queued.
    pub open spec fn current_spec(self) -> CompleteAnimation {
        if self.animations@.len() > 0 {
            self.animations@[0]
        } else {
            self.idle_animation
        }
    }
}

/// How one playback step relates the new state to the old one: the clock
/// advances by `dt` (saturating at the model's horizon), and a one-shot
/// animation whose duration has passed is popped back to idle with the
/// clock reset.
pub open spec fn animate_rel(pre: AnimationState, post: AnimationState, dt: int) -> bool {
    &&& post.distance == pre.distance
    &&& post.specie == pre.specie
    &&& post.idle_animation == pre.idle_animation
    &&& {
        let ticked = if pre.timer + dt <= TIME_LIMIT {
            pre.timer + dt
        } else {
            TIME_LIMIT as int
        };
        if pre.animations@.len() > 0 && ticked >= pre.animations@[0].duration {
            post.animations@ == pre.animations@.drop_first() && post.timer == 0
        } else {
            post.animations@ == pre.animations@ && post.timer == ticked
        }
    }
}

/// The draw records one entity contributes: one per part of its current
/// animation, the image selected by its clock and odometer, at its
/// body's position, on the part's layer.
pub open spec fn entity_records(
    post: AnimationState,
    position: crate::math::Isometry2,
) -> Seq<AnimationImage> {
    Seq::new(
        post.current_spec().parts@.len(),
        |p: int| AnimationImage {
            id: post.current_spec().parts@[p].image_at_spec(
                post.timer as int,
                post.distance as int,
            ) as usize,
            position,
            layer: post.current_spec().parts@[p].layer,
        },
    )
}

/// The frame's draw records: every animated entity's records, in
/// entity-index order.
pub open spec fn frame_records(
    states: Storage<AnimationState>,
    bodies: Storage<RigidBody>,
    phys: PhysicWorld,
    upto: int,
) -> Seq<AnimationImage>
    decreases upto,
{
    if upto <= 0 {
        Seq::empty()
    } else {
        frame_records(states, bodies, phys, upto - 1) + (match (
            states.at(upto - 1),
            bodies.at(upto - 1),
        ) {
            (Some(s), Some(rb)) => entity_records(
                s,
                phys.body_at(rb.0 as int).unwrap().position,
            ),
            _ => Seq::empty(),
        })
    }
}

/// Two state storages agreeing below `upto` give the same frame records.
proof fn lemma_frame_records_congruence(
    s1: Storage<AnimationState>,
    s2: Storage<AnimationState>,
    bodies: Storage<RigidBody>,
    phys: PhysicWorld,
    upto: int,
)
    requires
        forall|k: int| 0 <= k < upto ==> #[trigger] s1.at(k) == s2.at(k),
    ensures
        frame_records(s1, bodies, phys, upto) == frame_records(s2, bodies, phys, upto),
    decreases upto,
{
    if upto > 0 {
        lemma_frame_records_congruence(s1, s2, bodies, phys, upto - 1);
    }
}

impl AnimationState {

    /// One frame of playback for one entity: the clock advances by `dt`
    /// (saturating at the model's horizon), a one-shot animation whose
    /// duration has passed is popped back to idle with the clock reset,
    /// and one draw record per part of the current animation is appended,
    /// each image selected by the part's rate from the clock and the walk
    /// odometer.
    pub fn animate(
        &mut self,
        dt: i64,
        position: crate::math::Isometry2,
        out: &mut Vec<AnimationImage>,
    )
        requires
            old(self).wf(),
            0 <= dt <= TIME_LIMIT,
        ensures
            final(self).wf(),
            animate_rel(*old(self), *final(self), dt as int),
            final(out)@ == old(out)@ + entity_records(*final(self), position),
    {
        let ticked = if self.timer <= TIME_LIMIT - dt {
            self.timer + dt
        } else {
            TIME_LIMIT
        };
        let pop = self.animations.len() > 0 && ticked >= self.animations[0].duration;
        if pop {
            self.animations.remove(0);
            self.timer = 0;
        } else {
            self.timer = ticked;
        }
        let ghost start = out@.len();
        let current: &CompleteAnimation = if self.animations.len() > 0 {
            &self.animations[0]
        } else {
            &self.idle_animation
        };
        let n_parts = current.parts.len();
        let mut p: usize = 0;
        while p < n_parts
            invariant
                p <= n_parts,
                n_parts == current.parts@.len(),
                current == final(self).current_spec(),
                0 <= self.timer <= TIME_LIMIT,
                0 <= self.distance <= TIME_LIMIT,
                forall|k: int| 0 <= k < current.parts@.len()
                    ==> (#[trigger] current.parts@[k]).wf(),
                out@.len() == start + p,
                forall|j: int| 0 <= j < start ==> #[trigger] out@[j] == old(out)@[j],
                forall|p2: int| 0 <= p2 < p ==> {
                    let part = current.parts@[p2];
                    #[trigger] out@[start + p2] == (AnimationImage {
                        id: part.image_at_spec(
                            self.timer as int,
                            self.distance as int,
                        ) as usize,
                        position,
                        layer: part.layer,
                    })
                },
            decreases n_parts - p,
        {
            let part = &current.parts[p];
            let id = part.image_at(self.timer, self.distance);
            out.push(AnimationImage { id, position, layer: part.layer });
            p = p + 1;
        }
        proof {
            assert forall|j: int| start <= j < out@.len() implies out@[j] == entity_records(
                *self,
                position,
            )[j - start] by {
                let p2 = j - start;
                assert(out@[start + p2] == (AnimationImage {
                    id: current.parts@[p2].image_at_spec(
                        self.timer as int,
                        self.distance as int,
                    ) as usize,
                    position,
                    layer: current.parts@[p2].layer,
                }));
            }
            assert(out@ =~= old(out)@ + entity_records(*self, position));
        }
    }
}

/// Selects, per part and per frame, the image to display, and exposes the
/// result as draw records for the external renderer.
pub struct AnimationSystem;

impl AnimationSystem {
    /// One frame of the animation engine, over every entity holding
    /// playback state and a body: advance the playback, then append one
    /// draw record per part of its current animation at the body's
    /// settled position.
    pub fn run(
        states: &mut Storage<AnimationState>,
        rigid_bodies: &Storage<RigidBody>,
        physic_world: &PhysicWorld,
        dt: i64,
    ) -> (images: AnimationImages)
        requires
            0 <= dt <= TIME_LIMIT,
            forall|i: int| (#[trigger] old(states).at(i)) matches Some(s) ==> s.wf(),
            forall|i: int| (#[trigger] rigid_bodies.at(i)) matches Some(rb)
                ==> physic_world.has_body(rb.0 as int),
        ensures
            forall|i: int| (#[trigger] final(states).at(i)) matches Some(s) ==> s.wf(),
            // every animated entity's state is the playback step of its
            // old state; everything else is untouched
            forall|i: int| match (old(states).at(i), rigid_bodies.at(i)) {
                (Some(s), Some(_)) => (#[trigger] final(states).at(i)) matches Some(s2)
                    && animate_rel(s, s2, dt as int),
                _ => final(states).at(i) == old(states).at(i),
            },
            // the returned list is every entity's draw records, in
            // entity-index order
            images.0@ == frame_records(
                *final(states),
                *rigid_bodies,
                *physic_world,
                old(states).data@.len() as int,
            ),
    {
        let mut out: Vec<AnimationImage> = Vec::new();
        let n = states.data.len();
        let mut i: usize = 0;
        while i < n
            invariant
                i <= n,
                n == states.data@.len() == old(states).data@.len(),
                0 <= dt <= TIME_LIMIT,
                forall|k: int| (#[trigger] states.at(k)) matches Some(s) ==> s.wf(),
                forall|k: int| (#[trigger] rigid_bodies.at(k)) matches Some(rb)
                    ==> physic_world.has_body(rb.0 as int),
                forall|k: int| i <= k ==> #[trigger] states.at(k) == old(states).at(k),
                forall|k: int| 0 <= k < i ==> match (old(states).at(k), rigid_bodies.at(k)) {
                    (Some(s), Some(_)) => (#[trigger] states.at(k)) matches Some(s2)
                        && animate_rel(s, s2, dt as int),
                    _ => states.at(k) == old(states).at(k),
                },
                out@ == frame_records(*states, *rigid_bodies, *physic_world, i as int),
            decreases n - i,
        {
            let ghost pre_states = *states;
            let ghost pre_out = out@;
            if states.contains(i) && rigid_bodies.contains(i) {
                let rb = match rigid_bodies.get(i) {
                    Some(rb) => *rb,
                    None => vstd::pervasive::unreached(),
                };
                let position = physic_world.position(rb.0);
                let taken = states.take(i);
                let mut s = match taken {
                    Some(s) => s,
                    None => vstd::pervasive::unreached(),
                };
                s.animate(dt, position, &mut out);
                states.insert(i, s);
                proof {
                    lemma_frame_records_congruence(
                        *states,
                        pre_states,
                        *rigid_bodies,
                        *physic_world,
                        i as int,
                    );
                    assert(out@ =~= frame_records(
                        *states,
                        *rigid_bodies,
                        *physic_world,
                        i + 1 as int,
                    ));
                }
            } else {
                proof {
                    assert(pre_out + Seq::<AnimationImage>::empty() =~= pre_out);
                    assert(out@ =~= frame_records(
                        *states,
                        *rigid_bodies,
                        *physic_world,
                        i + 1 as int,
                    ));
                }
            }
            i = i + 1;
        }
        proof {
            lemma_frame_records_congruence(
                *states,
                *final(states),
                *rigid_bodies,
                *physic_world,
                n as int,
            );
        }
        AnimationImages(out)
    }
}

/// A fixed-rate part starts on its first image and is periodic: one full
/// period of `images.len() * image_time` ticks returns to the same image.
pub proof fn lemma_fix_animation_periodic(p: AnimationPart, d: i64, timer: int, distance: int)
    requires
        p.wf(),
        p.framerate == Framerate::Fix(d),
        0 <= timer,
    ensures
        p.image_at_spec(0, distance) == p.images@[0],
        p.image_at_spec(timer + p.images@.len() * d, distance) == p.image_at_spec(timer, distance),
{
    let len = p.images@.len() as int;
    lemma_small_mod(0, len as nat);
    lemma_hoist_over_denominator(timer, len, d as nat);
    lemma_mod_add_multiples_vanish(timer / (d as int), len);
}

/// A walk-rate part starts on its first image when the odometer is zero,
/// and advancing the odometer by exactly one rate returns to the same
/// image: one full loop per `rate` units of travel.
pub proof fn lemma_walk_animation_loops(p: AnimationPart, rate: i64, timer: int, distance: int)
    requires
        p.wf(),
        p.framerate == Framerate::Walk(rate),
        0 <= distance,
    ensures
        p.image_at_spec(timer, 0) == p.images@[0],
        p.image_at_spec(timer, distance + rate) == p.image_at_spec(timer, distance),
{
    let len = p.images@.len() as int;
    lemma_small_mod(0, len as nat);
    lemma_mul_is_distributive_add_other_way(len, distance, rate as int);
    assert((distance + rate) * len == distance * len + rate * len) by (nonlinear_arith);
    lemma_hoist_over_denominator(distance * len, len, rate as nat);
    assert(distance * len + len * (rate as int) == distance * len + rate * len) by (nonlinear_arith);
    lemma_mod_add_multiples_vanish(distance * len / (rate as int), len);
}

} // verus!
