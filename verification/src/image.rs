//! The render scheduler: owns the scene, the camera and the interaction
//! state, turns device input into viewpoint changes, and fills a frame
//! buffer pixel by pixel, trading sample count and bounce depth for
//! responsiveness while the camera is being moved.

use vstd::prelude::*;
use rayon::iter::{IntoParallelRefMutIterator, ParallelIterator};
use crate::camera::{Camera, camera_wf, spec_camera, spec_get_ray};
use crate::color::{Color, color_wf, cadd, cmul, cscale, spec_white, spec_black, spec_pixel_bytes};
use crate::fixed::{fx_wf, fadd, fsub, fmul, fdiv, FX_MAX, SCALE, fx_add, fx_sub, fx_mul, fx_div};
use crate::hittable::{HitRecord, rec_filled};
use crate::material::{Material, spec_scatter};
use crate::ray::{Ray, ray_wf};
use crate::rng::{Rng64, spec_step, spec_pixel_seed};
use crate::sphere::{Sphere, sphere_wf, spec_sphere_hit};
use crate::vector::{Vector, vec_wf, vadd, vsub, vscale, vunit};

verus! {

/// What the viewer is doing with the pointer right now.
#[derive(Clone, Copy, Debug, PartialEq, Eq, Structural)]
pub enum State {
    Panning,
    Rotating,
    Static,
}

/// A device event, reduced to plain values: a pointer button changing
/// state, pointer motion deltas, or a scroll delta, all on the fixed-point
/// scale where fractions matter.
#[derive(Clone, Copy, Debug, PartialEq, Eq, Structural)]
pub enum InputEvent {
    Button { button: u32, pressed: bool },
    MouseMotion { dx: i64, dy: i64 },
    MouseWheel { delta: i64 },
}

/// An event's deltas lie in the fixed-point range (the conversion layer
/// saturates them on the way in).
pub open spec fn event_wf(e: InputEvent) -> bool {
    match e {
        InputEvent::Button { button, pressed } => true,
        InputEvent::MouseMotion { dx, dy } => fx_wf(dx) && fx_wf(dy),
        InputEvent::MouseWheel { delta } => fx_wf(delta),
    }
}

/// Every sphere of a scene is well-formed.
pub open spec fn world_wf(world: Seq<Sphere>) -> bool {
    forall|k: int| 0 <= k < world.len() ==> sphere_wf(#[trigger] world[k])
}

/// A pixel count on the fixed-point scale.
pub open spec fn spec_px(n: u32) -> i64 {
    ((n as int) * (SCALE as int)) as i64
}

/// The aspect ratio of a width by height viewport.
pub open spec fn spec_aspect(w: u32, h: u32) -> i64 {
    fdiv(spec_px(w), spec_px(h))
}

/// The interactive tracer: scene, camera, viewpoint parameters, quality
/// limits, and the interaction state machine.
pub struct Image {
    pub width: u32,
    pub height: u32,
    pub world: Vec<Sphere>,
    pub camera: Camera,
    pub max_depth: u32,
    pub max_samples: u32,
    pub fov: i64,
    pub look_from: Vector,
    pub look_at: Vector,
    pub up: Vector,
    pub state: State,
    pub steps: usize,
    pub full_rendered: bool,
    pub seed: u64,
}

/// The invariant every `Image` keeps: positive viewport, well-formed scene
/// and viewpoint, a sample budget of at least one, a stride of one or
/// three, and a camera that agrees with the viewpoint parameters.
pub open spec fn image_wf(im: Image) -> bool {
    &&& im.width >= 1
    &&& im.height >= 1
    &&& world_wf(im.world@)
    &&& fx_wf(im.fov)
    &&& vec_wf(im.look_from)
    &&& vec_wf(im.look_at)
    &&& vec_wf(im.up)
    &&& im.max_samples >= 1
    &&& (im.steps == 1 || im.steps == 3)
    &&& im.camera == spec_camera(
        spec_aspect(im.width, im.height),
        im.fov,
        im.look_from,
        im.look_at,
        im.up,
    )
    &&& camera_wf(im.camera)
}

/// The nearest hit over the whole scene: each sphere is asked only for
/// hits nearer than the best one found so far, scanning in scene order.
pub open spec fn spec_world_hit(world: Seq<Sphere>, ray: Ray, t_min: i64, t_max: i64) -> Option<
    HitRecord,
>
    decreases world.len(),
{
    if world.len() == 0 {
        None
    } else {
        let prev = spec_world_hit(world.drop_last(), ray, t_min, t_max);
        let closest = match prev {
            Some(h) => h.t.unwrap(),
            None => t_max,
        };
        match spec_sphere_hit(world.last(), ray, t_min, closest) {
            Some(h) => Some(h),
            None => prev,
        }
    }
}

/// The sky: white at the horizon blending to blue upward, by the
/// normalized direction's vertical component.
pub open spec fn spec_background(ray: Ray) -> Color {
    let ud = vunit(ray.direction);
    let t = fmul(500_000i64, fadd(ud.y, SCALE));
    cadd(
        cscale(spec_white(), fsub(SCALE, t)),
        cscale(Color { r: 500_000i64, g: 700_000i64, b: 1_000_000i64 }, t),
    )
}

/// The color a ray gathers, and the sampler state it leaves behind:
/// white once the depth budget is exhausted; on a hit, the scattered
/// ray's color tinted by the attenuation (black if absorbed); on a miss,
/// the sky.
pub open spec fn spec_ray_color(world: Seq<Sphere>, ray: Ray, depth: u32, s: u64) -> (Color, u64)
    decreases depth,
{
    if depth == 0 {
        (spec_white(), s)
    } else {
        match spec_world_hit(world, ray, 1_000i64, FX_MAX) {
            Some(rec) => {
                let sc = spec_scatter(rec.material.unwrap(), ray, rec, s);
                if sc.0 {
                    let rest = spec_ray_color(world, sc.2, (depth - 1) as u32, sc.3);
                    (cmul(sc.1, rest.0), rest.1)
                } else {
                    (spec_black(), sc.3)
                }
            },
            None => (spec_background(ray), s),
        }
    }
}

/// The denominator normalizing a pixel coordinate: one less than the side
/// in pixels, floored at one so a one-pixel side stays meaningful.
pub open spec fn spec_den(n: u32) -> i64 {
    if n > 1 {
        spec_px((n - 1) as u32)
    } else {
        SCALE
    }
}

/// `samples` jittered camera rays through pixel `(i, j)`, their colors
/// summed, threading the sampler state through every draw.
pub open spec fn spec_pixel_accum(
    world: Seq<Sphere>,
    cam: Camera,
    w: u32,
    h: u32,
    depth: u32,
    i: u32,
    j: u32,
    samples: u32,
    s: u64,
) -> (Color, u64)
    decreases samples,
{
    if samples == 0 {
        (spec_black(), s)
    } else {
        let prev = spec_pixel_accum(world, cam, w, h, depth, i, j, (samples - 1) as u32, s);
        let s0 = prev.1;
        let ju = (spec_step(s0) as int % (SCALE as int)) as i64;
        let s1 = spec_step(s0);
        let jv = (spec_step(s1) as int % (SCALE as int)) as i64;
        let s2 = spec_step(s1);
        let u = fdiv(fadd(spec_px(i), ju), spec_den(w));
        let v = fdiv(fadd(spec_px(j), jv), spec_den(h));
        let ray = spec_get_ray(cam, u, v);
        let rc = spec_ray_color(world, ray, depth, s2);
        (cadd(prev.0, rc.0), rc.1)
    }
}

/// The accumulated color of pixel `(i, j)` under the image's frame seed.
#[verifier::opaque]
pub open spec fn spec_pixel_color(
    world: Seq<Sphere>,
    cam: Camera,
    w: u32,
    h: u32,
    seed: u64,
    depth: u32,
    i: u32,
    j: u32,
    samples: u32,
) -> Color {
    spec_pixel_accum(world, cam, w, h, depth, i, j, samples, spec_pixel_seed(seed, i, j)).0
}

/// One byte of the frame a render pass leaves behind. Byte `k` belongs to
/// pixel column `(k/4) % w` and buffer row `(k/4) / w`; buffer rows run
/// top-down while image rows run bottom-up, so the image row is flipped.
/// Pixels on the stride grid carry their rendered bytes (alpha is always
/// 255); all others keep what the buffer held.
#[verifier::opaque]
pub open spec fn spec_frame_byte(
    world: Seq<Sphere>,
    cam: Camera,
    w: u32,
    h: u32,
    seed: u64,
    samples: u32,
    depth: u32,
    stride: u32,
    oldf: Seq<u8>,
    k: int,
) -> u8 {
    let p = k / 4;
    let col = p % (w as int);
    let rowtop = p / (w as int);
    let j = h - 1 - rowtop;
    if col % (stride as int) == 0 && j % (stride as int) == 0 {
        if k % 4 == 3 {
            255u8
        } else {
            let bytes = spec_pixel_bytes(
                spec_pixel_color(world, cam, w, h, seed, depth, col as u32, j as u32, samples),
                samples,
            );
            if k % 4 == 0 {
                bytes.0
            } else if k % 4 == 1 {
                bytes.1
            } else {
                bytes.2
            }
        }
    } else {
        oldf[k]
    }
}

/// The whole frame a render pass leaves behind.
pub open spec fn spec_frame(
    world: Seq<Sphere>,
    cam: Camera,
    w: u32,
    h: u32,
    seed: u64,
    samples: u32,
    depth: u32,
    stride: u32,
    oldf: Seq<u8>,
) -> Seq<u8> {
    Seq::new(
        oldf.len(),
        |k: int| spec_frame_byte(world, cam, w, h, seed, samples, depth, stride, oldf, k),
    )
}

/// The panning translation: pointer deltas scaled by three screens per
/// viewport side, moving the viewpoint left/up against the drag.
pub open spec fn spec_pan(im: Image, dx: i64, dy: i64) -> (Vector, Vector) {
    let xrel = fmul(fdiv(dx, spec_px(im.width)), 3_000_000i64);
    let yrel = fmul(fdiv(dy, spec_px(im.height)), 3_000_000i64);
    (
        Vector {
            x: fsub(im.look_from.x, xrel),
            y: fadd(im.look_from.y, yrel),
            z: im.look_from.z,
        },
        Vector { x: fsub(im.look_at.x, xrel), y: fadd(im.look_at.y, yrel), z: im.look_at.z },
    )
}

/// The dolly translation: a scroll delta, one click per 120 units, moving
/// both viewpoint points by that amount along the view axis.
pub open spec fn spec_dolly(im: Image, delta: i64) -> (Vector, Vector) {
    let off = fdiv(delta, 120_000_000i64);
    let shift = vscale(vunit(vsub(im.look_from, im.look_at)), off);
    (vadd(im.look_from, shift), vadd(im.look_at, shift))
}

/// The image state an input event leads to: buttons drive the interaction
/// state machine, motion pans while panning (and invalidates the frame),
/// scrolling dollies in any state.
pub open spec fn spec_handle(im: Image, e: InputEvent) -> Image {
    match e {
        InputEvent::Button { button, pressed } => {
            if button == 3 {
                if pressed {
                    Image { state: State::Rotating, steps: 3, ..im }
                } else {
                    Image { state: State::Static, ..im }
                }
            } else if button == 1 {
                if pressed {
                    Image { state: State::Panning, steps: 3, ..im }
                } else {
                    Image { state: State::Static, ..im }
                }
            } else {
                im
            }
        },
        InputEvent::MouseMotion { dx, dy } => {
            if im.state is Panning {
                let (lf, la) = spec_pan(im, dx, dy);
                Image {
                    look_from: lf,
                    look_at: la,
                    camera: spec_camera(
                        spec_aspect(im.width, im.height),
                        im.fov,
                        lf,
                        la,
                        im.up,
                    ),
                    full_rendered: false,
                    ..im
                }
            } else if im.state is Rotating {
                Image { full_rendered: false, ..im }
            } else {
                im
            }
        },
        InputEvent::MouseWheel { delta } => {
            let (lf, la) = spec_dolly(im, delta);
            Image {
                look_from: lf,
                look_at: la,
                camera: spec_camera(spec_aspect(im.width, im.height), im.fov, lf, la, im.up),
                full_rendered: false,
                ..im
            }
        },
    }
}

impl Image {
    /// A tracer over the procedurally seeded scene, drawing its frame seed
    /// from the process's random source.
    pub fn new(width: u32, height: u32, max_samples: u32, max_depth: u32) -> (im: Image)
        requires
            width >= 1,
            height >= 1,
            max_samples >= 1,
        ensures
            image_wf(im),
            im.width == width,
            im.height == height,
            im.max_samples == max_samples,
            im.max_depth == max_depth,
            im.state is Static,
            im.steps == 3,
            !im.full_rendered,
            im.fov == 60_000_000i64,
            im.look_from == (Vector { x: 0i64, y: 2_000_000i64, z: 4_000_000i64 }),
            im.look_at == (Vector { x: 0i64, y: 0i64, z: 0i64 }),
            im.up == (Vector { x: 0i64, y: 1_000_000i64, z: 0i64 }),
            exists|s: u64| (im.world@, im.seed) == spec_canonical_world(s),
    {
        let seed = random_seed();
        let im = Image::new_with_seed(width, height, max_samples, max_depth, seed);
        proof {
            assert(exists|s: u64| (im.world@, im.seed) == spec_canonical_world(s)) by {
                assert((im.world@, im.seed) == spec_canonical_world(seed));
            }
        }
        im
    }

    /// A tracer over the procedurally seeded scene with an explicit seed,
    /// so a render is reproducible.
    pub fn new_with_seed(width: u32, height: u32, max_samples: u32, max_depth: u32, seed: u64) -> (im: Image)
        requires
            width >= 1,
            height >= 1,
            max_samples >= 1,
        ensures
            image_wf(im),
            im.width == width,
            im.height == height,
            im.max_samples == max_samples,
            im.max_depth == max_depth,
            im.fov == 60_000_000i64,
            im.look_from == (Vector { x: 0i64, y: 2_000_000i64, z: 4_000_000i64 }),
            im.look_at == (Vector { x: 0i64, y: 0i64, z: 0i64 }),
            im.up == (Vector { x: 0i64, y: 1_000_000i64, z: 0i64 }),
            im.state is Static,
            im.steps == 3,
            !im.full_rendered,
            (im.world@, im.seed) == spec_canonical_world(seed),
            im.camera == spec_camera(
                spec_aspect(width, height),
                60_000_000i64,
                Vector { x: 0i64, y: 2_000_000i64, z: 4_000_000i64 },
                Vector { x: 0i64, y: 0i64, z: 0i64 },
                Vector { x: 0i64, y: 1_000_000i64, z: 0i64 },
            ),
    {
        let mut rng = Rng64::new(seed);
        let world = random_world(&mut rng);
        let fov: i64 = 60_000_000;
        let look_from = Vector::new(0, 2_000_000, 4_000_000);
        let look_at = Vector::new(0, 0, 0);
        let up = Vector::new(0, 1_000_000, 0);
        let aspect = aspect_of(width, height);
        let camera = Camera::from_ratio(aspect, fov, look_from, look_at, up);
        Image {
            width,
            height,
            world,
            camera,
            max_samples,
            max_depth,
            fov,
            look_from,
            look_at,
            up,
            state: State::Static,
            steps: 3,
            full_rendered: false,
            seed: rng.state,
        }
    }

    /// The viewport height in pixels.
    pub fn height(&self) -> (h: u32)
        ensures
            h == self.height,
    {
        self.height
    }

    /// The viewport width in pixels.
    pub fn width(&self) -> (w: u32)
        ensures
            w == self.width,
    {
        self.width
    }

    /// The sample budget of a static frame.
    pub fn max_samples(&self) -> (s: u32)
        ensures
            s == self.max_samples,
    {
        self.max_samples
    }

    /// The bounce budget of a static frame.
    pub fn max_depth(&self) -> (d: u32)
        ensures
            d == self.max_depth,
    {
        self.max_depth
    }

    /// Move the viewpoint and its target, rebuilding the camera.
    pub fn update_position_and_look(&mut self, look_from: Vector, look_at: Vector)
        requires
            image_wf(*old(self)),
            vec_wf(look_from),
            vec_wf(look_at),
        ensures
            image_wf(*final(self)),
            *final(self) == (Image {
                look_from,
                look_at,
                camera: spec_camera(
                    spec_aspect(old(self).width, old(self).height),
                    old(self).fov,
                    look_from,
                    look_at,
                    old(self).up,
                ),
                ..*old(self)
            }),
    {
        self.look_at = look_at;
        self.look_from = look_from;
        let aspect = aspect_of(self.width, self.height);
        self.camera = Camera::from_ratio(aspect, self.fov, self.look_from, self.look_at, self.up);
    }

    /// Move the viewpoint only, rebuilding the camera.
    pub fn update_position(&mut self, look_from: Vector)
        requires
            image_wf(*old(self)),
            vec_wf(look_from),
        ensures
            image_wf(*final(self)),
            *final(self) == (Image {
                look_from,
                camera: spec_camera(
                    spec_aspect(old(self).width, old(self).height),
                    old(self).fov,
                    look_from,
                    old(self).look_at,
                    old(self).up,
                ),
                ..*old(self)
            }),
    {
        self.look_from = look_from;
        let aspect = aspect_of(self.width, self.height);
        self.camera = Camera::from_ratio(aspect, self.fov, self.look_from, self.look_at, self.up);
    }

    /// Adopt a new viewport size, rebuild the camera for its aspect ratio
    /// and force a fresh full render; a size with a zero side is ignored.
    pub fn resize(&mut self, width: u32, height: u32)
        requires
            image_wf(*old(self)),
        ensures
            image_wf(*final(self)),
            width >= 1 && height >= 1 ==> *final(self) == (Image {
                width,
                height,
                camera: spec_camera(
                    spec_aspect(width, height),
                    old(self).fov,
                    old(self).look_from,
                    old(self).look_at,
                    old(self).up,
                ),
                full_rendered: false,
                ..*old(self)
            }),
            !(width >= 1 && height >= 1) ==> *final(self) == *old(self),
    {
        if width > 0 && height > 0 {
            self.width = width;
            self.height = height;
            let aspect = aspect_of(self.width, self.height);
            self.camera = Camera::from_ratio(
                aspect,
                self.fov,
                self.look_from,
                self.look_at,
                self.up,
            );
            self.full_rendered = false;
        }
    }

    /// Feed one device event through the interaction state machine.
    #[verifier::rlimit(100)]
    #[verifier::spinoff_prover]
    pub fn handle_device(&mut self, event: &InputEvent)
        requires
            image_wf(*old(self)),
            event_wf(*event),
        ensures
            image_wf(*final(self)),
            *final(self) == spec_handle(*old(self), *event),
    {
        match *event {
            InputEvent::Button { button, pressed } => {
                if button == 3 {
                    if pressed {
                        self.state = State::Rotating;
                        self.steps = 3;
                    } else {
                        self.state = State::Static;
                    }
                } else if button == 1 {
                    if pressed {
                        self.state = State::Panning;
                        self.steps = 3;
                    } else {
                        self.state = State::Static;
                    }
                }
            },
            InputEvent::MouseMotion { dx, dy } => {
                if self.state == State::Panning {
                    let x_relative = fx_mul(fx_div(dx, px_of(self.width)), 3_000_000);
                    let y_relative = fx_mul(fx_div(dy, px_of(self.height)), 3_000_000);
                    let look_at = Vector::new(
                        fx_sub(self.look_at.x(), x_relative),
                        fx_add(self.look_at.y(), y_relative),
                        self.look_at.z(),
                    );
                    let look_from = Vector::new(
                        fx_sub(self.look_from.x(), x_relative),
                        fx_add(self.look_from.y(), y_relative),
                        self.look_from.z(),
                    );
                    self.update_position_and_look(look_from, look_at);
                    self.full_rendered = false;
                } else if self.state == State::Rotating {
                    self.full_rendered = false;
                }
            },
            InputEvent::MouseWheel { delta } => {
                let off = fx_div(delta, 120_000_000);
                let shift = self.look_from.sub(self.look_at).unit_vector().scale(off);
                let from = self.look_from.add(shift);
                let at = self.look_at.add(shift);
                self.update_position_and_look(from, at);
                self.full_rendered = false;
            },
        }
    }

    /// Zero the frame buffer ahead of a pass, unless the last full render
    /// is still valid.
    pub fn clear(&mut self, frame: &mut Vec<u8>)
        requires
            image_wf(*old(self)),
        ensures
            *final(self) == *old(self),
            final(frame)@.len() == old(frame)@.len(),
            old(self).full_rendered ==> final(frame)@ == old(frame)@,
            !old(self).full_rendered ==> forall|k: int|
                0 <= k < final(frame)@.len() ==> final(frame)@[k] == 0u8,
    {
        if !self.full_rendered {
            par_zero(frame);
        }
    }

    /// The nearest hit of `ray` against the scene within `[t_min, t_max]`.
    pub fn hit(&self, ray: &Ray, t_min: i64, t_max: i64, hit_record: &mut HitRecord) -> (hit:
        bool)
        requires
            world_wf(self.world@),
            ray_wf(*ray),
            fx_wf(t_min),
            fx_wf(t_max),
        ensures
            match spec_world_hit(self.world@, *ray, t_min, t_max) {
                Some(h) => hit && *final(hit_record) == h && rec_filled(h),
                None => !hit && *final(hit_record) == *old(hit_record),
            },
    {
        let mut temp_record = HitRecord::new();
        let mut hit_anything = false;
        let mut closest = t_max;
        let ghost initial_record = *hit_record;
        let n = self.world.len();
        let mut idx: usize = 0;
        while idx < n
            invariant
                n == self.world@.len(),
                idx <= n,
                world_wf(self.world@),
                ray_wf(*ray),
                fx_wf(t_min),
                fx_wf(t_max),
                match spec_world_hit(self.world@.subrange(0, idx as int), *ray, t_min, t_max) {
                    Some(h) => hit_anything && temp_record == h && *hit_record == h && closest
                        == h.t.unwrap() && rec_filled(h),
                    None => !hit_anything && closest == t_max && *hit_record == initial_record,
                },
            decreases n - idx,
        {
            let ghost prefix = self.world@.subrange(0, idx as int);
            let sphere = self.world[idx];
            if sphere.hit(ray, t_min, closest, &mut temp_record) {
                hit_anything = true;
                closest = temp_record.t.unwrap();
                *hit_record = temp_record;
            }
            idx = idx + 1;
            proof {
                assert(self.world@.subrange(0, idx as int).drop_last() =~= prefix);
                assert(self.world@.subrange(0, idx as int).last() == self.world@[idx - 1]);
            }
        }
        proof {
            assert(self.world@.subrange(0, n as int) =~= self.world@);
        }
        hit_anything
    }

    /// The color one ray gathers from the scene, bounded by `depth`.
    pub fn ray_color(&self, ray: &Ray, depth: u32, rng: &mut Rng64) -> (c: Color)
        requires
            world_wf(self.world@),
            ray_wf(*ray),
        ensures
            (c, final(rng).state) == spec_ray_color(self.world@, *ray, depth, old(rng).state),
            color_wf(c),
        decreases depth,
    {
        if depth == 0 {
            return Color::new_white();
        }
        let mut rec = HitRecord::new();
        if self.hit(ray, 1_000, FX_MAX, &mut rec) {
            let mut attenuation = Color::new_black();
            let mut scattered = Ray::new(Vector::new_empty(), Vector::new_empty());
            let mat = rec.material.unwrap();
            if mat.scatter(ray, &rec, &mut attenuation, &mut scattered, rng) {
                let rest = self.ray_color(&scattered, depth - 1, rng);
                return attenuation.mul(rest);
            }
            return Color::new_black();
        }
        let ud = ray.direction.unit_vector();
        let t = fx_mul(500_000, fx_add(ud.y(), SCALE));
        Color::new_white().scale(fx_sub(SCALE, t)).add(
            Color::new(500_000, 700_000, 1_000_000).scale(t),
        )
    }

    /// The accumulated color of pixel `(i, j)` over `samples` jittered
    /// rays, from a sampler seeded by the frame seed and the pixel.
    #[verifier::rlimit(60)]
    pub fn get_pixel_color(&self, i: u32, j: u32, samples: u32) -> (c: Color)
        requires
            image_wf(*self),
        ensures
            c == spec_pixel_color(
                self.world@,
                self.camera,
                self.width,
                self.height,
                self.seed,
                if self.state is Static {
                    self.max_depth
                } else {
                    1u32
                },
                i,
                j,
                samples,
            ),
            color_wf(c),
    {
        proof {
            reveal(spec_pixel_color);
        }
        let depth = if self.state == State::Static {
            self.max_depth
        } else {
            1
        };
        let mut rng = Rng64::for_pixel(self.seed, i, j);
        let mut color = Color::new_black();
        let den_w = den_of(self.width);
        let den_h = den_of(self.height);
        let mut k: u32 = 0;
        while k < samples
            invariant
                k <= samples,
                image_wf(*self),
                den_w == spec_den(self.width),
                den_h == spec_den(self.height),
                depth == if self.state is Static {
                    self.max_depth
                } else {
                    1u32
                },
                color_wf(color),
                (color, rng.state) == spec_pixel_accum(
                    self.world@,
                    self.camera,
                    self.width,
                    self.height,
                    depth,
                    i,
                    j,
                    k,
                    spec_pixel_seed(self.seed, i, j),
                ),
            decreases samples - k,
        {
            let ju = rng.next_unit();
            let u = fx_div(fx_add(px_of(i), ju), den_w);
            let jv = rng.next_unit();
            let v = fx_div(fx_add(px_of(j), jv), den_h);
            let ray = self.camera.get_ray(u, v);
            let sample = self.ray_color(&ray, depth, &mut rng);
            color = color.add(sample);
            k = k + 1;
        }
        color
    }

    /// Render one pass into the frame buffer. A frame marked fully
    /// rendered is left alone. A static viewpoint gets every pixel at the
    /// full sample and depth budget, and the pass marks the frame fully
    /// rendered; during panning or rotating only every third pixel in each
    /// axis is traced, at one sample and depth one, and the rest of the
    /// buffer keeps its previous bytes.
    #[verifier::rlimit(100)]
    pub fn draw(&mut self, frame: &mut Vec<u8>)
        requires
            image_wf(*old(self)),
            old(frame)@.len() == 4 * (old(self).width as int) * (old(self).height as int),
        ensures
            image_wf(*final(self)),
            final(frame)@.len() == old(frame)@.len(),
            old(self).full_rendered ==> *final(self) == *old(self) && final(frame)@ == old(
                frame,
            )@,
            !old(self).full_rendered ==> {
                let stride: u32 = if old(self).state is Static {
                    1u32
                } else {
                    3u32
                };
                let samples: u32 = if old(self).state is Static {
                    old(self).max_samples
                } else {
                    1u32
                };
                let depth: u32 = if old(self).state is Static {
                    old(self).max_depth
                } else {
                    1u32
                };
                &&& *final(self) == (Image {
                    steps: stride as usize,
                    full_rendered: old(self).state is Static,
                    ..*old(self)
                })
                &&& final(frame)@ == spec_frame(
                    old(self).world@,
                    old(self).camera,
                    old(self).width,
                    old(self).height,
                    old(self).seed,
                    samples,
                    depth,
                    stride,
                    old(frame)@,
                )
            },
    {
        if self.full_rendered {
            return ;
        }
        let w = self.width;
        let h = self.height;
        let is_static = self.state == State::Static;
        let stride: u32 = if is_static {
            1
        } else {
            3
        };
        let samples: u32 = if is_static {
            self.max_samples
        } else {
            1
        };
        self.steps = stride as usize;
        let ghost depth: u32 = if old(self).state is Static {
            old(self).max_depth
        } else {
            1u32
        };
        let ghost oldf = frame@;
        let mut i: u32 = 0;
        while i < w
            invariant
                image_wf(*self),
                *self == (Image { steps: stride as usize, ..*old(self) }),
                !old(self).full_rendered,
                w == self.width,
                h == self.height,
                stride == if self.state is Static {
                    1u32
                } else {
                    3u32
                },
                samples == if self.state is Static {
                    self.max_samples
                } else {
                    1u32
                },
                depth == if self.state is Static {
                    self.max_depth
                } else {
                    1u32
                },
                stride == 1 || stride == 3,
                samples >= 1,
                i % stride == 0,
                i <= w + 2,
                frame@.len() == oldf.len(),
                oldf.len() == 4 * (w as int) * (h as int),
                forall|k: int|
                    0 <= k < frame@.len() ==> frame@[k] == (if (k / 4) % (w as int) < i {
                        spec_frame_byte(
                            self.world@,
                            self.camera,
                            w,
                            h,
                            self.seed,
                            samples,
                            depth,
                            stride,
                            oldf,
                            k,
                        )
                    } else {
                        oldf[k]
                    }),
            decreases w + 3 - i,
        {
            let mut j: u32 = 0;
            while j < h
                invariant
                    image_wf(*self),
                    *self == (Image { steps: stride as usize, ..*old(self) }),
                    !old(self).full_rendered,
                    w == self.width,
                    h == self.height,
                    stride == if self.state is Static {
                        1u32
                    } else {
                        3u32
                    },
                    samples == if self.state is Static {
                        self.max_samples
                    } else {
                        1u32
                    },
                    depth == if self.state is Static {
                        self.max_depth
                    } else {
                        1u32
                    },
                    stride == 1 || stride == 3,
                    samples >= 1,
                    i % stride == 0,
                    j % stride == 0,
                    i < w,
                    j <= h + 2,
                    frame@.len() == oldf.len(),
                    oldf.len() == 4 * (w as int) * (h as int),
                    forall|k: int|
                        0 <= k < frame@.len() ==> frame@[k] == (if (k / 4) % (w as int) < i || (
                        (k / 4) % (w as int) == i && 0 <= h - 1 - (k / 4) / (w as int) < j) {
                            spec_frame_byte(
                                self.world@,
                                self.camera,
                                w,
                                h,
                                self.seed,
                                samples,
                                depth,
                                stride,
                                oldf,
                                k,
                            )
                        } else {
                            oldf[k]
                        }),
                decreases h + 3 - j,
            {
                let color = self.get_pixel_color(i, j, samples);
                let bytes = color.pixels(samples);
                let ghost pre = frame@;
                write_pixel(frame, w, h, i, j, bytes);
                proof {
                    let wi = w as int;
                    let target = i + wi * (h - 1 - j);
                    assert forall|k: int| 0 <= k < frame@.len() implies frame@[k] == (if (k / 4)
                        % wi < i || ((k / 4) % wi == i && 0 <= h - 1 - (k / 4) / wi < j + stride) {
                        spec_frame_byte(
                            self.world@,
                            self.camera,
                            w,
                            h,
                            self.seed,
                            samples,
                            depth,
                            stride,
                            oldf,
                            k,
                        )
                    } else {
                        oldf[k]
                    }) by {
                        reveal(spec_frame_byte);
                        lemma_pixel_bytes(w as int, h as int, i as int, j as int, k);
                        if k / 4 == target {
                            assert((k / 4) % wi == i && (k / 4) / wi == h - 1 - j);
                            assert(k % 4 == k - 4 * (k / 4));
                        } else {
                            assert(frame@[k] == pre[k]);
                            if (k / 4) % wi == i && 0 <= h - 1 - (k / 4) / wi < j + stride && !((
                            k / 4) % wi < i || ((k / 4) % wi == i && 0 <= h - 1 - (k / 4) / wi
                                < j)) {
                                let jof = h - 1 - (k / 4) / wi;
                                if jof == j {
                                    assert(k / 4 == target);
                                } else {
                                    assert(stride == 3 && (j + 1 == jof || j + 2 == jof));
                                    assert(jof % (stride as int) != 0);
                                    assert(spec_frame_byte(
                                        self.world@,
                                        self.camera,
                                        w,
                                        h,
                                        self.seed,
                                        samples,
                                        depth,
                                        stride,
                                        oldf,
                                        k,
                                    ) == oldf[k]);
                                }
                            }
                        }
                    }
                }
                j = j + stride;
            }
            proof {
                let wi = w as int;
                assert forall|k: int| 0 <= k < frame@.len() implies frame@[k] == (if (k / 4) % wi
                    < i + stride {
                    spec_frame_byte(
                        self.world@,
                        self.camera,
                        w,
                        h,
                        self.seed,
                        samples,
                        depth,
                        stride,
                        oldf,
                        k,
                    )
                } else {
                    oldf[k]
                }) by {
                    reveal(spec_frame_byte);
                    lemma_pixel_bytes(w as int, h as int, i as int, 0int, k);
                    let col = (k / 4) % wi;
                    if i < col < i + stride {
                        assert(stride == 3 ==> col % (stride as int) != 0);
                        assert(spec_frame_byte(
                            self.world@,
                            self.camera,
                            w,
                            h,
                            self.seed,
                            samples,
                            depth,
                            stride,
                            oldf,
                            k,
                        ) == oldf[k]);
                    }
                    if col == i {
                        assert(h - 1 - (k / 4) / wi < j);
                    }
                }
            }
            i = i + stride;
        }
        proof {
            let wi = w as int;
            assert forall|k: int| 0 <= k < frame@.len() implies frame@[k] == spec_frame(
                old(self).world@,
                old(self).camera,
                w,
                h,
                old(self).seed,
                samples,
                depth,
                stride,
                oldf,
            )[k] by {
                lemma_pixel_bytes(w as int, h as int, 0int, 0int, k);
                assert((k / 4) % wi < w);
            }
            assert(frame@ =~= spec_frame(
                old(self).world@,
                old(self).camera,
                w,
                h,
                old(self).seed,
                samples,
                depth,
                stride,
                oldf,
            ));
        }
        if is_static {
            self.full_rendered = true;
        }
    }
}

/// Facts tying a byte index to its pixel: the byte's pixel number lies in
/// the frame, its column is below the width, and a pixel number built from
/// a column and a row decodes back to them.
proof fn lemma_pixel_bytes(w: int, h: int, i: int, j: int, k: int)
    requires
        1 <= w,
        1 <= h,
        0 <= i < w,
        0 <= j < h,
        0 <= k < 4 * w * h,
    ensures
        0 <= k / 4 < w * h,
        0 <= (k / 4) % w < w,
        0 <= (k / 4) / w < h,
        k / 4 == i + w * (h - 1 - j) <==> ((k / 4) % w == i && h - 1 - (k / 4) / w == j),
        0 <= k % 4 < 4,
        k == 4 * (k / 4) + k % 4,
{
    let p = k / 4;
    vstd::arithmetic::div_mod::lemma_fundamental_div_mod(k, 4);
    assert(0 <= p < w * h) by (nonlinear_arith)
        requires
            0 <= k < 4 * w * h,
            k == 4 * (k / 4) + k % 4,
            0 <= k % 4 < 4,
            p == k / 4,
    ;
    vstd::arithmetic::div_mod::lemma_fundamental_div_mod(p, w);
    assert(0 <= p % w < w);
    assert(0 <= p / w < h) by (nonlinear_arith)
        requires
            0 <= p < w * h,
            p == w * (p / w) + p % w,
            0 <= p % w < w,
            1 <= w,
    ;
    if p == i + w * (h - 1 - j) {
        vstd::arithmetic::div_mod::lemma_fundamental_div_mod_converse(p, w, h - 1 - j, i);
    }
    if p % w == i && h - 1 - p / w == j {
        assert(p == w * (p / w) + p % w);
        assert(p == i + w * (h - 1 - j)) by (nonlinear_arith)
            requires
                p == w * (p / w) + p % w,
                p % w == i,
                h - 1 - p / w == j,
        ;
    }
}

/// Write one rendered pixel's four bytes at its row-flipped offset.
fn write_pixel(frame: &mut Vec<u8>, w: u32, h: u32, i: u32, j: u32, bytes: (u8, u8, u8))
    requires
        i < w,
        j < h,
        old(frame)@.len() == 4 * (w as int) * (h as int),
    ensures
        final(frame)@.len() == old(frame)@.len(),
        forall|k: int|
            0 <= k < final(frame)@.len() ==> final(frame)@[k] == (if k / 4 == i + (w as int) * (h
                - 1 - j) {
                if k % 4 == 0 {
                    bytes.0
                } else if k % 4 == 1 {
                    bytes.1
                } else if k % 4 == 2 {
                    bytes.2
                } else {
                    255u8
                }
            } else {
                old(frame)@[k]
            }),
{
    let n: usize = frame.len();
    proof {
        assert(0 <= (w as int) * ((h as int) - 1 - (j as int)) && (i as int) + (w as int) * ((
        h as int) - 1 - (j as int)) <= (w as int) * (h as int) - 1 && 4 * ((w as int) * (
        h as int)) == 4 * (w as int) * (h as int)) by (nonlinear_arith)
            requires
                0 <= (i as int) < (w as int),
                0 <= (j as int) < (h as int),
        ;
        assert(4 * (w as int) * (h as int) == n as int);
    }
    let index: usize = (i as usize) + (w as usize) * ((h as usize) - (j as usize) - 1);
    let base: usize = index * 4;
    frame[base] = bytes.0;
    frame[base + 1] = bytes.1;
    frame[base + 2] = bytes.2;
    frame[base + 3] = 255;
    proof {
        assert forall|k: int| 0 <= k < frame@.len() implies frame@[k] == (if k / 4 == index as int {
            if k % 4 == 0 {
                bytes.0
            } else if k % 4 == 1 {
                bytes.1
            } else if k % 4 == 2 {
                bytes.2
            } else {
                255u8
            }
        } else {
            old(frame)@[k]
        }) by {
            vstd::arithmetic::div_mod::lemma_fundamental_div_mod(k, 4);
            if base <= k < base + 4 {
                assert(k / 4 == index as int) by (nonlinear_arith)
                    requires
                        base == 4 * (index as int),
                        base <= k < base + 4,
                        k == 4 * (k / 4) + k % 4,
                        0 <= k % 4 < 4,
                ;
            } else {
                if k / 4 == index as int {
                    assert(base <= k < base + 4) by (nonlinear_arith)
                        requires
                            base == 4 * (index as int),
                            k == 4 * (k / 4) + k % 4,
                            0 <= k % 4 < 4,
                            k / 4 == index as int,
                    ;
                }
            }
        }
    }
}

/// A pixel count on the fixed-point scale.
fn px_of(n: u32) -> (r: i64)
    ensures
        r == spec_px(n),
        0 <= r <= FX_MAX,
{
    (n as i64) * SCALE
}

/// The jitter denominator for a side of `n` pixels.
fn den_of(n: u32) -> (r: i64)
    ensures
        r == spec_den(n),
        0 < r <= FX_MAX,
{
    if n > 1 {
        px_of(n - 1)
    } else {
        SCALE
    }
}

/// The aspect ratio of a viewport.
fn aspect_of(width: u32, height: u32) -> (r: i64)
    requires
        width >= 1,
        height >= 1,
    ensures
        r == spec_aspect(width, height),
        fx_wf(r),
{
    fx_div(px_of(width), px_of(height))
}

/// Relies on `rand::random`: an arbitrary seed from the process's
/// entropy-backed generator; nothing is assumed about its value.
#[verifier::external_body]
fn random_seed() -> u64 {
    rand::random::<u64>()
}

/// Relies on rayon's `par_iter_mut().for_each`: runs the closure once on
/// every element in place, here writing zero to each byte.
#[verifier::external_body]
fn par_zero(frame: &mut Vec<u8>)
    ensures
        final(frame)@.len() == old(frame)@.len(),
        forall|k: int| 0 <= k < final(frame)@.len() ==> final(frame)@[k] == 0u8,
{
    frame.par_iter_mut().for_each(|b| *b = 0);
}

/// What one grid cell of the scattered field contributes: three draws for
/// the material choice and the jittered center, then the material's own
/// draws; a center within 0.9 of any feature sphere's center is skipped.
pub open spec fn spec_field_cell(i: int, j: int, s: u64) -> (Option<Sphere>, u64) {
    let s1 = spec_step(s);
    let mat_draw = (s1 as int % (SCALE as int)) as i64;
    let s2 = spec_step(s1);
    let u2 = (s2 as int % (SCALE as int)) as i64;
    let s3 = spec_step(s2);
    let u3 = (s3 as int % (SCALE as int)) as i64;
    let cx = fadd(((i * (SCALE as int)) as i64), fmul(900_000i64, u2));
    let cz = fadd(((j * (SCALE as int)) as i64), fmul(900_000i64, u3));
    let center = Vector { x: cx, y: 200_000i64, z: cz };
    let clear_of_glass = crate::vector::vlen(
        vsub(center, Vector { x: 0i64, y: 1_000_000i64, z: 0i64 }),
    ) > 900_000;
    let clear_of_left = crate::vector::vlen(
        vsub(center, Vector { x: -4_000_000i64, y: 1_000_000i64, z: 0i64 }),
    ) > 900_000;
    let clear_of_right = crate::vector::vlen(
        vsub(center, Vector { x: 4_000_000i64, y: 1_000_000i64, z: 0i64 }),
    ) > 900_000;
    if clear_of_glass && clear_of_left && clear_of_right {
        if mat_draw < 200_000 {
            let (c1, s4) = crate::color::spec_color_range(s3, 0, SCALE);
            let (c2, s5) = crate::color::spec_color_range(s4, 0, SCALE);
            (
                Some(
                    Sphere {
                        radius: 200_000i64,
                        center,
                        material: Material {
                            albedo: crate::color::cmul(c1, c2),
                            fuzz: 0i64,
                            mat_type: crate::material::MaterialType::Lambertian,
                            index_of_refraction: 0i64,
                        },
                    },
                ),
                s5,
            )
        } else if mat_draw < 800_000 {
            let (albedo, s4) = crate::color::spec_color_range(s3, 500_000, 1_000_000);
            let s5 = spec_step(s4);
            let f = (s5 as int % 500_000) as i64;
            (
                Some(
                    Sphere {
                        radius: 200_000i64,
                        center,
                        material: Material {
                            albedo,
                            fuzz: crate::fixed::fmin(f, SCALE),
                            mat_type: crate::material::MaterialType::Metal,
                            index_of_refraction: 0i64,
                        },
                    },
                ),
                s5,
            )
        } else {
            let (albedo, s4) = crate::color::spec_color_range(s3, 800_000, 1_000_000);
            (
                Some(
                    Sphere {
                        radius: 200_000i64,
                        center,
                        material: Material {
                            albedo,
                            fuzz: 0i64,
                            mat_type: crate::material::MaterialType::Dielectric,
                            index_of_refraction: 1_500_000i64,
                        },
                    },
                ),
                s4,
            )
        }
    } else {
        (None, s3)
    }
}

/// The cells of one grid row, from `j` to the end of the row.
pub open spec fn spec_field_row(i: int, j: int, s: u64) -> (Seq<Sphere>, u64)
    decreases 5 - j,
{
    if j >= 5 {
        (Seq::empty(), s)
    } else {
        let (cell, s1) = spec_field_cell(i, j, s);
        let (rest, s2) = spec_field_row(i, j + 1, s1);
        (
            match cell {
                Some(sp) => seq![sp] + rest,
                None => rest,
            },
            s2,
        )
    }
}

/// The scattered field: rows `i` to the end of the grid, in scan order.
pub open spec fn spec_field(i: int, s: u64) -> (Seq<Sphere>, u64)
    decreases 11 - i,
{
    if i >= 11 {
        (Seq::empty(), s)
    } else {
        let (row, s1) = spec_field_row(i, -12, s);
        let (rest, s2) = spec_field(i + 1, s1);
        (row + rest, s2)
    }
}

/// The canonical scene a sampler state determines: the four feature
/// spheres followed by the scattered field, together with the sampler
/// state left behind.
pub open spec fn spec_canonical_world(s: u64) -> (Seq<Sphere>, u64) {
    let (field, s1) = spec_field(-11, s);
    (
        seq![ground_sphere(), glass_sphere(), left_sphere(), right_sphere()] + field,
        s1,
    )
}

/// The canonical scene: a huge metal ground sphere, a glass sphere flanked
/// by two metals, and a jittered field of small spheres with randomly
/// chosen materials, skipping centers too close to any of the three
/// feature spheres.
#[verifier::rlimit(100)]
pub fn random_world(rng: &mut Rng64) -> (world: Vec<Sphere>)
    ensures
        (world@, final(rng).state) == spec_canonical_world(old(rng).state),
        world_wf(world@),
        world@.len() >= 4,
        world@[0] == ground_sphere(),
        world@[1] == glass_sphere(),
        world@[2] == left_sphere(),
        world@[3] == right_sphere(),
        forall|k: int| 4 <= k < world@.len() ==> (#[trigger] world@[k]).radius == 200_000i64,
{
    let mut world: Vec<Sphere> = Vec::new();

    let ground = Material::new_metal(Color::new(800_000, 800_000, 500_000), 200_000);
    let center_sphere = Material::new_dielectric(Color::new(800_000, 1_000_000, 800_000), 1_500_000);
    let material_left = Material::new_metal(Color::new(500_000, 500_000, 700_000), 200_000);
    let material_right = Material::new_metal(Color::new(800_000, 600_000, 200_000), 800_000);

    world.push(Sphere::new(Vector::new(0, -1_000_000_000, 0), 1_000_000_000, ground));
    world.push(Sphere::new(Vector::new(0, 1_000_000, 0), 1_000_000, center_sphere));
    world.push(Sphere::new(Vector::new(-4_000_000, 1_000_000, 0), 1_000_000, material_left));
    world.push(Sphere::new(Vector::new(4_000_000, 1_000_000, 0), 1_000_000, material_right));

    let ghost s0 = rng.state;
    proof {
        assert(world@.skip(4) + spec_field(-11, rng.state).0 =~= spec_field(-11, s0).0);
    }
    let mut i: i32 = -11;
    while i < 11
        invariant
            -11 <= i <= 11,
            world_wf(world@),
            world@.len() >= 4,
            world@[0] == ground_sphere(),
            world@[1] == glass_sphere(),
            world@[2] == left_sphere(),
            world@[3] == right_sphere(),
            forall|k: int| 4 <= k < world@.len() ==> (#[trigger] world@[k]).radius
                == 200_000i64,
            spec_field(-11, s0).0 == world@.skip(4) + spec_field(i as int, rng.state).0,
            spec_field(-11, s0).1 == spec_field(i as int, rng.state).1,
        decreases 11 - i,
    {
        let ghost row_state = rng.state;
        let ghost pre_world = world@;
        proof {
            assert(pre_world.skip(pre_world.len() as int) + spec_field_row(
                i as int,
                -12,
                row_state,
            ).0 =~= spec_field_row(i as int, -12, row_state).0);
        }
        let mut j: i32 = -12;
        while j < 5
            invariant
                -12 <= j <= 5,
                -11 <= i < 11,
                world_wf(world@),
                world@.len() >= 4,
                world@[0] == ground_sphere(),
                world@[1] == glass_sphere(),
                world@[2] == left_sphere(),
                world@[3] == right_sphere(),
                forall|k: int| 4 <= k < world@.len() ==> (#[trigger] world@[k]).radius
                    == 200_000i64,
                4 <= pre_world.len() <= world@.len(),
                world@.subrange(0, pre_world.len() as int) == pre_world,
                spec_field_row(i as int, -12, row_state).0 == world@.skip(
                    pre_world.len() as int,
                ) + spec_field_row(i as int, j as int, rng.state).0,
                spec_field_row(i as int, -12, row_state).1 == spec_field_row(
                    i as int,
                    j as int,
                    rng.state,
                ).1,
            decreases 5 - j,
        {
            let ghost cell_state = rng.state;
            let ghost before = world@;
            let mat_draw = rng.next_unit();
            let cx = fx_add((i as i64) * SCALE, fx_mul(900_000, rng.next_unit()));
            let cz = fx_add((j as i64) * SCALE, fx_mul(900_000, rng.next_unit()));
            let center = Vector::new(cx, 200_000, cz);
            let clear_of_glass = center.sub(Vector::new(0, 1_000_000, 0)).length() > 900_000;
            let clear_of_left = center.sub(Vector::new(-4_000_000, 1_000_000, 0)).length()
                > 900_000;
            let clear_of_right = center.sub(Vector::new(4_000_000, 1_000_000, 0)).length()
                > 900_000;
            if clear_of_glass && clear_of_left && clear_of_right {
                let material: Material;
                if mat_draw < 200_000 {
                    let a = Color::random(rng);
                    let b = Color::random(rng);
                    material = Material::new_lambertian(a.mul(b));
                } else if mat_draw < 800_000 {
                    let albedo = Color::random_range(rng, 500_000, 1_000_000);
                    let fuzz = rng.next_range(0, 500_000);
                    material = Material::new_metal(albedo, fuzz);
                } else {
                    let albedo = Color::random_range(rng, 800_000, 1_000_000);
                    material = Material::new_dielectric(albedo, 1_500_000);
                }
                let sphere = Sphere::new(center, 200_000, material);
                world.push(sphere);
                proof {
                    assert(spec_field_cell(i as int, j as int, cell_state) == (
                        Some(sphere),
                        rng.state,
                    ));
                    assert(world@.skip(pre_world.len() as int) =~= before.skip(
                        pre_world.len() as int,
                    ) + seq![sphere]);
                    assert(before.skip(pre_world.len() as int) + (seq![sphere]
                        + spec_field_row(i as int, j + 1, rng.state).0) =~= (before.skip(
                        pre_world.len() as int,
                    ) + seq![sphere]) + spec_field_row(i as int, j + 1, rng.state).0);
                    assert(world@.subrange(0, pre_world.len() as int) =~= pre_world);
                }
            } else {
                proof {
                    assert(spec_field_cell(i as int, j as int, cell_state) == (
                        None::<Sphere>,
                        rng.state,
                    ));
                }
            }
            j = j + 1;
        }
        proof {
            assert(world@.skip(4) =~= pre_world.skip(4) + world@.skip(pre_world.len() as int));
            assert(pre_world.skip(4) + (world@.skip(pre_world.len() as int) + spec_field(
                i + 1,
                rng.state,
            ).0) =~= (pre_world.skip(4) + world@.skip(pre_world.len() as int)) + spec_field(
                i + 1,
                rng.state,
            ).0);
        }
        i = i + 1;
    }
    proof {
        assert(spec_field(-11, s0).0 =~= world@.skip(4));
        assert(world@ =~= seq![
            ground_sphere(),
            glass_sphere(),
            left_sphere(),
            right_sphere(),
        ] + world@.skip(4));
    }
    world
}

/// The ground sphere of the canonical scene.
pub open spec fn ground_sphere() -> Sphere {
    Sphere {
        radius: 1_000_000_000i64,
        center: Vector { x: 0i64, y: -1_000_000_000i64, z: 0i64 },
        material: Material {
            albedo: Color { r: 800_000i64, g: 800_000i64, b: 500_000i64 },
            fuzz: 200_000i64,
            mat_type: crate::material::MaterialType::Metal,
            index_of_refraction: 0i64,
        },
    }
}

/// The glass sphere of the canonical scene.
pub open spec fn glass_sphere() -> Sphere {
    Sphere {
        radius: 1_000_000i64,
        center: Vector { x: 0i64, y: 1_000_000i64, z: 0i64 },
        material: Material {
            albedo: Color { r: 800_000i64, g: 1_000_000i64, b: 800_000i64 },
            fuzz: 0i64,
            mat_type: crate::material::MaterialType::Dielectric,
            index_of_refraction: 1_500_000i64,
        },
    }
}

/// The left metal sphere of the canonical scene.
pub open spec fn left_sphere() -> Sphere {
    Sphere {
        radius: 1_000_000i64,
        center: Vector { x: -4_000_000i64, y: 1_000_000i64, z: 0i64 },
        material: Material {
            albedo: Color { r: 500_000i64, g: 500_000i64, b: 700_000i64 },
            fuzz: 200_000i64,
            mat_type: crate::material::MaterialType::Metal,
            index_of_refraction: 0i64,
        },
    }
}

/// The right metal sphere of the canonical scene.
pub open spec fn right_sphere() -> Sphere {
    Sphere {
        radius: 1_000_000i64,
        center: Vector { x: 4_000_000i64, y: 1_000_000i64, z: 0i64 },
        material: Material {
            albedo: Color { r: 800_000i64, g: 600_000i64, b: 200_000i64 },
            fuzz: 800_000i64,
            mat_type: crate::material::MaterialType::Metal,
            index_of_refraction: 0i64,
        },
    }
}

} // verus!
