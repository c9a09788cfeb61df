//! The camera that follows the player, and the shake applied to it after an
//! explosion.
use crate::physics::Point;
use crate::random::random_between;
use vstd::prelude::*;

verus! {

/// Number of 0.1 s shake steps in one second: a shake lasts this long.
pub const SHAKE_STEPS: u32 = 10;

/// `v` clamped to the range of `i64`.
pub open spec fn clamp_i64(v: int) -> i64 {
    if v < i64::MIN {
        i64::MIN
    } else if v > i64::MAX {
        i64::MAX
    } else {
        v as i64
    }
}

/// `p` moved by `d`, each coordinate clamped to the range of `i64`.
pub open spec fn moved(p: Point, d: Point) -> Point {
    Point { x: clamp_i64(p.x + d.x), y: clamp_i64(p.y + d.y) }
}

/// Both coordinates of `d` lie in `[-m, m]`.
pub open spec fn within(d: Point, m: i64) -> bool {
    -m <= d.x <= m && -m <= d.y <= m
}

fn add_clamped(a: i64, b: i64) -> (r: i64)
    ensures
        r == clamp_i64(a + b),
{
    if b > 0 && a > i64::MAX - b {
        i64::MAX
    } else if b < 0 && a < i64::MIN - b {
        i64::MIN
    } else {
        a + b
    }
}

/// The camera's location in the world.
pub struct Camera {
    location: Point,
}

impl Camera {
    /// The location the camera looks at.
    pub closed spec fn at(&self) -> Point {
        self.location
    }

    /// A camera looking at `location`.
    pub fn new(location: Point) -> (r: Camera)
        ensures
            r.at() == location,
    {
        Camera { location }
    }

    /// The location the camera looks at.
    pub fn location(&self) -> (r: Point)
        ensures
            r == self.at(),
    {
        self.location
    }

    /// Points the camera at `location`.
    pub fn move_to(&mut self, location: Point)
        ensures
            final(self).at() == location,
    {
        self.location = location;
    }

    /// Moves the camera by `d`, saturating at the range of `i64`.
    pub fn move_by(&mut self, d: Point)
        ensures
            final(self).at() == moved(old(self).at(), d),
    {
        let x = add_clamped(self.location.x, d.x);
        let y = add_clamped(self.location.y, d.y);
        self.location = Point { x, y };
    }
}

/// An active shake: steps taken so far, the location to return to, and the
/// largest offset of one step.
#[derive(Clone, Copy, Debug, PartialEq, Eq, Structural)]
pub struct CameraShake {
    pub elapsed: u32,
    pub original: Point,
    pub magnitude: i64,
}

/// One tick of the shake state machine, with `d` the random offset of the
/// tick: while fewer than `SHAKE_STEPS` steps were taken the camera moves by
/// `d`; after that it snaps back to where the shake began and the shake ends.
pub open spec fn shake_tick(state: Option<CameraShake>, camera: Point, d: Point) -> (Option<
    CameraShake,
>, Point) {
    match state {
        None => (None, camera),
        Some(s) => if s.elapsed < SHAKE_STEPS {
            (Some(CameraShake { elapsed: (s.elapsed + 1) as u32, ..s }), moved(camera, d))
        } else {
            (None, s.original)
        },
    }
}

/// Ticks in turn, the camera standing at `cameras[k]` when tick `k` begins
/// and the tick drawing offset `offsets[k]`; the state and camera after the
/// last tick.
pub open spec fn run_ticks(
    state: Option<CameraShake>,
    cameras: Seq<Point>,
    offsets: Seq<Point>,
) -> (Option<CameraShake>, Point)
    decreases cameras.len(),
{
    if cameras.len() <= 1 {
        shake_tick(state, cameras[0], offsets[0])
    } else {
        run_ticks(
            shake_tick(state, cameras[0], offsets[0]).0,
            cameras.drop_first(),
            offsets.drop_first(),
        )
    }
}

/// One shake step never moves the camera by more than the magnitude on
/// either axis.
pub proof fn lemma_shake_step_bounded(s: CameraShake, camera: Point, d: Point)
    requires
        s.elapsed < SHAKE_STEPS,
        0 <= s.magnitude,
        within(d, s.magnitude),
    ensures
        ({
            let after = shake_tick(Some(s), camera, d).1;
            &&& -s.magnitude <= after.x - camera.x <= s.magnitude
            &&& -s.magnitude <= after.y - camera.y <= s.magnitude
        }),
{
}

/// Once a shake has begun, whatever the offsets drawn and wherever the camera
/// is moved in between, the tick that follows the last of the `SHAKE_STEPS`
/// steps leaves the camera exactly where the shake began, and the shake over.
pub proof fn lemma_shake_settles(s: CameraShake, cameras: Seq<Point>, offsets: Seq<Point>)
    requires
        s.elapsed <= SHAKE_STEPS,
        cameras.len() == SHAKE_STEPS + 1 - s.elapsed,
        offsets.len() == cameras.len(),
    ensures
        run_ticks(Some(s), cameras, offsets) == (None::<CameraShake>, s.original),
    decreases cameras.len(),
{
    if cameras.len() > 1 {
        let next = CameraShake { elapsed: (s.elapsed + 1) as u32, ..s };
        assert(shake_tick(Some(s), cameras[0], offsets[0]).0 == Some(next));
        lemma_shake_settles(next, cameras.drop_first(), offsets.drop_first());
    }
}

/// The shake applied to the camera after an explosion.
pub struct CameraFeedback {
    shake: Option<CameraShake>,
}

impl CameraFeedback {
    /// The active shake, if any.
    pub closed spec fn state(&self) -> Option<CameraShake> {
        self.shake
    }

    /// The shake has taken at most `SHAKE_STEPS` steps and has a magnitude in range.
    pub open spec fn wf(&self) -> bool {
        match self.state() {
            None => true,
            Some(s) => s.elapsed <= SHAKE_STEPS && 0 <= s.magnitude,
        }
    }

    /// No shake.
    pub fn new() -> (r: CameraFeedback)
        ensures
            r.wf(),
            r.state() == None::<CameraShake>,
    {
        CameraFeedback { shake: None }
    }

    /// The active shake, if any.
    pub fn shake_state(&self) -> (r: Option<CameraShake>)
        ensures
            r == self.state(),
    {
        self.shake
    }

    /// Whether a shake is active.
    pub fn is_shaking(&self) -> (r: bool)
        ensures
            r == self.state() is Some,
    {
        self.shake.is_some()
    }

    /// Starts a shake of `magnitude` from where the camera is now, replacing
    /// any shake in progress, and takes its first step, by `d`.
    pub fn trigger_with(&mut self, camera: &mut Camera, magnitude: i64, d: Point)
        requires
            0 <= magnitude,
            within(d, magnitude),
        ensures
            final(self).wf(),
            final(self).state() == Some(
                CameraShake { elapsed: 1, original: old(camera).at(), magnitude },
            ),
            final(camera).at() == moved(old(camera).at(), d),
    {
        self.shake = Some(CameraShake { elapsed: 0, original: camera.location(), magnitude });
        self.update_with(camera, d);
    }

    /// Starts a shake of `magnitude` from where the camera is now, replacing
    /// any shake in progress, and takes its first step by a random offset.
    pub fn trigger(&mut self, camera: &mut Camera, magnitude: i64)
        requires
            0 <= magnitude,
        ensures
            final(self).wf(),
            final(self).state() == Some(
                CameraShake { elapsed: 1, original: old(camera).at(), magnitude },
            ),
            exists|d: Point|
                within(d, magnitude) && final(camera).at() == moved(old(camera).at(), d),
    {
        let d = Point {
            x: random_between(-magnitude, magnitude),
            y: random_between(-magnitude, magnitude),
        };
        self.trigger_with(camera, magnitude, d);
    }

    /// One tick with offset `d`: see `shake_tick`.
    pub fn update_with(&mut self, camera: &mut Camera, d: Point)
        requires
            old(self).wf(),
            old(self).state() matches Some(s) ==> within(d, s.magnitude),
        ensures
            final(self).wf(),
            (final(self).state(), final(camera).at()) == shake_tick(
                old(self).state(),
                old(camera).at(),
                d,
            ),
    {
        match self.shake {
            None => {},
            Some(s) => {
                if s.elapsed < SHAKE_STEPS {
                    camera.move_by(d);
                    self.shake = Some(CameraShake { elapsed: s.elapsed + 1, ..s });
                } else {
                    camera.move_to(s.original);
                    self.shake = None;
                }
            },
        }
    }

    /// One tick with a random offset within the shake's magnitude.
    pub fn update(&mut self, camera: &mut Camera)
        requires
            old(self).wf(),
        ensures
            final(self).wf(),
            exists|d: Point|
                (old(self).state() matches Some(s) ==> within(d, s.magnitude)) && (
                final(self).state(),
                final(camera).at(),
            ) == shake_tick(old(self).state(), old(camera).at(), d),
    {
        let m: i64 = match self.shake {
            None => 0,
            Some(s) => s.magnitude,
        };
        let d = Point { x: random_between(-m, m), y: random_between(-m, m) };
        self.update_with(camera, d);
    }
}

} // verus!
