//! Particle bursts: a fixed set of short-lived particle bodies created at an
//! impact point and destroyed together when their lifetime runs out.
use crate::physics::{in_world, BodyHandle, BodyInfo, Command, ObjectData, Physics, Point, Rgb};
use crate::random::random_between;
use vstd::prelude::*;

verus! {

/// Lifetime of a burst, in milliseconds.
pub const LIFETIME_MS: i64 = 2000;

/// Largest speed of a particle on either axis, in units per second.
pub const PARTICLE_JUICE: i64 = 300;

/// Handles handed out one after another: `s[k] == s[0] + k`.
pub open spec fn contiguous(s: Seq<BodyHandle>) -> bool {
    forall|k: int| 0 <= k < s.len() ==> #[trigger] s[k] == s[0] + k
}

/// Width and height given to a particle's body.
pub const PARTICLE_SIZE: u16 = 4;

/// One particle's random draw: where it starts, how it moves, and the green
/// channel of its colour.
#[derive(Clone, Copy, Debug, PartialEq, Eq, Structural)]
pub struct ParticleDraw {
    pub position: Point,
    pub velocity: Point,
    pub green: u8,
}

/// The draw lies in the box from `min` to `max` and moves at most
/// `PARTICLE_JUICE` on each axis.
pub open spec fn draw_ok(d: ParticleDraw, min: Point, max: Point) -> bool {
    &&& min.x <= d.position.x <= max.x && min.y <= d.position.y <= max.y
    &&& -PARTICLE_JUICE <= d.velocity.x <= PARTICLE_JUICE
    &&& -PARTICLE_JUICE <= d.velocity.y <= PARTICLE_JUICE
}

/// The command that creates particle `h` from draw `d`.
pub open spec fn particle_command(h: BodyHandle, d: ParticleDraw) -> Command {
    Command::Create {
        handle: h,
        data: ObjectData::Particle(Rgb { r: 255, g: d.green, b: 0 }),
        position: d.position,
        width: PARTICLE_SIZE,
        height: PARTICLE_SIZE,
        velocity: d.velocity,
    }
}

/// The commands that destroy `hs`, in order.
pub open spec fn destroy_commands(hs: Seq<BodyHandle>) -> Seq<Command> {
    hs.map_values(|h: BodyHandle| Command::Destroy { handle: h })
}

/// `c` creates particle `h`: a particle body inside the box from `min` to
/// `max`, orange to red, moving at most `PARTICLE_JUICE` on each axis.
pub open spec fn creates_particle(c: Command, h: BodyHandle, min: Point, max: Point) -> bool {
    &&& c matches Command::Create { handle, data, position, velocity, .. }
    &&& handle == h
    &&& data matches ObjectData::Particle(colour)
    &&& colour.r == 255 && colour.b == 0
    &&& min.x <= position.x <= max.x && min.y <= position.y <= max.y
    &&& -PARTICLE_JUICE <= velocity.x <= PARTICLE_JUICE
    &&& -PARTICLE_JUICE <= velocity.y <= PARTICLE_JUICE
}

/// One update of a burst that owns `handles` with `remaining` milliseconds to
/// live, `delta` milliseconds after the last: the handles it still owns, the
/// time it has left, the handles it destroys now, and whether it is finished.
pub open spec fn particle_step(handles: Seq<BodyHandle>, remaining: int, delta: int) -> (
    Seq<BodyHandle>,
    int,
    Seq<BodyHandle>,
    bool,
) {
    if remaining <= 0 {
        (handles, remaining, Seq::empty(), true)
    } else if remaining - delta <= 0 {
        (Seq::empty(), remaining - delta, handles, true)
    } else {
        (handles, remaining - delta, Seq::empty(), false)
    }
}

/// The sum of the deltas.
pub open spec fn total(deltas: Seq<int>) -> int
    decreases deltas.len(),
{
    if deltas.len() == 0 {
        0
    } else {
        total(deltas.drop_last()) + deltas.last()
    }
}

/// The handles destroyed over a run of updates with the given deltas, in order.
pub open spec fn destroyed_over(handles: Seq<BodyHandle>, remaining: int, deltas: Seq<int>) -> Seq<
    BodyHandle,
>
    decreases deltas.len(),
{
    if deltas.len() == 0 {
        Seq::empty()
    } else {
        let s = particle_step(handles, remaining, deltas[0]);
        s.2 + destroyed_over(s.0, s.1, deltas.drop_first())
    }
}

proof fn lemma_total_first(deltas: Seq<int>)
    requires
        deltas.len() > 0,
    ensures
        total(deltas) == deltas[0] + total(deltas.drop_first()),
    decreases deltas.len(),
{
    if deltas.len() > 1 {
        lemma_total_first(deltas.drop_last());
        assert(deltas.drop_last().drop_first() == deltas.drop_first().drop_last());
        assert(deltas.drop_first().last() == deltas.last());
        assert(deltas.drop_last()[0] == deltas[0]);
        assert(total(deltas) == total(deltas.drop_last()) + deltas.last());
        assert(total(deltas.drop_first()) == total(deltas.drop_first().drop_last())
            + deltas.drop_first().last());
    } else {
        assert(deltas.drop_first().len() == 0);
        assert(deltas.drop_last().len() == 0);
        assert(total(deltas) == total(deltas.drop_last()) + deltas.last());
        assert(total(deltas.drop_first()) == 0);
    }
}

/// Over any run of updates, a burst with time left destroys every one of its
/// bodies exactly once if the elapsed time reaches its lifetime, and none
/// before; finished bursts destroy nothing more.
pub proof fn lemma_burst_destroys_each_body_once(
    handles: Seq<BodyHandle>,
    remaining: int,
    deltas: Seq<int>,
)
    requires
        remaining > 0,
        contiguous(handles),
        forall|k: int| 0 <= k < deltas.len() ==> #[trigger] deltas[k] >= 0,
    ensures
        destroyed_over(handles, remaining, deltas) == (if total(deltas) >= remaining {
            handles
        } else {
            Seq::<BodyHandle>::empty()
        }),
        destroyed_over(handles, remaining, deltas).no_duplicates(),
    decreases deltas.len(),
{
    lemma_destroyed_in_order(handles, remaining, deltas);
    assert(handles.no_duplicates()) by {
        assert forall|i: int, j: int|
            0 <= i < handles.len() && 0 <= j < handles.len() && i != j implies handles[i]
            != handles[j] by {
            assert(handles[i] == handles[0] + i);
            assert(handles[j] == handles[0] + j);
        }
    }
}

proof fn lemma_destroyed_in_order(handles: Seq<BodyHandle>, remaining: int, deltas: Seq<int>)
    requires
        remaining > 0,
        forall|k: int| 0 <= k < deltas.len() ==> #[trigger] deltas[k] >= 0,
    ensures
        destroyed_over(handles, remaining, deltas) == (if total(deltas) >= remaining {
            handles
        } else {
            Seq::<BodyHandle>::empty()
        }),
    decreases deltas.len(),
{
    if deltas.len() > 0 {
        lemma_total_first(deltas);
        let rest = deltas.drop_first();
        assert forall|k: int| 0 <= k < rest.len() implies #[trigger] rest[k] >= 0 by {
            assert(rest[k] == deltas[k + 1]);
        }
        lemma_total_nonneg(rest);
        if remaining - deltas[0] <= 0 {
            lemma_finished_destroys_nothing(remaining - deltas[0], rest);
            assert(handles + Seq::<BodyHandle>::empty() == handles);
        } else {
            lemma_destroyed_in_order(handles, remaining - deltas[0], rest);
            assert(Seq::<BodyHandle>::empty() + destroyed_over(handles, remaining - deltas[0], rest)
                == destroyed_over(handles, remaining - deltas[0], rest));
        }
    }
}

proof fn lemma_total_nonneg(deltas: Seq<int>)
    requires
        forall|k: int| 0 <= k < deltas.len() ==> #[trigger] deltas[k] >= 0,
    ensures
        total(deltas) >= 0,
    decreases deltas.len(),
{
    if deltas.len() > 0 {
        let d = deltas.drop_last();
        assert forall|k: int| 0 <= k < d.len() implies #[trigger] d[k] >= 0 by {
            assert(d[k] == deltas[k]);
        }
        lemma_total_nonneg(d);
    }
}

/// Once a burst has run out of time, further updates destroy nothing.
proof fn lemma_finished_destroys_nothing(remaining: int, deltas: Seq<int>)
    requires
        remaining <= 0,
    ensures
        destroyed_over(Seq::empty(), remaining, deltas) == Seq::<BodyHandle>::empty(),
    decreases deltas.len(),
{
    if deltas.len() > 0 {
        lemma_finished_destroys_nothing(remaining, deltas.drop_first());
    }
}

/// A burst of particle bodies with a countdown.
pub struct ParticleSystem {
    particles: Vec<BodyHandle>,
    lifetime: i64,
}

impl ParticleSystem {
    /// The particle bodies the burst still owns.
    pub closed spec fn handles(&self) -> Seq<BodyHandle> {
        self.particles@
    }

    /// Milliseconds left to live.
    pub closed spec fn remaining(&self) -> int {
        self.lifetime as int
    }

    /// The burst's own invariant: contiguous handles, and a countdown that
    /// stopped once it reached zero or below.
    pub open spec fn wf(&self) -> bool {
        &&& contiguous(self.handles())
        &&& self.remaining() <= LIFETIME_MS
        &&& self.remaining() >= -(u32::MAX as int)
        &&& self.remaining() <= 0 ==> self.handles().len() == 0
    }

    /// Every owned body is a live particle among `live`.
    pub open spec fn owned_in(&self, live: Map<BodyHandle, BodyInfo>) -> bool {
        forall|k: int|
            0 <= k < self.handles().len() ==> {
                &&& #[trigger] live.contains_key(self.handles()[k])
                &&& live[self.handles()[k]].data is Particle
            }
    }

    /// The particle bodies the burst still owns.
    pub fn particle_handles(&self) -> (r: Vec<BodyHandle>)
        ensures
            r@ == self.handles(),
    {
        let mut out: Vec<BodyHandle> = Vec::new();
        let mut i: usize = 0;
        while i < self.particles.len()
            invariant
                i <= self.particles@.len(),
                out@ == self.particles@.take(i as int),
            decreases self.particles@.len() - i,
        {
            out.push(self.particles[i]);
            assert(self.particles@.take(i as int + 1) == self.particles@.take(i as int).push(
                self.particles@[i as int],
            ));
            i = i + 1;
        }
        assert(self.particles@.take(self.particles@.len() as int) == self.particles@);
        out
    }

    /// Milliseconds left to live.
    pub fn remaining_ms(&self) -> (r: i64)
        ensures
            r == self.remaining(),
    {
        self.lifetime
    }

    /// Creates one particle body per draw, in order: at the draw's position,
    /// with its velocity, coloured red-orange by its green channel.
    pub fn spawn(physics: &mut Physics, draws: &Vec<ParticleDraw>) -> (r: ParticleSystem)
        requires
            old(physics).wf(),
            old(physics).can_create(draws@.len()),
            forall|k: int| 0 <= k < draws@.len() ==> in_world(#[trigger] draws@[k].position),
        ensures
            r.wf(),
            r.owned_in(final(physics).live()),
            r.remaining() == LIFETIME_MS,
            r.handles().len() == draws@.len(),
            r.handles().len() > 0 ==> r.handles()[0] == old(physics).next(),
            final(physics).wf(),
            final(physics).next() == old(physics).next() + draws@.len(),
            forall|h: BodyHandle| #[trigger]
                final(physics).live().contains_key(h) <==> old(physics).live().contains_key(h)
                    || old(physics).next() <= h < old(physics).next() + draws@.len(),
            forall|h: BodyHandle| #[trigger]
                old(physics).live().contains_key(h) ==> final(physics).live()[h] == old(
                    physics,
                ).live()[h],
            final(physics).pending().len() == old(physics).pending().len() + draws@.len(),
            final(physics).pending().take(old(physics).pending().len() as int) == old(
                physics,
            ).pending(),
            forall|k: int|
                0 <= k < draws@.len() ==> #[trigger] final(physics).pending()[old(
                    physics,
                ).pending().len() + k] == particle_command(
                    (old(physics).next() + k) as BodyHandle,
                    draws@[k],
                ),
    {
        let mut particles: Vec<BodyHandle> = Vec::new();
        let mut i: usize = 0;
        while i < draws.len()
            invariant
                i <= draws@.len(),
                physics.wf(),
                physics.next() == old(physics).next() + i,
                old(physics).can_create(draws@.len()),
                forall|k: int| 0 <= k < draws@.len() ==> in_world(#[trigger] draws@[k].position),
                particles@.len() == i,
                forall|k: int| 0 <= k < i ==> #[trigger] particles@[k] == old(physics).next() + k,
                forall|k: int|
                    0 <= k < i ==> {
                        &&& #[trigger] physics.live().contains_key(particles@[k])
                        &&& physics.live()[particles@[k]].data is Particle
                    },
                forall|h: BodyHandle| #[trigger]
                    physics.live().contains_key(h) <==> old(physics).live().contains_key(h)
                        || old(physics).next() <= h < old(physics).next() + i,
                forall|h: BodyHandle| #[trigger]
                    old(physics).live().contains_key(h) ==> physics.live()[h] == old(
                        physics,
                    ).live()[h],
                physics.pending().len() == old(physics).pending().len() + i,
                physics.pending().take(old(physics).pending().len() as int) == old(
                    physics,
                ).pending(),
                forall|k: int|
                    0 <= k < i ==> #[trigger] physics.pending()[old(physics).pending().len() + k]
                        == particle_command((old(physics).next() + k) as BodyHandle, draws@[k]),
            decreases draws@.len() - i,
        {
            let d = draws[i];
            let data = ObjectData::Particle(Rgb { r: 255, g: d.green, b: 0 });
            let ghost before = physics.pending();
            let ghost live_before = physics.live();
            assert(in_world(draws@[i as int].position));
            let handle = physics.create_body(data, d.position, PARTICLE_SIZE, PARTICLE_SIZE, d.velocity);
            particles.push(handle);
            assert(physics.pending().take(old(physics).pending().len() as int) == before.take(
                old(physics).pending().len() as int,
            ));
            assert forall|k: int| 0 <= k < i + 1 implies {
                &&& #[trigger] physics.live().contains_key(particles@[k])
                &&& physics.live()[particles@[k]].data is Particle
            } by {
                if k < i {
                    assert(live_before.contains_key(particles@[k]));
                }
            }
            i = i + 1;
        }
        ParticleSystem { particles, lifetime: LIFETIME_MS }
    }

    /// Creates `amount` particle bodies at random places in the box from
    /// `min` to `max`, with random velocities and colours (see `spawn`).
    pub fn new(physics: &mut Physics, amount: usize, min: Point, max: Point) -> (r: ParticleSystem)
        requires
            old(physics).wf(),
            old(physics).can_create(amount as nat),
            in_world(min),
            in_world(max),
            min.x <= max.x,
            min.y <= max.y,
        ensures
            r.wf(),
            r.owned_in(final(physics).live()),
            r.remaining() == LIFETIME_MS,
            r.handles().len() == amount,
            r.handles().len() > 0 ==> r.handles()[0] == old(physics).next(),
            final(physics).wf(),
            final(physics).next() == old(physics).next() + amount,
            forall|h: BodyHandle| #[trigger]
                final(physics).live().contains_key(h) <==> old(physics).live().contains_key(h)
                    || old(physics).next() <= h < old(physics).next() + amount,
            forall|h: BodyHandle| #[trigger]
                old(physics).live().contains_key(h) ==> final(physics).live()[h] == old(
                    physics,
                ).live()[h],
            final(physics).pending().len() == old(physics).pending().len() + amount,
            final(physics).pending().take(old(physics).pending().len() as int) == old(
                physics,
            ).pending(),
            forall|k: int|
                0 <= k < amount ==> creates_particle(
                    #[trigger] final(physics).pending()[old(physics).pending().len() + k],
                    (old(physics).next() + k) as BodyHandle,
                    min,
                    max,
                ),
    {
        let mut draws: Vec<ParticleDraw> = Vec::new();
        let mut i: usize = 0;
        while i < amount
            invariant
                i <= amount,
                in_world(min),
                in_world(max),
                min.x <= max.x,
                min.y <= max.y,
                draws@.len() == i,
                forall|k: int| 0 <= k < i ==> draw_ok(#[trigger] draws@[k], min, max),
            decreases amount - i,
        {
            let position = Point {
                x: random_between(min.x, max.x),
                y: random_between(min.y, max.y),
            };
            let velocity = Point {
                x: random_between(-PARTICLE_JUICE, PARTICLE_JUICE),
                y: random_between(-PARTICLE_JUICE, PARTICLE_JUICE),
            };
            let green = random_between(0, 254) as u8;
            draws.push(ParticleDraw { position, velocity, green });
            i = i + 1;
        }
        let r = ParticleSystem::spawn(physics, &draws);
        assert forall|k: int| 0 <= k < amount implies creates_particle(
            #[trigger] physics.pending()[old(physics).pending().len() + k],
            (old(physics).next() + k) as BodyHandle,
            min,
            max,
        ) by {
            assert(draw_ok(draws@[k], min, max));
        }
        r
    }

    /// Counts down by `delta_ms`; at the update where the time left first
    /// reaches zero or below, destroys every owned body and reports that the
    /// burst is finished. Updates after that change nothing and report
    /// finished again.
    pub fn update(&mut self, physics: &mut Physics, delta_ms: u32) -> (finished: bool)
        requires
            old(self).wf(),
            old(self).owned_in(old(physics).live()),
            old(physics).wf(),
        ensures
            final(self).wf(),
            final(self).owned_in(final(physics).live()),
            final(physics).wf(),
            ({
                let s = particle_step(old(self).handles(), old(self).remaining(), delta_ms as int);
                &&& final(self).handles() == s.0
                &&& final(self).remaining() == s.1
                &&& finished == s.3
                &&& final(physics).live() == old(physics).live().remove_keys(s.2.to_set())
                &&& final(physics).pending() == old(physics).pending() + destroy_commands(s.2)
            }),
            final(physics).next() == old(physics).next(),
    {
        if self.lifetime <= 0 {
            assert(old(physics).live().remove_keys(Seq::<BodyHandle>::empty().to_set()) == old(
                physics,
            ).live());
            assert(old(physics).pending() + destroy_commands(Seq::<BodyHandle>::empty()) == old(
                physics,
            ).pending());
            return true;
        }
        self.lifetime = self.lifetime - delta_ms as i64;
        if self.lifetime > 0 {
            assert(old(physics).live().remove_keys(Seq::<BodyHandle>::empty().to_set()) == old(
                physics,
            ).live());
            assert(old(physics).pending() + destroy_commands(Seq::<BodyHandle>::empty()) == old(
                physics,
            ).pending());
            return false;
        }
        let ghost hs = self.particles@;
        let mut i: usize = 0;
        while i < self.particles.len()
            invariant
                hs == self.particles@,
                contiguous(hs),
                i <= hs.len(),
                physics.wf(),
                physics.next() == old(physics).next(),
                forall|k: int|
                    0 <= k < hs.len() ==> {
                        &&& #[trigger] old(physics).live().contains_key(hs[k])
                        &&& old(physics).live()[hs[k]].data is Particle
                    },
                physics.live() == old(physics).live().remove_keys(hs.take(i as int).to_set()),
                physics.pending() == old(physics).pending() + destroy_commands(hs.take(i as int)),
            decreases hs.len() - i,
        {
            let h = self.particles[i];
            assert(!hs.take(i as int).to_set().contains(h)) by {
                if hs.take(i as int).to_set().contains(h) {
                    let j = choose|j: int| 0 <= j < i && hs.take(i as int)[j] == h;
                    assert(hs[j] == h);
                }
            }
            physics.destroy_body(h);
            assert(hs.take(i as int + 1) == hs.take(i as int).push(h));
            proof {
                hs.take(i as int).lemma_push_to_set_commute(h);
            }
            assert(destroy_commands(hs.take(i as int + 1)) == destroy_commands(
                hs.take(i as int),
            ).push(Command::Destroy { handle: h }));
            i = i + 1;
        }
        assert(hs.take(hs.len() as int) == hs);
        self.particles = Vec::new();
        true
    }
}

} // verus!
