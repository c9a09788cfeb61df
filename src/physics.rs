//! The gameplay side of the physics world.
//!
//! The rigid-body engine itself (integration, contact detection, ray casts)
//! runs outside the library. This module keeps the registry of live bodies,
//! each tagged with its `ObjectData` category and the position the engine
//! last reported, and it records every change the gameplay logic asks of the
//! engine as a `Command`, which the driver drains and applies once per tick.
use vstd::prelude::*;

verus! {

broadcast use vstd::std_specs::hash::group_hash_axioms;

/// Opaque reference to one body of the physics world. Handles are handed out
/// in increasing order and never reused.
pub type BodyHandle = u64;

/// Largest absolute coordinate that a position or a velocity of the world may take.
pub const WORLD_LIMIT: i64 = 1_000_000_000;

/// A point (or a vector) in whole world units.
#[derive(Clone, Copy, Debug, PartialEq, Eq, Structural)]
pub struct Point {
    pub x: i64,
    pub y: i64,
}

/// Whether both coordinates lie within the world's bounds.
pub open spec fn in_world(p: Point) -> bool {
    -WORLD_LIMIT <= p.x <= WORLD_LIMIT && -WORLD_LIMIT <= p.y <= WORLD_LIMIT
}

/// A colour, one byte per channel.
#[derive(Clone, Copy, Debug, PartialEq, Eq, Structural)]
pub struct Rgb {
    pub r: u8,
    pub g: u8,
    pub b: u8,
}

/// The category attached to every body at creation time.
#[derive(Clone, Copy, Debug, PartialEq, Eq, Structural)]
pub enum ObjectData {
    Ground,
    Player,
    Enemy,
    Bullet,
    Barrel,
    Particle(Rgb),
}

impl ObjectData {
    /// The colour of a particle body.
    pub fn get_particle_data(&self) -> (r: Rgb)
        requires
            *self is Particle,
        ensures
            r == self->Particle_0,
    {
        match *self {
            ObjectData::Particle(colour) => colour,
            ObjectData::Ground => Rgb { r: 0, g: 0, b: 0 },
            ObjectData::Player => Rgb { r: 0, g: 0, b: 0 },
            ObjectData::Enemy => Rgb { r: 0, g: 0, b: 0 },
            ObjectData::Bullet => Rgb { r: 0, g: 0, b: 0 },
            ObjectData::Barrel => Rgb { r: 0, g: 0, b: 0 },
        }
    }
}

/// What the registry knows of one live body.
#[derive(Clone, Copy, Debug, PartialEq, Eq, Structural)]
pub struct BodyInfo {
    pub data: ObjectData,
    pub position: Point,
}

/// A change that the engine has to carry out on its side.
#[derive(Clone, Copy, Debug, PartialEq, Eq, Structural)]
pub enum Command {
    /// Insert a body with a box collider of the given size (particles use a ball).
    Create {
        handle: BodyHandle,
        data: ObjectData,
        position: Point,
        width: u16,
        height: u16,
        velocity: Point,
    },
    /// Replace the linear velocity of a body.
    SetVelocity { handle: BodyHandle, velocity: Point },
    /// Add to the linear velocity of a body.
    AddVelocity { handle: BodyHandle, delta: Point },
    /// Move a body.
    SetPosition { handle: BodyHandle, position: Point },
    /// Remove a body and its collider.
    Destroy { handle: BodyHandle },
}

/// One contact pair reported by the engine after a step: `body` touches `other`.
#[derive(Clone, Copy, Debug, PartialEq, Eq, Structural)]
pub struct Contact {
    pub body: BodyHandle,
    pub other: BodyHandle,
}

/// A contact of a body, classified by the categories of both sides.
#[derive(Clone, Copy, Debug, PartialEq, Eq, Structural)]
pub struct Collision {
    /// Category of the queried body.
    pub own: ObjectData,
    /// Category of the body it touches.
    pub other_data: ObjectData,
    /// The body it touches.
    pub other: BodyHandle,
}

/// The collisions of `object` among the engine's contacts, in the engine's
/// order: the contacts whose first side is `object` and whose other side is a
/// live body.
pub open spec fn collisions_of(
    live: Map<BodyHandle, BodyInfo>,
    object: BodyHandle,
    contacts: Seq<Contact>,
) -> Seq<Collision>
    decreases contacts.len(),
{
    if contacts.len() == 0 {
        Seq::empty()
    } else {
        let rest = collisions_of(live, object, contacts.drop_last());
        let c = contacts.last();
        if c.body == object && live.contains_key(c.other) {
            rest.push(
                Collision { own: live[object].data, other_data: live[c.other].data, other: c.other },
            )
        } else {
            rest
        }
    }
}

/// A body that is not live is never among the collisions of any body.
pub proof fn lemma_dead_body_never_collides(
    live: Map<BodyHandle, BodyInfo>,
    object: BodyHandle,
    contacts: Seq<Contact>,
    gone: BodyHandle,
)
    requires
        !live.contains_key(gone),
    ensures
        forall|i: int|
            0 <= i < collisions_of(live, object, contacts).len() ==> #[trigger] collisions_of(
                live,
                object,
                contacts,
            )[i].other != gone,
    decreases contacts.len(),
{
    if contacts.len() > 0 {
        lemma_dead_body_never_collides(live, object, contacts.drop_last(), gone);
    }
}

/// After `destroy_body(h)`, and after any number of bodies created since, no
/// collision query returns `h`: a destroyed handle is gone from the registry
/// and creation only hands out handles above every handle issued before.
pub proof fn lemma_destroyed_body_never_collides(
    before: Map<BodyHandle, BodyInfo>,
    h: BodyHandle,
    next_handle: u64,
    created: Map<BodyHandle, BodyInfo>,
    object: BodyHandle,
    contacts: Seq<Contact>,
)
    requires
        h < next_handle,
        forall|k: BodyHandle| #[trigger] created.contains_key(k) ==> k >= next_handle,
    ensures
        forall|i: int|
            0 <= i < collisions_of(before.remove(h).union_prefer_right(created), object, contacts).len()
                ==> #[trigger] collisions_of(
                before.remove(h).union_prefer_right(created),
                object,
                contacts,
            )[i].other != h,
{
    let live = before.remove(h).union_prefer_right(created);
    assert(!live.contains_key(h));
    lemma_dead_body_never_collides(live, object, contacts, h);
}

/// The registry of live bodies, with the commands not yet handed to the engine.
pub struct Physics {
    bodies: std::collections::HashMap<BodyHandle, BodyInfo>,
    next_handle: BodyHandle,
    commands: Vec<Command>,
}

impl Physics {
    /// The live bodies, by handle.
    pub closed spec fn live(&self) -> Map<BodyHandle, BodyInfo> {
        self.bodies@
    }

    /// The commands recorded since the engine last took them, oldest first.
    pub closed spec fn pending(&self) -> Seq<Command> {
        self.commands@
    }

    /// The handle that the next created body receives.
    pub closed spec fn next(&self) -> nat {
        self.next_handle as nat
    }

    /// Every live handle was issued before, and every live body lies in the world.
    pub open spec fn wf(&self) -> bool {
        forall|h: BodyHandle| #[trigger]
            self.live().contains_key(h) ==> h < self.next() && in_world(self.live()[h].position)
    }

    /// Whether `n` more bodies can still receive a handle.
    pub open spec fn can_create(&self, n: nat) -> bool {
        self.next() + n <= u64::MAX
    }

    /// An empty world.
    pub fn new() -> (r: Physics)
        ensures
            r.wf(),
            r.live() == Map::<BodyHandle, BodyInfo>::empty(),
            r.pending() == Seq::<Command>::empty(),
            r.next() == 0,
    {
        Physics {
            bodies: std::collections::HashMap::new(),
            next_handle: 0,
            commands: Vec::new(),
        }
    }

    /// Registers a new body and records its creation for the engine.
    pub fn create_body(
        &mut self,
        data: ObjectData,
        position: Point,
        width: u16,
        height: u16,
        velocity: Point,
    ) -> (h: BodyHandle)
        requires
            old(self).wf(),
            old(self).can_create(1),
            in_world(position),
        ensures
            final(self).wf(),
            h == old(self).next(),
            final(self).next() == old(self).next() + 1,
            !old(self).live().contains_key(h),
            final(self).live() == old(self).live().insert(h, BodyInfo { data, position }),
            final(self).pending() == old(self).pending().push(
                (Command::Create { handle: h, data, position, width, height, velocity }),
            ),
    {
        let h = self.next_handle;
        self.bodies.insert(h, BodyInfo { data, position });
        self.next_handle = h + 1;
        self.commands.push(Command::Create { handle: h, data, position, width, height, velocity });
        h
    }

    /// Creates a static ground tile.
    pub fn create_tile(&mut self, pos: Point, width: u16, height: u16) -> (h: BodyHandle)
        requires
            old(self).wf(),
            old(self).can_create(1),
            in_world(pos),
        ensures
            final(self).wf(),
            h == old(self).next(),
            final(self).next() == old(self).next() + 1,
            final(self).live() == old(self).live().insert(
                h,
                BodyInfo { data: ObjectData::Ground, position: pos },
            ),
            final(self).pending() == old(self).pending().push(
                (Command::Create {
                    handle: h,
                    data: ObjectData::Ground,
                    position: pos,
                    width,
                    height,
                    velocity: Point { x: 0, y: 0 },
                }),
            ),
    {
        self.create_body(ObjectData::Ground, pos, width, height, Point { x: 0, y: 0 })
    }

    /// Creates the player's body.
    pub fn create_player(&mut self, pos: Point, width: u16, height: u16) -> (h: BodyHandle)
        requires
            old(self).wf(),
            old(self).can_create(1),
            in_world(pos),
        ensures
            final(self).wf(),
            h == old(self).next(),
            final(self).next() == old(self).next() + 1,
            final(self).live() == old(self).live().insert(
                h,
                BodyInfo { data: ObjectData::Player, position: pos },
            ),
            final(self).pending() == old(self).pending().push(
                (Command::Create {
                    handle: h,
                    data: ObjectData::Player,
                    position: pos,
                    width,
                    height,
                    velocity: Point { x: 0, y: 0 },
                }),
            ),
    {
        self.create_body(ObjectData::Player, pos, width, height, Point { x: 0, y: 0 })
    }

    /// Creates an enemy's body.
    pub fn create_enemy(&mut self, pos: Point, width: u16, height: u16) -> (h: BodyHandle)
        requires
            old(self).wf(),
            old(self).can_create(1),
            in_world(pos),
        ensures
            final(self).wf(),
            h == old(self).next(),
            final(self).next() == old(self).next() + 1,
            final(self).live() == old(self).live().insert(
                h,
                BodyInfo { data: ObjectData::Enemy, position: pos },
            ),
            final(self).pending() == old(self).pending().push(
                (Command::Create {
                    handle: h,
                    data: ObjectData::Enemy,
                    position: pos,
                    width,
                    height,
                    velocity: Point { x: 0, y: 0 },
                }),
            ),
    {
        self.create_body(ObjectData::Enemy, pos, width, height, Point { x: 0, y: 0 })
    }

    /// Creates a barrel's body.
    pub fn create_barrel(&mut self, pos: Point, width: u16, height: u16) -> (h: BodyHandle)
        requires
            old(self).wf(),
            old(self).can_create(1),
            in_world(pos),
        ensures
            final(self).wf(),
            h == old(self).next(),
            final(self).next() == old(self).next() + 1,
            final(self).live() == old(self).live().insert(
                h,
                BodyInfo { data: ObjectData::Barrel, position: pos },
            ),
            final(self).pending() == old(self).pending().push(
                (Command::Create {
                    handle: h,
                    data: ObjectData::Barrel,
                    position: pos,
                    width,
                    height,
                    velocity: Point { x: 0, y: 0 },
                }),
            ),
    {
        self.create_body(ObjectData::Barrel, pos, width, height, Point { x: 0, y: 0 })
    }

    /// Creates a projectile's body moving at `velocity`.
    pub fn create_bullet(&mut self, pos: Point, width: u16, height: u16, velocity: Point) -> (h:
        BodyHandle)
        requires
            old(self).wf(),
            old(self).can_create(1),
            in_world(pos),
        ensures
            final(self).wf(),
            h == old(self).next(),
            final(self).next() == old(self).next() + 1,
            final(self).live() == old(self).live().insert(
                h,
                BodyInfo { data: ObjectData::Bullet, position: pos },
            ),
            final(self).pending() == old(self).pending().push(
                (Command::Create {
                    handle: h,
                    data: ObjectData::Bullet,
                    position: pos,
                    width,
                    height,
                    velocity,
                }),
            ),
    {
        self.create_body(ObjectData::Bullet, pos, width, height, velocity)
    }

    /// How many more bodies can still receive a handle.
    pub fn handles_left(&self) -> (r: u64)
        ensures
            r == u64::MAX - self.next(),
    {
        u64::MAX - self.next_handle
    }

    /// The number of live bodies.
    pub fn body_count(&self) -> (r: usize)
        ensures
            r == self.live().len(),
    {
        self.bodies.len()
    }

    /// Whether `h` names a live body.
    pub fn contains(&self, h: BodyHandle) -> (r: bool)
        ensures
            r == self.live().contains_key(h),
    {
        self.bodies.contains_key(&h)
    }

    /// The category of a live body.
    pub fn get_user_data(&self, object: BodyHandle) -> (r: ObjectData)
        requires
            self.live().contains_key(object),
        ensures
            r == self.live()[object].data,
    {
        let info = self.bodies.get(&object);
        match info {
            Some(i) => i.data,
            None => ObjectData::Ground,
        }
    }

    /// The last reported position of a live body.
    pub fn position(&self, object: BodyHandle) -> (r: Point)
        requires
            self.live().contains_key(object),
        ensures
            r == self.live()[object].position,
    {
        let info = self.bodies.get(&object);
        match info {
            Some(i) => i.position,
            None => Point { x: 0, y: 0 },
        }
    }

    /// Records the position that the engine reports for a live body.
    pub fn sync_position(&mut self, object: BodyHandle, position: Point)
        requires
            old(self).wf(),
            old(self).live().contains_key(object),
            in_world(position),
        ensures
            final(self).wf(),
            final(self).next() == old(self).next(),
            final(self).live() == old(self).live().insert(
                object,
                BodyInfo { data: old(self).live()[object].data, position },
            ),
            final(self).pending() == old(self).pending(),
    {
        let data = self.get_user_data(object);
        self.bodies.insert(object, BodyInfo { data, position });
    }

    /// Moves a live body.
    pub fn set_position(&mut self, object: BodyHandle, position: Point)
        requires
            old(self).wf(),
            old(self).live().contains_key(object),
            in_world(position),
        ensures
            final(self).wf(),
            final(self).next() == old(self).next(),
            final(self).live() == old(self).live().insert(
                object,
                BodyInfo { data: old(self).live()[object].data, position },
            ),
            final(self).pending() == old(self).pending().push(
                Command::SetPosition { handle: object, position },
            ),
    {
        self.sync_position(object, position);
        self.commands.push(Command::SetPosition { handle: object, position });
    }

    /// Replaces the linear velocity of a live body.
    pub fn set_velocity(&mut self, object: BodyHandle, velocity: Point)
        requires
            old(self).live().contains_key(object),
        ensures
            final(self).live() == old(self).live(),
            final(self).next() == old(self).next(),
            final(self).pending() == old(self).pending().push(
                Command::SetVelocity { handle: object, velocity },
            ),
    {
        self.commands.push(Command::SetVelocity { handle: object, velocity });
    }

    /// Adds to the linear velocity of a live body.
    pub fn add_velocity(&mut self, object: BodyHandle, delta: Point)
        requires
            old(self).live().contains_key(object),
        ensures
            final(self).live() == old(self).live(),
            final(self).next() == old(self).next(),
            final(self).pending() == old(self).pending().push(
                Command::AddVelocity { handle: object, delta },
            ),
    {
        self.commands.push(Command::AddVelocity { handle: object, delta });
    }

    /// Removes a live body; its handle is never valid again.
    pub fn destroy_body(&mut self, handle: BodyHandle)
        requires
            old(self).wf(),
            old(self).live().contains_key(handle),
        ensures
            final(self).wf(),
            final(self).next() == old(self).next(),
            final(self).live() == old(self).live().remove(handle),
            final(self).pending() == old(self).pending().push(Command::Destroy { handle }),
    {
        self.bodies.remove(&handle);
        self.commands.push(Command::Destroy { handle });
    }

    /// The collisions of a live body among the contacts that the engine
    /// reported, in the engine's order; contacts with bodies that are no
    /// longer live are left out.
    pub fn collisions(&self, object: BodyHandle, contacts: &Vec<Contact>) -> (r: Vec<Collision>)
        requires
            self.live().contains_key(object),
        ensures
            r@ == collisions_of(self.live(), object, contacts@),
    {
        let mut out: Vec<Collision> = Vec::new();
        let own = self.get_user_data(object);
        let mut i: usize = 0;
        while i < contacts.len()
            invariant
                i <= contacts@.len(),
                self.live().contains_key(object),
                own == self.live()[object].data,
                out@ == collisions_of(self.live(), object, contacts@.take(i as int)),
            decreases contacts@.len() - i,
        {
            let c = contacts[i];
            assert(contacts@.take(i as int + 1).drop_last() == contacts@.take(i as int));
            if c.body == object && self.contains(c.other) {
                let data = self.get_user_data(c.other);
                out.push(Collision { own, other_data: data, other: c.other });
            }
            i = i + 1;
        }
        assert(contacts@.take(contacts@.len() as int) == contacts@);
        out
    }

    /// Hands the recorded commands to the engine, oldest first.
    pub fn take_commands(&mut self) -> (r: Vec<Command>)
        ensures
            r@ == old(self).pending(),
            final(self).pending() == Seq::<Command>::empty(),
            final(self).live() == old(self).live(),
            final(self).next() == old(self).next(),
    {
        let mut out: Vec<Command> = Vec::new();
        std::mem::swap(&mut out, &mut self.commands);
        out
    }
}

} // verus!
