//! The player's weapons: the Turbofish projectile and the grappling hook.
use crate::physics::{
    collisions_of, in_world, BodyHandle, BodyInfo, Collision, Command, Contact, ObjectData,
    Physics, Point,
};
use vstd::prelude::*;

verus! {

/// Horizontal speed of a fired Turbofish, in units per second.
pub const BULLET_SPEED: i64 = 1000;

/// Number of updates after which a Turbofish is spent even if it hit nothing.
pub const MAX_BULLET_TICKS: u32 = 600;

/// Which gun the player has selected.
#[derive(Clone, Copy, Debug, PartialEq, Eq, Structural)]
pub enum WeaponType {
    Turbofish,
    Grappling,
}

/// Whether one of the collisions is with the ground.
pub open spec fn touches_ground(cs: Seq<Collision>) -> bool {
    exists|i: int| 0 <= i < cs.len() && #[trigger] cs[i].other_data == ObjectData::Ground
}

/// Whether one of the collisions is with body `h`.
pub open spec fn touches(cs: Seq<Collision>, h: BodyHandle) -> bool {
    exists|i: int| 0 <= i < cs.len() && #[trigger] cs[i].other == h
}

/// Whether the engine reported a contact of body `a` with body `b`.
pub open spec fn contact_between(contacts: Seq<Contact>, a: BodyHandle, b: BodyHandle) -> bool {
    exists|i: int| 0 <= i < contacts.len() && #[trigger] contacts[i] == (Contact { body: a, other: b })
}

/// A collision query names a live body exactly when the engine reported the contact.
pub proof fn lemma_touches_contact(
    live: Map<BodyHandle, BodyInfo>,
    object: BodyHandle,
    contacts: Seq<Contact>,
    target: BodyHandle,
)
    requires
        live.contains_key(target),
    ensures
        touches(collisions_of(live, object, contacts), target) == contact_between(
            contacts,
            object,
            target,
        ),
    decreases contacts.len(),
{
    if contacts.len() > 0 {
        let rest = contacts.drop_last();
        lemma_touches_contact(live, object, rest, target);
        let c = contacts.last();
        let cs = collisions_of(live, object, contacts);
        let rs = collisions_of(live, object, rest);
        if contact_between(contacts, object, target) {
            let i = choose|i: int|
                0 <= i < contacts.len() && #[trigger] contacts[i] == (Contact {
                    body: object,
                    other: target,
                });
            if i < contacts.len() - 1 {
                assert(rest[i] == contacts[i]);
                let j = choose|j: int| 0 <= j < rs.len() && #[trigger] rs[j].other == target;
                assert(cs[j] == rs[j]);
            } else {
                assert(cs[cs.len() - 1].other == target);
            }
        }
        if touches(cs, target) {
            let j = choose|j: int| 0 <= j < cs.len() && #[trigger] cs[j].other == target;
            if j < rs.len() {
                assert(rs[j] == cs[j]);
                let i = choose|i: int|
                    0 <= i < rest.len() && #[trigger] rest[i] == (Contact {
                        body: object,
                        other: target,
                    });
                assert(contacts[i] == rest[i]);
            } else {
                assert(contacts[contacts.len() - 1] == (Contact { body: object, other: target }));
            }
        }
    }
}

/// A projectile in flight.
#[derive(Clone, Copy, Debug, PartialEq, Eq, Structural)]
pub struct Turbofish {
    body: BodyHandle,
    ticks: u32,
}

impl Turbofish {
    /// The projectile's body.
    pub closed spec fn body(&self) -> BodyHandle {
        self.body
    }

    /// Updates since it was fired.
    pub closed spec fn age(&self) -> nat {
        self.ticks as nat
    }

    /// The projectile one update later: one tick older, up to `MAX_BULLET_TICKS`.
    pub closed spec fn aged(&self) -> Turbofish {
        Turbofish {
            body: self.body,
            ticks: if self.ticks < MAX_BULLET_TICKS {
                (self.ticks + 1) as u32
            } else {
                self.ticks
            },
        }
    }

    /// Fires a projectile from `(pos_x, pos_y)` moving forward at `BULLET_SPEED`.
    pub fn new(pos_x: i64, pos_y: i64, physics: &mut Physics, width: u16, height: u16) -> (r:
        Turbofish)
        requires
            old(physics).wf(),
            old(physics).can_create(1),
            in_world(Point { x: pos_x, y: pos_y }),
        ensures
            final(physics).wf(),
            r.body() == old(physics).next(),
            r.age() == 0,
            final(physics).next() == old(physics).next() + 1,
            final(physics).live() == old(physics).live().insert(
                r.body(),
                BodyInfo { data: ObjectData::Bullet, position: Point { x: pos_x, y: pos_y } },
            ),
            final(physics).pending() == old(physics).pending().push(
                (Command::Create {
                    handle: r.body(),
                    data: ObjectData::Bullet,
                    position: Point { x: pos_x, y: pos_y },
                    width,
                    height,
                    velocity: Point { x: BULLET_SPEED, y: 0 },
                }),
            ),
    {
        let body = physics.create_bullet(
            Point { x: pos_x, y: pos_y },
            width,
            height,
            Point { x: BULLET_SPEED, y: 0 },
        );
        Turbofish { body, ticks: 0 }
    }

    /// Counts one more update and reports whether the projectile is spent:
    /// it touches the ground this tick, or it has flown `MAX_BULLET_TICKS`
    /// updates.
    #[verifier::loop_isolation(false)]
    pub fn update(&mut self, physics: &Physics, contacts: &Vec<Contact>) -> (spent: bool)
        requires
            physics.live().contains_key(old(self).body()),
        ensures
            *final(self) == old(self).aged(),
            final(self).body() == old(self).body(),
            final(self).age() == if old(self).age() < MAX_BULLET_TICKS {
                old(self).age() + 1
            } else {
                old(self).age()
            },
            spent == (touches_ground(collisions_of(physics.live(), old(self).body(), contacts@))
                || old(self).age() + 1 >= MAX_BULLET_TICKS),
    {
        if self.ticks < MAX_BULLET_TICKS {
            self.ticks = self.ticks + 1;
        }
        let cs = physics.collisions(self.body, contacts);
        let mut i: usize = 0;
        while i < cs.len()
            invariant
                i <= cs@.len(),
                forall|j: int| 0 <= j < i ==> cs@[j].other_data != ObjectData::Ground,
            decreases cs@.len() - i,
        {
            if cs[i].other_data == ObjectData::Ground {
                assert(cs@[i as int].other_data == ObjectData::Ground);
                return true;
            }
            i = i + 1;
        }
        self.ticks >= MAX_BULLET_TICKS
    }

    /// Whether the projectile touches body `handle` this tick.
    #[verifier::loop_isolation(false)]
    pub fn is_touching(&self, physics: &Physics, contacts: &Vec<Contact>, handle: BodyHandle) -> (r:
        bool)
        requires
            physics.live().contains_key(self.body()),
        ensures
            r == touches(collisions_of(physics.live(), self.body(), contacts@), handle),
    {
        let cs = physics.collisions(self.body, contacts);
        let mut i: usize = 0;
        while i < cs.len()
            invariant
                i <= cs@.len(),
                forall|j: int| 0 <= j < i ==> cs@[j].other != handle,
            decreases cs@.len() - i,
        {
            if cs[i].other == handle {
                assert(cs@[i as int].other == handle);
                return true;
            }
            i = i + 1;
        }
        false
    }

    /// Removes the projectile's body from the world.
    pub fn destroy(&self, physics: &mut Physics)
        requires
            old(physics).wf(),
            old(physics).live().contains_key(self.body()),
        ensures
            final(physics).wf(),
            final(physics).next() == old(physics).next(),
            final(physics).live() == old(physics).live().remove(self.body()),
            final(physics).pending() == old(physics).pending().push(
                Command::Destroy { handle: self.body() },
            ),
    {
        physics.destroy_body(self.body);
    }

    /// Updates since the projectile was fired.
    pub fn age_ticks(&self) -> (r: u32)
        ensures
            r == self.age(),
    {
        self.ticks
    }

    /// The projectile's body.
    pub fn handle(&self) -> (r: BodyHandle)
        ensures
            r == self.body(),
    {
        self.body
    }
}

/// The first body among the ray's hits, in the engine's order, that is a
/// live barrel.
pub open spec fn first_barrel(live: Map<BodyHandle, BodyInfo>, hits: Seq<BodyHandle>) -> Option<
    BodyHandle,
>
    decreases hits.len(),
{
    if hits.len() == 0 {
        None
    } else if live.contains_key(hits[0]) && live[hits[0]].data == ObjectData::Barrel {
        Some(hits[0])
    } else {
        first_barrel(live, hits.drop_first())
    }
}

/// The difference `to - from`.
pub open spec fn towards(from: Point, to: Point) -> Point {
    Point { x: (to.x - from.x) as i64, y: (to.y - from.y) as i64 }
}

/// A grappling hook anchored to a barrel, pulling it towards the player.
#[derive(Clone, Copy, Debug, PartialEq, Eq, Structural)]
pub struct Grappling {
    grapple_to: BodyHandle,
    player_body: BodyHandle,
}

impl Grappling {
    /// The body the hook is anchored to.
    pub closed spec fn target(&self) -> BodyHandle {
        self.grapple_to
    }

    /// The body of the player who holds the hook.
    pub closed spec fn holder(&self) -> BodyHandle {
        self.player_body
    }

    /// The body the hook is anchored to.
    pub fn target_handle(&self) -> (r: BodyHandle)
        ensures
            r == self.target(),
    {
        self.grapple_to
    }

    /// The body of the player who holds the hook.
    pub fn holder_handle(&self) -> (r: BodyHandle)
        ensures
            r == self.holder(),
    {
        self.player_body
    }

    /// Fires the hook from `(pos_x, pos_y)`. `hits` are the bodies that the
    /// engine's ray from that point met, in its order. The hook anchors to the
    /// first live barrel among them and sets it moving towards the firing
    /// point; with no such barrel there is no hook and nothing changes.
    #[verifier::loop_isolation(false)]
    pub fn new(
        pos_x: i64,
        pos_y: i64,
        physics: &mut Physics,
        handle: BodyHandle,
        hits: &Vec<BodyHandle>,
    ) -> (r: Option<Grappling>)
        requires
            old(physics).wf(),
            in_world(Point { x: pos_x, y: pos_y }),
        ensures
            final(physics).live() == old(physics).live(),
            final(physics).next() == old(physics).next(),
            match first_barrel(old(physics).live(), hits@) {
                None => r is None && final(physics).pending() == old(physics).pending(),
                Some(b) => {
                    &&& r is Some
                    &&& r->Some_0.target() == b
                    &&& r->Some_0.holder() == handle
                    &&& final(physics).pending() == old(physics).pending().push(
                        Command::SetVelocity {
                            handle: b,
                            velocity: towards(
                                old(physics).live()[b].position,
                                Point { x: pos_x, y: pos_y },
                            ),
                        },
                    )
                },
            },
    {
        let mut i: usize = 0;
        assert(hits@.skip(0) == hits@);
        while i < hits.len()
            invariant
                i <= hits@.len(),
                physics.wf(),
                *physics == *old(physics),
                first_barrel(physics.live(), hits@) == first_barrel(
                    physics.live(),
                    hits@.skip(i as int),
                ),
            decreases hits@.len() - i,
        {
            let h = hits[i];
            assert(hits@.skip(i as int).drop_first() == hits@.skip(i as int + 1));
            if physics.contains(h) && physics.get_user_data(h) == ObjectData::Barrel {
                let body_pos = physics.position(h);
                assert(in_world(body_pos));
                let velocity = Point { x: pos_x - body_pos.x, y: pos_y - body_pos.y };
                physics.set_velocity(h, velocity);
                return Some(Grappling { grapple_to: h, player_body: handle });
            }
            i = i + 1;
        }
        assert(hits@.skip(i as int).len() == 0);
        None
    }

    /// While the hook's bodies are more than one unit apart, sets the
    /// anchored body moving towards the player. `distance` is the engine's
    /// distance between the two bodies.
    pub fn update(&self, physics: &mut Physics, distance: i64)
        requires
            old(physics).wf(),
            old(physics).live().contains_key(self.target()),
            old(physics).live().contains_key(self.holder()),
        ensures
            final(physics).live() == old(physics).live(),
            final(physics).next() == old(physics).next(),
            final(physics).pending() == if distance > 1 {
                old(physics).pending().push(
                    Command::SetVelocity {
                        handle: self.target(),
                        velocity: towards(
                            old(physics).live()[self.target()].position,
                            old(physics).live()[self.holder()].position,
                        ),
                    },
                )
            } else {
                old(physics).pending()
            },
    {
        if distance > 1 {
            let player = physics.position(self.player_body);
            let object = physics.position(self.grapple_to);
            physics.set_velocity(
                self.grapple_to,
                Point { x: player.x - object.x, y: player.y - object.y },
            );
        }
    }
}

/// A weapon the player has fired and that is still active.
#[derive(Clone, Copy, Debug, PartialEq, Eq, Structural)]
pub enum PlayerWeapon {
    Turbofish(Turbofish),
    Grappling(Grappling),
}

impl PlayerWeapon {
    /// The weapon one update later.
    pub open spec fn aged(self) -> PlayerWeapon {
        match self {
            PlayerWeapon::Turbofish(t) => PlayerWeapon::Turbofish(t.aged()),
            PlayerWeapon::Grappling(g) => PlayerWeapon::Grappling(g),
        }
    }
}

/// Aging keeps a weapon's kind and its projectile's body.
pub broadcast proof fn lemma_aged_keeps_kind(w: PlayerWeapon)
    ensures
        #[trigger] w.aged() is Turbofish <==> w is Turbofish,
        w is Turbofish ==> w.aged()->Turbofish_0.body() == w->Turbofish_0.body(),
        w is Grappling ==> w.aged() == w,
{
}

/// Whether weapon `w` is done this tick: a projectile that touches the ground
/// or has flown its last tick, or a hook whose trigger was released or whose
/// bodies are gone.
pub open spec fn weapon_spent(
    w: PlayerWeapon,
    live: Map<BodyHandle, BodyInfo>,
    contacts: Seq<Contact>,
    fire_held: bool,
) -> bool {
    match w {
        PlayerWeapon::Turbofish(t) => touches_ground(collisions_of(live, t.body(), contacts))
            || t.age() + 1 >= MAX_BULLET_TICKS,
        PlayerWeapon::Grappling(g) => !fire_held || !live.contains_key(g.target())
            || !live.contains_key(g.holder()),
    }
}

} // verus!
