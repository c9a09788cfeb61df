//! The player: movement, ammunition, and the weapons in flight.
use crate::physics::{
    in_world, BodyHandle, BodyInfo, Command, Contact, ObjectData, Physics, Point, WORLD_LIMIT,
};
use crate::weapon::{
    first_barrel, weapon_spent, Grappling, PlayerWeapon, Turbofish, WeaponType, BULLET_SPEED,
};
use vstd::prelude::*;

verus! {

/// Horizontal velocity added by one step of movement.
pub const SHIFT_JUICE: i64 = 10;

/// Upward velocity added by a jump.
pub const JUMP_JUICE: i64 = 20;

/// Ammunition at the start of a level.
pub const MAX_AMMO: u32 = 10;

/// Health at the start of a level.
pub const MAX_HEALTH: i32 = 100;

/// Horizontal distance from the player to the muzzle of the gun.
pub const GUN_OFFSET: i64 = 140;

/// How far the player is lifted when the level starts.
pub const START_LIFT: i64 = 40;

/// Where the player is heading.
#[derive(Clone, Copy, Debug, PartialEq, Eq, Structural)]
pub enum Direction {
    Left,
    Right,
    Idle,
}

/// The decoded input of one tick.
#[derive(Clone, Copy, Debug, PartialEq, Eq, Structural)]
pub struct PlayerInput {
    pub left: bool,
    pub right: bool,
    pub jump: bool,
    pub fire_held: bool,
}

/// Where a shot from a player standing at `p` starts: `GUN_OFFSET` ahead,
/// kept inside the world.
pub open spec fn muzzle(p: Point) -> Point {
    Point {
        x: if p.x + GUN_OFFSET > WORLD_LIMIT {
            WORLD_LIMIT
        } else {
            (p.x + GUN_OFFSET) as i64
        },
        y: p.y,
    }
}

/// `ws` after one update of the weapons up to and including index `k`.
pub open spec fn aged_upto(ws: Seq<PlayerWeapon>, k: int) -> Seq<PlayerWeapon> {
    Seq::new(ws.len(), |j: int| if j <= k { ws[j].aged() } else { ws[j] })
}

/// `after` is `before` with only bodies of category `data` removed; the
/// bodies that remain are unchanged.
pub open spec fn only_removed(
    before: Map<BodyHandle, BodyInfo>,
    after: Map<BodyHandle, BodyInfo>,
    data: ObjectData,
) -> bool {
    &&& forall|h: BodyHandle| #[trigger]
        after.contains_key(h) ==> before.contains_key(h) && after[h] == before[h]
    &&& forall|h: BodyHandle| #[trigger]
        before.contains_key(h) && before[h].data != data ==> after.contains_key(h)
}

/// Every projectile in `ws` is a live bullet, and no two share a body.
pub open spec fn bullets_live(ws: Seq<PlayerWeapon>, live: Map<BodyHandle, BodyInfo>) -> bool {
    &&& forall|i: int|
        0 <= i < ws.len() && #[trigger] ws[i] is Turbofish ==> {
            &&& live.contains_key(ws[i]->Turbofish_0.body())
            &&& live[ws[i]->Turbofish_0.body()].data == ObjectData::Bullet
        }
    &&& forall|i: int, j: int|
        0 <= i < ws.len() && 0 <= j < ws.len() && i != j && #[trigger] ws[i] is Turbofish
            && #[trigger] ws[j] is Turbofish ==> ws[i]->Turbofish_0.body()
            != ws[j]->Turbofish_0.body()
}

proof fn lemma_aged_bullets_live(ws: Seq<PlayerWeapon>, k: int, live: Map<BodyHandle, BodyInfo>)
    requires
        bullets_live(ws, live),
    ensures
        bullets_live(aged_upto(ws, k), live),
{
    broadcast use crate::weapon::lemma_aged_keeps_kind;

    let a = aged_upto(ws, k);
    assert forall|i: int| 0 <= i < a.len() && #[trigger] a[i] is Turbofish implies {
        &&& live.contains_key(a[i]->Turbofish_0.body())
        &&& live[a[i]->Turbofish_0.body()].data == ObjectData::Bullet
    } by {
        assert(ws[i] is Turbofish);
    }
    assert forall|i: int, j: int|
        0 <= i < a.len() && 0 <= j < a.len() && i != j && #[trigger] a[i] is Turbofish
            && #[trigger] a[j] is Turbofish implies a[i]->Turbofish_0.body()
        != a[j]->Turbofish_0.body() by {
        assert(ws[i] is Turbofish);
        assert(ws[j] is Turbofish);
    }
}

proof fn lemma_removed_bullets_live(
    ws: Seq<PlayerWeapon>,
    k: int,
    before: Map<BodyHandle, BodyInfo>,
    after: Map<BodyHandle, BodyInfo>,
)
    requires
        bullets_live(ws, before),
        0 <= k < ws.len(),
        after == match ws[k] {
            PlayerWeapon::Turbofish(t) => before.remove(t.body()),
            PlayerWeapon::Grappling(_) => before,
        },
    ensures
        bullets_live(ws.remove(k), after),
{
    let r = ws.remove(k);
    assert forall|i: int| 0 <= i < r.len() && #[trigger] r[i] is Turbofish implies {
        &&& after.contains_key(r[i]->Turbofish_0.body())
        &&& after[r[i]->Turbofish_0.body()].data == ObjectData::Bullet
    } by {
        let b = if i < k { i } else { i + 1 };
        assert(r[i] == ws[b]);
        assert(ws[b] is Turbofish);
    }
    assert forall|i: int, j: int|
        0 <= i < r.len() && 0 <= j < r.len() && i != j && #[trigger] r[i] is Turbofish
            && #[trigger] r[j] is Turbofish implies r[i]->Turbofish_0.body()
        != r[j]->Turbofish_0.body() by {
        let bi = if i < k { i } else { i + 1 };
        let bj = if j < k { j } else { j + 1 };
        assert(r[i] == ws[bi]);
        assert(r[j] == ws[bj]);
        assert(ws[bi] is Turbofish);
        assert(ws[bj] is Turbofish);
    }
}

/// One update of the weapons `ws`: they are walked in order and the first
/// one that is spent this tick, at index `k`, is dropped (its projectile's
/// body destroyed); the weapons walked are one tick older; the rest stay.
pub open spec fn weapons_step(
    ws: Seq<PlayerWeapon>,
    new_ws: Seq<PlayerWeapon>,
    live: Map<BodyHandle, BodyInfo>,
    new_live: Map<BodyHandle, BodyInfo>,
    contacts: Seq<Contact>,
    fire_held: bool,
) -> bool {
    exists|k: int| #[trigger] weapons_step_at(ws, new_ws, live, new_live, contacts, fire_held, k)
}

/// `weapons_step`, with the walk stopping at index `k`.
pub open spec fn weapons_step_at(
    ws: Seq<PlayerWeapon>,
    new_ws: Seq<PlayerWeapon>,
    live: Map<BodyHandle, BodyInfo>,
    new_live: Map<BodyHandle, BodyInfo>,
    contacts: Seq<Contact>,
    fire_held: bool,
    k: int,
) -> bool {
    &&& 0 <= k <= ws.len()
    &&& forall|j: int| 0 <= j < k ==> !weapon_spent(#[trigger] ws[j], live, contacts, fire_held)
    &&& if k < ws.len() {
        &&& weapon_spent(ws[k], live, contacts, fire_held)
        &&& new_ws == aged_upto(ws, k).remove(k)
        &&& new_live == match ws[k] {
            PlayerWeapon::Turbofish(t) => live.remove(t.body()),
            PlayerWeapon::Grappling(_) => live,
        }
    } else {
        &&& new_ws == aged_upto(ws, k)
        &&& new_live == live
    }
}

/// The velocity changes that the input asks of the player's body, in order:
/// a step left or right, then a jump.
pub open spec fn movement_commands(body: BodyHandle, input: PlayerInput) -> Seq<Command> {
    let step: Seq<Command> = if input.left {
        seq![Command::AddVelocity { handle: body, delta: Point { x: (-SHIFT_JUICE) as i64, y: 0 } }]
    } else if input.right {
        seq![Command::AddVelocity { handle: body, delta: Point { x: SHIFT_JUICE, y: 0 } }]
    } else {
        Seq::empty()
    };
    let jump: Seq<Command> = if input.jump {
        seq![Command::AddVelocity { handle: body, delta: Point { x: 0, y: (-JUMP_JUICE) as i64 } }]
    } else {
        Seq::empty()
    };
    step + jump
}

/// The player character.
pub struct Player {
    pub ammo: u32,
    pub health: i32,
    pub direction: Direction,
    pub body: BodyHandle,
    pub weapons: Vec<PlayerWeapon>,
}

impl Player {
    /// The player's body.
    pub open spec fn body(&self) -> BodyHandle {
        self.body
    }

    /// The direction the player is heading.
    pub open spec fn heading(&self) -> Direction {
        self.direction
    }

    /// The player's body is live in `physics` and so are its projectiles.
    pub open spec fn wf_in(&self, physics: &Physics) -> bool {
        &&& physics.live().contains_key(self.body())
        &&& physics.live()[self.body()].data == ObjectData::Player
        &&& bullets_live(self.weapons@, physics.live())
        &&& self.ammo <= MAX_AMMO
    }

    /// A player standing at `pos`, with full ammunition and health.
    pub fn new(pos: Point, physics: &mut Physics, width: u16, height: u16) -> (r: Player)
        requires
            old(physics).wf(),
            old(physics).can_create(1),
            in_world(pos),
        ensures
            r.wf_in(final(physics)),
            final(physics).wf(),
            r.body() == old(physics).next(),
            r.ammo == MAX_AMMO,
            r.health == MAX_HEALTH,
            r.heading() == Direction::Idle,
            r.weapons@.len() == 0,
            final(physics).next() == old(physics).next() + 1,
            final(physics).live() == old(physics).live().insert(
                r.body(),
                BodyInfo { data: ObjectData::Player, position: pos },
            ),
            final(physics).pending() == old(physics).pending().push(
                (Command::Create {
                    handle: r.body(),
                    data: ObjectData::Player,
                    position: pos,
                    width,
                    height,
                    velocity: Point { x: 0, y: 0 },
                }),
            ),
    {
        let body = physics.create_player(pos, width, height);
        Player {
            ammo: MAX_AMMO,
            health: MAX_HEALTH,
            direction: Direction::Idle,
            body,
            weapons: Vec::new(),
        }
    }

    /// Sets the direction the player is heading.
    pub fn set_direction(&mut self, direction: Direction)
        ensures
            final(self).heading() == direction,
            final(self).body() == old(self).body(),
            final(self).ammo == old(self).ammo,
            final(self).health == old(self).health,
            final(self).weapons@ == old(self).weapons@,
    {
        self.direction = direction;
    }

    /// Lifts the player by `START_LIFT` when the level starts.
    pub fn init(&self, physics: &mut Physics)
        requires
            old(physics).wf(),
            old(physics).live().contains_key(self.body()),
            old(physics).live()[self.body()].position.y >= START_LIFT - WORLD_LIMIT,
        ensures
            final(physics).wf(),
            final(physics).next() == old(physics).next(),
            ({
                let p = old(physics).live()[self.body()].position;
                let lifted = Point { x: p.x, y: (p.y - START_LIFT) as i64 };
                &&& final(physics).live() == old(physics).live().insert(
                    self.body(),
                    BodyInfo { data: old(physics).live()[self.body()].data, position: lifted },
                )
                &&& final(physics).pending() == old(physics).pending().push(
                    Command::SetPosition { handle: self.body(), position: lifted },
                )
            }),
    {
        let p = physics.position(self.body);
        physics.set_position(self.body, Point { x: p.x, y: p.y - START_LIFT });
    }

    /// The player's position as last reported by the engine.
    pub fn position(&self, physics: &Physics) -> (r: Point)
        requires
            physics.live().contains_key(self.body()),
        ensures
            r == physics.live()[self.body()].position,
    {
        physics.position(self.body)
    }

    /// The player's body.
    pub fn handle(&self) -> (r: BodyHandle)
        ensures
            r == self.body(),
    {
        self.body
    }

    /// Jumps: adds `JUMP_JUICE` of upward velocity.
    pub fn go_boom(&self, physics: &mut Physics)
        requires
            old(physics).live().contains_key(self.body()),
        ensures
            final(physics).live() == old(physics).live(),
            final(physics).next() == old(physics).next(),
            final(physics).pending() == old(physics).pending().push(
                Command::AddVelocity { handle: self.body(), delta: Point { x: 0, y: (-JUMP_JUICE) as i64 } },
            ),
    {
        physics.add_velocity(self.body, Point { x: 0, y: -JUMP_JUICE });
    }

    /// Adds `SHIFT_JUICE` of velocity towards `direction`.
    pub fn shift(&self, physics: &mut Physics, direction: Direction)
        requires
            old(physics).live().contains_key(self.body()),
            direction != Direction::Idle,
        ensures
            final(physics).live() == old(physics).live(),
            final(physics).next() == old(physics).next(),
            final(physics).pending() == old(physics).pending().push(
                Command::AddVelocity {
                    handle: self.body(),
                    delta: Point {
                        x: if direction == Direction::Left {
                            (-SHIFT_JUICE) as i64
                        } else {
                            SHIFT_JUICE
                        },
                        y: 0,
                    },
                },
            ),
    {
        if direction == Direction::Left {
            physics.add_velocity(self.body, Point { x: -SHIFT_JUICE, y: 0 });
        } else {
            physics.add_velocity(self.body, Point { x: SHIFT_JUICE, y: 0 });
        }
    }

    /// Fires the selected gun from the muzzle. Without ammunition nothing
    /// happens. A Turbofish always fires and costs one round; the hook costs
    /// nothing and fires only if `hits`, the bodies met by the engine's ray
    /// from the muzzle, hold a live barrel. The caller keeps the weapon.
    pub fn shoot(
        &mut self,
        physics: &mut Physics,
        gun: &WeaponType,
        hits: &Vec<BodyHandle>,
        bullet_width: u16,
        bullet_height: u16,
    ) -> (r: Option<PlayerWeapon>)
        requires
            old(physics).wf(),
            old(physics).can_create(1),
            old(self).wf_in(old(physics)),
        ensures
            final(physics).wf(),
            final(self).body() == old(self).body(),
            final(self).heading() == old(self).heading(),
            final(self).health == old(self).health,
            final(self).weapons@ == old(self).weapons@,
            final(self).wf_in(final(physics)),
            ({
                let from = muzzle(old(physics).live()[old(self).body()].position);
                if old(self).ammo == 0 {
                    &&& r is None
                    &&& final(self).ammo == 0
                    &&& final(physics).live() == old(physics).live()
                    &&& final(physics).pending() == old(physics).pending()
                    &&& final(physics).next() == old(physics).next()
                } else if *gun == WeaponType::Turbofish {
                    &&& r matches Some(PlayerWeapon::Turbofish(t))
                    &&& t.body() == old(physics).next()
                    &&& t.age() == 0
                    &&& final(self).ammo == old(self).ammo - 1
                    &&& final(physics).next() == old(physics).next() + 1
                    &&& final(physics).live() == old(physics).live().insert(
                        t.body(),
                        BodyInfo { data: ObjectData::Bullet, position: from },
                    )
                    &&& final(physics).pending() == old(physics).pending().push(
                        (Command::Create {
                            handle: t.body(),
                            data: ObjectData::Bullet,
                            position: from,
                            width: bullet_width,
                            height: bullet_height,
                            velocity: Point { x: BULLET_SPEED, y: 0 },
                        }),
                    )
                } else {
                    &&& final(self).ammo == old(self).ammo
                    &&& final(physics).live() == old(physics).live()
                    &&& final(physics).next() == old(physics).next()
                    &&& match first_barrel(old(physics).live(), hits@) {
                        None => r is None && final(physics).pending() == old(physics).pending(),
                        Some(b) => r matches Some(PlayerWeapon::Grappling(g)) && g.target() == b
                            && g.holder() == old(self).body(),
                    }
                }
            }),
    {
        if self.ammo == 0 {
            return None;
        }
        let p = physics.position(self.body);
        assert(in_world(p));
        let x = if p.x > WORLD_LIMIT - GUN_OFFSET {
            WORLD_LIMIT
        } else {
            p.x + GUN_OFFSET
        };
        match gun {
            WeaponType::Turbofish => {
                let fish = Turbofish::new(x, p.y, physics, bullet_width, bullet_height);
                self.ammo = self.ammo - 1;
                assert(self.weapons@ == old(self).weapons@);
                assert forall|i: int|
                    0 <= i < self.weapons@.len() && #[trigger] self.weapons@[i] is Turbofish implies {
                    &&& physics.live().contains_key(self.weapons@[i]->Turbofish_0.body())
                    &&& physics.live()[self.weapons@[i]->Turbofish_0.body()].data
                        == ObjectData::Bullet
                } by {
                    assert(old(physics).live().contains_key(self.weapons@[i]->Turbofish_0.body()));
                }
                Some(PlayerWeapon::Turbofish(fish))
            },
            WeaponType::Grappling => {
                let hook = Grappling::new(x, p.y, physics, self.body, hits);
                match hook {
                    Some(g) => Some(PlayerWeapon::Grappling(g)),
                    None => None,
                }
            },
        }
    }

    /// Walks the weapons in order, updating each, and drops the first one
    /// that is spent this tick (see `weapon_spent`), destroying its body if
    /// it is a projectile. `grapple_distance` is the engine's distance
    /// between the player and the body a hook holds.
    #[verifier::loop_isolation(false)]
    pub fn update_weapons(
        &mut self,
        physics: &mut Physics,
        contacts: &Vec<Contact>,
        fire_held: bool,
        grapple_distance: i64,
    )
        requires
            old(physics).wf(),
            old(self).wf_in(old(physics)),
        ensures
            final(physics).wf(),
            final(self).wf_in(final(physics)),
            final(self).body() == old(self).body(),
            final(self).heading() == old(self).heading(),
            final(self).ammo == old(self).ammo,
            final(self).health == old(self).health,
            final(physics).next() == old(physics).next(),
            old(physics).pending().is_prefix_of(final(physics).pending()),
            weapons_step(
                old(self).weapons@,
                final(self).weapons@,
                old(physics).live(),
                final(physics).live(),
                contacts@,
                fire_held,
            ),
    {
        let ghost ws = self.weapons@;
        let mut i: usize = 0;
        while i < self.weapons.len()
            invariant
                0 <= i <= ws.len(),
                ws == old(self).weapons@,
                self.weapons@.len() == ws.len(),
                self.weapons@ == aged_upto(ws, i as int - 1),
                physics.wf(),
                physics.live() == old(physics).live(),
                physics.next() == old(physics).next(),
                old(physics).pending().is_prefix_of(physics.pending()),
                self.body == old(self).body,
                self.direction == old(self).direction,
                self.ammo == old(self).ammo,
                self.health == old(self).health,
                forall|j: int|
                    0 <= j < i ==> !weapon_spent(
                        #[trigger] ws[j],
                        old(physics).live(),
                        contacts@,
                        fire_held,
                    ),
            decreases ws.len() - i,
        {
            let w = self.weapons[i];
            assert(w == ws[i as int]);
            match w {
                PlayerWeapon::Turbofish(fish) => {
                    let mut f = fish;
                    assert(physics.live().contains_key(f.body()));
                    let spent = f.update(physics, contacts);
                    self.weapons.set(i, PlayerWeapon::Turbofish(f));
                    assert(self.weapons@ =~= aged_upto(ws, i as int));
                    if spent {
                        f.destroy(physics);
                        self.weapons.remove(i);
                        proof {
                            lemma_aged_bullets_live(ws, i as int, old(physics).live());
                            lemma_removed_bullets_live(
                                aged_upto(ws, i as int),
                                i as int,
                                old(physics).live(),
                                physics.live(),
                            );
                            assert(weapons_step_at(ws, self.weapons@, old(physics).live(), physics.live(), contacts@, fire_held, i as int));
                        }
                        return;
                    }
                },
                PlayerWeapon::Grappling(grapple) => {
                    if fire_held && physics.contains(grapple.target_handle()) && physics.contains(
                        grapple.holder_handle(),
                    ) {
                        grapple.update(physics, grapple_distance);
                        assert(self.weapons@ =~= aged_upto(ws, i as int));
                    } else {
                        self.weapons.remove(i);
                        assert(aged_upto(ws, i as int - 1).remove(i as int) =~= aged_upto(
                            ws,
                            i as int,
                        ).remove(i as int));
                        proof {
                            lemma_aged_bullets_live(ws, i as int, old(physics).live());
                            lemma_removed_bullets_live(
                                aged_upto(ws, i as int),
                                i as int,
                                old(physics).live(),
                                physics.live(),
                            );
                            assert(weapons_step_at(ws, self.weapons@, old(physics).live(), physics.live(), contacts@, fire_held, i as int));
                        }
                        return;
                    }
                },
            }
            i = i + 1;
        }
        proof {
            lemma_aged_bullets_live(ws, i as int - 1, old(physics).live());
            assert(aged_upto(ws, i as int - 1) =~= aged_upto(ws, i as int));
            assert(weapons_step_at(ws, self.weapons@, old(physics).live(), physics.live(), contacts@, fire_held, i as int));
        }
    }

    /// One tick of the player: movement from the input, then the weapons
    /// (see `update_weapons`).
    pub fn update(
        &mut self,
        physics: &mut Physics,
        input: PlayerInput,
        contacts: &Vec<Contact>,
        grapple_distance: i64,
    )
        requires
            old(physics).wf(),
            old(self).wf_in(old(physics)),
        ensures
            final(physics).wf(),
            final(self).wf_in(final(physics)),
            final(self).body() == old(self).body(),
            final(self).ammo == old(self).ammo,
            final(self).health == old(self).health,
            final(physics).next() == old(physics).next(),
            only_removed(old(physics).live(), final(physics).live(), ObjectData::Bullet),
            weapons_step(
                old(self).weapons@,
                final(self).weapons@,
                old(physics).live(),
                final(physics).live(),
                contacts@,
                input.fire_held,
            ),
            (old(physics).pending() + movement_commands(old(self).body(), input)).is_prefix_of(
                final(physics).pending(),
            ),
            final(self).heading() == if input.jump {
                Direction::Idle
            } else if input.left {
                Direction::Left
            } else if input.right {
                Direction::Right
            } else {
                old(self).heading()
            },
    {
        let ghost p0 = physics.pending();
        let ghost live0 = physics.live();
        if input.left {
            self.shift(physics, Direction::Left);
            self.set_direction(Direction::Left);
        } else if input.right {
            self.shift(physics, Direction::Right);
            self.set_direction(Direction::Right);
        }
        if input.jump {
            self.go_boom(physics);
            self.set_direction(Direction::Idle);
        }
        assert(physics.pending() =~= p0 + movement_commands(self.body, input));
        assert(physics.live() == live0);
        self.update_weapons(physics, contacts, input.fire_held, grapple_distance);
    }
}

} // verus!
