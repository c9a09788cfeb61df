//! Enemies, barrels and ground tiles, and what happens when a projectile hits
//! an enemy or a barrel.
use crate::particles::{ParticleSystem, LIFETIME_MS};
use crate::physics::{
    collisions_of, in_world, BodyHandle, BodyInfo, Command, Contact, ObjectData, Physics, Point,
    WORLD_LIMIT,
};
use crate::player::{bullets_live, Player};
use crate::weapon::{contact_between, lemma_touches_contact, PlayerWeapon};
use vstd::prelude::*;

verus! {

/// Particles in the burst of a destroyed enemy.
pub const ENEMY_BURST: usize = 100;

/// Particles in the burst of a destroyed barrel.
pub const BARREL_BURST: usize = 500;

/// The width and height of a sprite, in world units.
#[derive(Clone, Copy, Debug, PartialEq, Eq, Structural)]
pub struct Size {
    pub width: u16,
    pub height: u16,
}

/// `v` clamped to the world's bounds.
pub open spec fn clamp_world(v: int) -> i64 {
    if v < -WORLD_LIMIT {
        (-WORLD_LIMIT) as i64
    } else if v > WORLD_LIMIT {
        WORLD_LIMIT
    } else {
        v as i64
    }
}

fn clamp_world_exec(v: i64) -> (r: i64)
    ensures
        r == clamp_world(v as int),
{
    if v < -WORLD_LIMIT {
        -WORLD_LIMIT
    } else if v > WORLD_LIMIT {
        WORLD_LIMIT
    } else {
        v
    }
}

/// Whether weapon `w` is a projectile touching `target`.
pub open spec fn hits_target(
    w: PlayerWeapon,
    contacts: Seq<Contact>,
    target: BodyHandle,
) -> bool {
    w matches PlayerWeapon::Turbofish(t) && contact_between(contacts, t.body(), target)
}

/// Index of the first weapon from `i` on that hits `target`, or the number
/// of weapons if none does.
pub open spec fn first_hit_from(
    ws: Seq<PlayerWeapon>,
    contacts: Seq<Contact>,
    target: BodyHandle,
    i: int,
) -> int
    decreases ws.len() - i,
{
    if i >= ws.len() || i < 0 {
        ws.len() as int
    } else if hits_target(ws[i], contacts, target) {
        i
    } else {
        first_hit_from(ws, contacts, target, i + 1)
    }
}

/// The first hit lies in range, and is a hit.
pub proof fn lemma_first_hit_bounds(
    ws: Seq<PlayerWeapon>,
    contacts: Seq<Contact>,
    target: BodyHandle,
    i: int,
)
    requires
        0 <= i <= ws.len(),
    ensures
        i <= first_hit_from(ws, contacts, target, i) <= ws.len(),
        first_hit_from(ws, contacts, target, i) < ws.len() ==> hits_target(
            ws[first_hit_from(ws, contacts, target, i)],
            contacts,
            target,
        ),
    decreases ws.len() - i,
{
    if i < ws.len() && !hits_target(ws[i], contacts, target) {
        lemma_first_hit_bounds(ws, contacts, target, i + 1);
    }
}

/// What one explosion does to the live bodies: `target` and `bullet` are
/// gone, `n` particle bodies from handle `next` on are new, and every other
/// body is untouched.
pub open spec fn exploded(
    before: Map<BodyHandle, BodyInfo>,
    after: Map<BodyHandle, BodyInfo>,
    next: nat,
    n: nat,
    target: BodyHandle,
    bullet: BodyHandle,
) -> bool {
    &&& forall|h: BodyHandle| #[trigger]
        after.contains_key(h) <==> (before.contains_key(h) && h != target && h != bullet) || (next
            <= h < next + n)
    &&& forall|h: BodyHandle| #[trigger]
        before.contains_key(h) && h != target && h != bullet ==> after[h] == before[h]
    &&& forall|h: BodyHandle|
        next <= h < next + n ==> (#[trigger] after[h]).data is Particle
}

/// The effect of one update of an enemy or a barrel at `target`, of sprite
/// `size`, with bursts of `n` particles: if a projectile of the player
/// touches it, the first such projectile and the target are destroyed and a
/// burst fills the target's box; otherwise nothing changes.
pub open spec fn hit_effect(
    old_player: Player,
    new_player: Player,
    old_physics: Physics,
    new_physics: Physics,
    old_particles: Seq<ParticleSystem>,
    new_particles: Seq<ParticleSystem>,
    contacts: Seq<Contact>,
    target: BodyHandle,
    n: nat,
    hit: bool,
) -> bool {
    let ws = old_player.weapons@;
    let k = first_hit_from(ws, contacts, target, 0);
    &&& new_player.body == old_player.body
    &&& new_player.ammo == old_player.ammo
    &&& new_player.health == old_player.health
    &&& new_player.direction == old_player.direction
    &&& hit == (k < ws.len())
    &&& if k < ws.len() {
        &&& new_player.weapons@ == ws.remove(k)
        &&& new_physics.next() == old_physics.next() + n
        &&& exploded(
            old_physics.live(),
            new_physics.live(),
            old_physics.next(),
            n,
            target,
            ws[k]->Turbofish_0.body(),
        )
        &&& new_particles.len() == old_particles.len() + 1
        &&& new_particles.take(old_particles.len() as int) == old_particles
        &&& new_particles.last().handles().len() == n
        &&& new_particles.last().remaining() == LIFETIME_MS
        &&& n > 0 ==> new_particles.last().handles()[0] == old_physics.next()
    } else {
        &&& new_player.weapons@ == ws
        &&& new_physics == old_physics
        &&& new_particles == old_particles
    }
}

/// Destroys `target` and the projectile at index `k` of the player's
/// weapons, and fills the target's box with a burst of `n` particles.
#[verifier::loop_isolation(false)]
fn explode(
    physics: &mut Physics,
    particles: &mut Vec<ParticleSystem>,
    player: &mut Player,
    k: usize,
    target: BodyHandle,
    size: Size,
    n: usize,
)
    requires
        old(physics).wf(),
        old(physics).can_create(n as nat),
        old(player).wf_in(old(physics)),
        old(physics).live().contains_key(target),
        old(physics).live()[target].data != ObjectData::Bullet,
        0 <= k < old(player).weapons@.len(),
        old(player).weapons@[k as int] is Turbofish,
    ensures
        final(physics).wf(),
        final(physics).next() == old(physics).next() + n,
        exploded(
            old(physics).live(),
            final(physics).live(),
            old(physics).next(),
            n as nat,
            target,
            old(player).weapons@[k as int]->Turbofish_0.body(),
        ),
        final(player).weapons@ == old(player).weapons@.remove(k as int),
        final(player).body == old(player).body,
        final(player).ammo == old(player).ammo,
        final(player).health == old(player).health,
        final(player).direction == old(player).direction,
        final(particles)@.len() == old(particles)@.len() + 1,
        final(particles)@.take(old(particles)@.len() as int) == old(particles)@,
        final(particles)@.last().handles().len() == n,
        final(particles)@.last().remaining() == LIFETIME_MS,
        final(particles)@.last().wf(),
        final(particles)@.last().owned_in(final(physics).live()),
        n > 0 ==> final(particles)@.last().handles()[0] == old(physics).next(),
{
    let pos = physics.position(target);
    assert(in_world(pos));
    let half_w = (size.width / 2) as i64;
    let half_h = (size.height / 2) as i64;
    let min = Point { x: clamp_world_exec(pos.x - half_w), y: clamp_world_exec(pos.y - half_h) };
    let max = Point { x: clamp_world_exec(pos.x + half_w), y: clamp_world_exec(pos.y + half_h) };
    let ghost live0 = physics.live();
    let ghost next0 = physics.next();
    let sys = ParticleSystem::new(physics, n, min, max);
    let ghost live1 = physics.live();
    particles.push(sys);
    assert(particles@.take(old(particles)@.len() as int) =~= old(particles)@);
    physics.destroy_body(target);
    let ghost live2 = physics.live();
    let w = player.weapons[k];
    assert(w == old(player).weapons@[k as int]);
    match w {
        PlayerWeapon::Turbofish(fish) => {
            assert(live0.contains_key(fish.body()));
            assert(live0[fish.body()].data == ObjectData::Bullet);
            assert(fish.body() != target);
            fish.destroy(physics);
        },
        PlayerWeapon::Grappling(_) => {},
    }
    player.weapons.remove(k);
    let ghost bullet = old(player).weapons@[k as int]->Turbofish_0.body();
    assert(physics.live() == live1.remove(target).remove(bullet));
    assert forall|h: BodyHandle|
        next0 <= h < next0 + n implies (#[trigger] physics.live()[h]).data is Particle by {
        let j = h - next0;
        assert(sys.handles()[j] == sys.handles()[0] + j);
        assert(live1.contains_key(sys.handles()[j]));
        assert(live0.contains_key(target) && live0.contains_key(bullet));
    }
    assert forall|h: BodyHandle| #[trigger]
        physics.live().contains_key(h) <==> (live0.contains_key(h) && h != target && h != bullet)
            || (next0 <= h < next0 + n) by {
        assert(live1.contains_key(h) <==> live0.contains_key(h) || next0 <= h < next0 + n);
    }
    assert forall|h: BodyHandle| #[trigger]
        live0.contains_key(h) && h != target && h != bullet implies physics.live()[h]
        == live0[h] by {
        assert(live1[h] == live0[h]);
    }
    assert forall|j: int| 0 <= j < sys.handles().len() implies {
        &&& #[trigger] physics.live().contains_key(sys.handles()[j])
        &&& physics.live()[sys.handles()[j]].data is Particle
    } by {
        assert(live1.contains_key(sys.handles()[j]));
        assert(!live0.contains_key(sys.handles()[j]));
    }
}

/// An enemy.
#[derive(Clone, Copy, Debug, PartialEq, Eq, Structural)]
pub struct Enemy {
    pub body: BodyHandle,
}

impl Enemy {
    /// An enemy standing at `pos`.
    pub fn new(pos: Point, physics: &mut Physics, size: Size) -> (r: Enemy)
        requires
            old(physics).wf(),
            old(physics).can_create(1),
            in_world(pos),
        ensures
            final(physics).wf(),
            r.body == old(physics).next(),
            final(physics).next() == old(physics).next() + 1,
            final(physics).live() == old(physics).live().insert(
                r.body,
                BodyInfo { data: ObjectData::Enemy, position: pos },
            ),
            final(physics).pending() == old(physics).pending().push(
                (Command::Create {
                    handle: r.body,
                    data: ObjectData::Enemy,
                    position: pos,
                    width: size.width,
                    height: size.height,
                    velocity: Point { x: 0, y: 0 },
                }),
            ),
    {
        Enemy { body: physics.create_enemy(pos, size.width, size.height) }
    }

    /// The enemy's position as last reported by the engine.
    pub fn position(&self, physics: &Physics) -> (r: Point)
        requires
            physics.live().contains_key(self.body),
        ensures
            r == physics.live()[self.body].position,
    {
        physics.position(self.body)
    }

    /// The enemy's body.
    pub fn handle(&self) -> (r: BodyHandle)
        ensures
            r == self.body,
    {
        self.body
    }

    /// Removes the enemy's body from the world.
    pub fn destroy(&self, physics: &mut Physics)
        requires
            old(physics).wf(),
            old(physics).live().contains_key(self.body),
        ensures
            final(physics).wf(),
            final(physics).next() == old(physics).next(),
            final(physics).live() == old(physics).live().remove(self.body),
            final(physics).pending() == old(physics).pending().push(
                Command::Destroy { handle: self.body },
            ),
    {
        physics.destroy_body(self.body);
    }

    /// Checks the player's projectiles against the enemy. The first one that
    /// touches it destroys it: both bodies go, a burst of `ENEMY_BURST`
    /// particles fills the enemy's box, and the result is `true`.
    pub fn update(
        &self,
        physics: &mut Physics,
        particles: &mut Vec<ParticleSystem>,
        player: &mut Player,
        contacts: &Vec<Contact>,
        size: Size,
    ) -> (hit: bool)
        requires
            old(physics).wf(),
            old(physics).can_create(ENEMY_BURST as nat),
            old(player).wf_in(old(physics)),
            old(physics).live().contains_key(self.body),
            old(physics).live()[self.body].data == ObjectData::Enemy,
        ensures
            final(physics).wf(),
            hit_effect(
                *old(player),
                *final(player),
                *old(physics),
                *final(physics),
                old(particles)@,
                final(particles)@,
                contacts@,
                self.body,
                ENEMY_BURST as nat,
                hit,
            ),
            hit ==> final(particles)@.last().wf() && final(particles)@.last().owned_in(
                final(physics).live(),
            ),
    {
        resolve_hit(physics, particles, player, contacts, self.body, size, ENEMY_BURST)
    }
}

/// Finds the first projectile of the player touching `target` and, if there
/// is one, explodes both.
#[verifier::loop_isolation(false)]
fn resolve_hit(
    physics: &mut Physics,
    particles: &mut Vec<ParticleSystem>,
    player: &mut Player,
    contacts: &Vec<Contact>,
    target: BodyHandle,
    size: Size,
    n: usize,
) -> (hit: bool)
    requires
        old(physics).wf(),
        old(physics).can_create(n as nat),
        old(player).wf_in(old(physics)),
        old(physics).live().contains_key(target),
        old(physics).live()[target].data != ObjectData::Bullet,
    ensures
        final(physics).wf(),
        hit_effect(
            *old(player),
            *final(player),
            *old(physics),
            *final(physics),
            old(particles)@,
            final(particles)@,
            contacts@,
            target,
            n as nat,
            hit,
        ),
        hit ==> final(particles)@.last().wf() && final(particles)@.last().owned_in(
            final(physics).live(),
        ),
{
    let ghost ws = player.weapons@;
    let ghost live = physics.live();
    let mut i: usize = 0;
    while i < player.weapons.len()
        invariant
            0 <= i <= ws.len(),
            player.weapons@ == ws,
            *player == *old(player),
            *physics == *old(physics),
            *particles == *old(particles),
            first_hit_from(ws, contacts@, target, 0) == first_hit_from(
                ws,
                contacts@,
                target,
                i as int,
            ),
        decreases ws.len() - i,
    {
        let w = player.weapons[i];
        match w {
            PlayerWeapon::Turbofish(fish) => {
                assert(ws[i as int] is Turbofish);
                assert(physics.live().contains_key(fish.body()));
                proof {
                    lemma_touches_contact(physics.live(), fish.body(), contacts@, target);
                }
                if fish.is_touching(physics, contacts, target) {
                    assert(first_hit_from(ws, contacts@, target, i as int) == i);
                    explode(physics, particles, player, i, target, size, n);
                    return true;
                }
            },
            PlayerWeapon::Grappling(_) => {},
        }
        i = i + 1;
    }
    false
}

/// A barrel.
#[derive(Clone, Copy, Debug, PartialEq, Eq, Structural)]
pub struct Barrel {
    pub body: BodyHandle,
}

impl Barrel {
    /// A barrel standing at `pos`.
    pub fn new(pos: Point, physics: &mut Physics, size: Size) -> (r: Barrel)
        requires
            old(physics).wf(),
            old(physics).can_create(1),
            in_world(pos),
        ensures
            final(physics).wf(),
            r.body == old(physics).next(),
            final(physics).next() == old(physics).next() + 1,
            final(physics).live() == old(physics).live().insert(
                r.body,
                BodyInfo { data: ObjectData::Barrel, position: pos },
            ),
            final(physics).pending() == old(physics).pending().push(
                (Command::Create {
                    handle: r.body,
                    data: ObjectData::Barrel,
                    position: pos,
                    width: size.width,
                    height: size.height,
                    velocity: Point { x: 0, y: 0 },
                }),
            ),
    {
        Barrel { body: physics.create_barrel(pos, size.width, size.height) }
    }

    /// The barrel's position as last reported by the engine.
    pub fn position(&self, physics: &Physics) -> (r: Point)
        requires
            physics.live().contains_key(self.body),
        ensures
            r == physics.live()[self.body].position,
    {
        physics.position(self.body)
    }

    /// The barrel's body.
    pub fn handle(&self) -> (r: BodyHandle)
        ensures
            r == self.body,
    {
        self.body
    }

    /// Removes the barrel's body from the world.
    pub fn destroy(&self, physics: &mut Physics)
        requires
            old(physics).wf(),
            old(physics).live().contains_key(self.body),
        ensures
            final(physics).wf(),
            final(physics).next() == old(physics).next(),
            final(physics).live() == old(physics).live().remove(self.body),
            final(physics).pending() == old(physics).pending().push(
                Command::Destroy { handle: self.body },
            ),
    {
        physics.destroy_body(self.body);
    }

    /// Checks the player's projectiles against the barrel. The first one that
    /// touches it blows it up: both bodies go, a burst of `BARREL_BURST`
    /// particles fills the barrel's box, and the result is `true`.
    pub fn update(
        &self,
        physics: &mut Physics,
        particles: &mut Vec<ParticleSystem>,
        player: &mut Player,
        contacts: &Vec<Contact>,
        size: Size,
    ) -> (hit: bool)
        requires
            old(physics).wf(),
            old(physics).can_create(BARREL_BURST as nat),
            old(player).wf_in(old(physics)),
            old(physics).live().contains_key(self.body),
            old(physics).live()[self.body].data == ObjectData::Barrel,
        ensures
            final(physics).wf(),
            hit_effect(
                *old(player),
                *final(player),
                *old(physics),
                *final(physics),
                old(particles)@,
                final(particles)@,
                contacts@,
                self.body,
                BARREL_BURST as nat,
                hit,
            ),
            hit ==> final(particles)@.last().wf() && final(particles)@.last().owned_in(
                final(physics).live(),
            ),
    {
        resolve_hit(physics, particles, player, contacts, self.body, size, BARREL_BURST)
    }
}

/// Which piece of ground a tile is.
#[derive(Clone, Copy, Debug, PartialEq, Eq, Structural)]
pub enum TileType {
    Left,
    Center,
    Right,
}

/// A static piece of ground.
#[derive(Clone, Copy, Debug, PartialEq, Eq, Structural)]
pub struct Tile {
    pub body: BodyHandle,
    pub tile_type: TileType,
    pub size: Size,
}

impl Tile {
    /// A tile of `tile_type` and `size` centred at `pos`.
    pub fn new(pos: Point, physics: &mut Physics, tile_type: TileType, size: Size) -> (r: Tile)
        requires
            old(physics).wf(),
            old(physics).can_create(1),
            in_world(pos),
        ensures
            final(physics).wf(),
            r.body == old(physics).next(),
            r.tile_type == tile_type,
            r.size == size,
            final(physics).next() == old(physics).next() + 1,
            final(physics).live() == old(physics).live().insert(
                r.body,
                BodyInfo { data: ObjectData::Ground, position: pos },
            ),
            final(physics).pending() == old(physics).pending().push(
                (Command::Create {
                    handle: r.body,
                    data: ObjectData::Ground,
                    position: pos,
                    width: size.width,
                    height: size.height,
                    velocity: Point { x: 0, y: 0 },
                }),
            ),
    {
        Tile { body: physics.create_tile(pos, size.width, size.height), tile_type, size }
    }

    /// The tile's position as last reported by the engine.
    pub fn position(&self, physics: &Physics) -> (r: Point)
        requires
            physics.live().contains_key(self.body),
        ensures
            r == physics.live()[self.body].position,
    {
        physics.position(self.body)
    }

    /// The tile's width and height.
    pub fn dimensions(&self) -> (r: Size)
        ensures
            r == self.size,
    {
        self.size
    }
}

} // verus!
