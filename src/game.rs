//! The frame controller: one logical tick of the game, from the engine's
//! report to the decisions it has to carry out.
use crate::camera::{shake_tick, within, Camera, CameraFeedback};
use crate::entities::{
    exploded, first_hit_from, lemma_first_hit_bounds, Barrel, Enemy, Size, Tile,
    TileType, BARREL_BURST, ENEMY_BURST,
};
use crate::level::{
    has_player, level_ok, player_point, points_of, spawn_kind, spawn_ok, spawn_point, Level,
    LevelError, Spawn, ACTOR_DROP, TILE_DROP,
};
use crate::particles::ParticleSystem;
use crate::physics::{BodyHandle, BodyInfo, Contact, ObjectData, Physics, Point, WORLD_LIMIT};
use crate::player::{
    movement_commands, weapons_step, Direction, Player, PlayerInput, MAX_AMMO, MAX_HEALTH, START_LIFT,
};
use crate::weapon::{first_barrel, PlayerWeapon, WeaponType};
use vstd::prelude::*;

verus! {

/// Shake magnitude after an enemy is destroyed.
pub const ENEMY_SHAKE: i64 = 3;

/// Shake magnitude after a barrel blows up.
pub const BARREL_SHAKE: i64 = 5;

/// The screen the game shows.
#[derive(Clone, Copy, Debug, PartialEq, Eq, Structural)]
pub enum Screen {
    /// The menu screen.
    Menu,
    /// The game screen.
    Play,
    /// The death screen.
    Dead,
}

/// Only every that many ticks runs while slow motion is held.
pub const SLOW_MOTION_TICS: u32 = 6;

/// A key, decoded from the keyboard.
#[derive(Clone, Copy, Debug, PartialEq, Eq, Structural)]
pub enum Key {
    /// Fire the selected gun.
    Fire,
    /// Slow motion while held.
    SlowMotion,
    /// Leave the level for the menu, or start playing from the menu.
    Menu,
    /// Switch guns.
    SwitchWeapon,
    /// Any other key.
    Other,
}

/// What a key does on the menu screen: `Key::Menu` starts the game.
pub fn menu_key_press(key: Key) -> (r: Option<Screen>)
    ensures
        r == if key == Key::Menu {
            Some(Screen::Play)
        } else {
            None::<Screen>
        },
{
    if key == Key::Menu {
        Some(Screen::Play)
    } else {
        None
    }
}

/// A sound cue that the game emits for the driver to play.
#[derive(Clone, Copy, Debug, PartialEq, Eq, Structural)]
pub enum Cue {
    /// An enemy or a barrel blew up.
    Explosion,
    /// A weapon was fired.
    WeaponFire,
}

/// `n` explosion cues.
pub open spec fn explosions(n: int) -> Seq<Cue> {
    Seq::new(n as nat, |i: int| Cue::Explosion)
}

/// The sizes of the sprites, which give the bodies their extent.
#[derive(Clone, Copy, Debug, PartialEq, Eq, Structural)]
pub struct Sizes {
    pub player: Size,
    pub enemy: Size,
    pub barrel: Size,
    pub bullet: Size,
    pub tile_left: Size,
    pub tile_center: Size,
    pub tile_right: Size,
}

/// What the engine and the input report for one tick.
pub struct FrameInput {
    /// The contacts after the engine's step, in its order.
    pub contacts: Vec<Contact>,
    /// Milliseconds since the last tick.
    pub delta_ms: u32,
    /// Height of the visible area; falling below it kills the player.
    pub screen_height: i64,
    /// The decoded input.
    pub input: PlayerInput,
    /// The engine's distance between the player and a grappled body.
    pub grapple_distance: i64,
}

/// `h` is a live body of category `data`.
pub open spec fn is_body_of(live: Map<BodyHandle, BodyInfo>, h: BodyHandle, data: ObjectData) -> bool {
    live.contains_key(h) && live[h].data == data
}

/// Every handle in `hs` is a live body of category `data`, and no two are equal.
pub open spec fn handles_live(
    hs: Seq<BodyHandle>,
    live: Map<BodyHandle, BodyInfo>,
    data: ObjectData,
) -> bool {
    &&& forall|i: int| 0 <= i < hs.len() ==> #[trigger] is_body_of(live, hs[i], data)
    &&& forall|i: int, j: int|
        0 <= i < hs.len() && 0 <= j < hs.len() && i != j ==> #[trigger] hs[i] != #[trigger] hs[j]
}

/// The bodies of the enemies.
pub open spec fn enemy_handles(es: Seq<Enemy>) -> Seq<BodyHandle> {
    es.map_values(|e: Enemy| e.body)
}

/// The bodies of the barrels.
pub open spec fn barrel_handles(bs: Seq<Barrel>) -> Seq<BodyHandle> {
    bs.map_values(|b: Barrel| b.body)
}

/// The bodies of the tiles.
pub open spec fn tile_handles(ts: Seq<Tile>) -> Seq<BodyHandle> {
    ts.map_values(|t: Tile| t.body)
}

/// Every burst is well formed, owns live particle bodies and still has time
/// left, and bursts own disjoint bodies, older bursts lower handles.
pub open spec fn bursts_live(ps: Seq<ParticleSystem>, live: Map<BodyHandle, BodyInfo>) -> bool {
    &&& forall|i: int|
        0 <= i < ps.len() ==> {
            &&& (#[trigger] ps[i]).wf()
            &&& ps[i].owned_in(live)
            &&& ps[i].remaining() > 0
        }
    &&& forall|i: int, j: int, a: int, b: int|
        0 <= i < j < ps.len() && 0 <= a < ps[i].handles().len() && 0 <= b < ps[j].handles().len()
            ==> #[trigger] ps[i].handles()[a] < #[trigger] ps[j].handles()[b]
}

/// `after` keeps every body of `before` whose category is `data`, unchanged.
pub open spec fn keeps(
    before: Map<BodyHandle, BodyInfo>,
    after: Map<BodyHandle, BodyInfo>,
    data: ObjectData,
) -> bool {
    forall|h: BodyHandle| #[trigger]
        before.contains_key(h) && before[h].data == data ==> after.contains_key(h) && after[h]
            == before[h]
}

/// `after` keeps every particle body of `before`, unchanged.
pub open spec fn keeps_particles(
    before: Map<BodyHandle, BodyInfo>,
    after: Map<BodyHandle, BodyInfo>,
) -> bool {
    forall|h: BodyHandle| #[trigger]
        before.contains_key(h) && before[h].data is Particle ==> after.contains_key(h) && after[h]
            == before[h]
}

proof fn lemma_handles_kept(
    hs: Seq<BodyHandle>,
    before: Map<BodyHandle, BodyInfo>,
    after: Map<BodyHandle, BodyInfo>,
    data: ObjectData,
)
    requires
        handles_live(hs, before, data),
        keeps(before, after, data),
    ensures
        handles_live(hs, after, data),
{
    assert forall|i: int| 0 <= i < hs.len() implies #[trigger] is_body_of(after, hs[i], data) by {
        assert(is_body_of(before, hs[i], data));
    }
    assert forall|i: int, j: int| 0 <= i < hs.len() && 0 <= j < hs.len() && i != j implies #[trigger] hs[i]
        != #[trigger] hs[j] by {
    }
}

proof fn lemma_handles_removed(
    hs: Seq<BodyHandle>,
    k: int,
    before: Map<BodyHandle, BodyInfo>,
    after: Map<BodyHandle, BodyInfo>,
    data: ObjectData,
)
    requires
        handles_live(hs, before, data),
        0 <= k < hs.len(),
        forall|h: BodyHandle| #[trigger]
            before.contains_key(h) && before[h].data == data && h != hs[k] ==> after.contains_key(h)
                && after[h] == before[h],
    ensures
        handles_live(hs.remove(k), after, data),
{
    let r = hs.remove(k);
    assert forall|i: int| 0 <= i < r.len() implies #[trigger] is_body_of(after, r[i], data) by {
        let b = if i < k { i } else { i + 1 };
        assert(r[i] == hs[b]);
        assert(is_body_of(before, hs[b], data));
        assert(hs[b] != hs[k]);
    }
    assert forall|i: int, j: int| 0 <= i < r.len() && 0 <= j < r.len() && i != j implies #[trigger] r[i]
        != #[trigger] r[j] by {
        let bi = if i < k { i } else { i + 1 };
        let bj = if j < k { j } else { j + 1 };
        assert(r[i] == hs[bi]);
        assert(r[j] == hs[bj]);
    }
}

proof fn lemma_bursts_kept(
    ps: Seq<ParticleSystem>,
    before: Map<BodyHandle, BodyInfo>,
    after: Map<BodyHandle, BodyInfo>,
)
    requires
        bursts_live(ps, before),
        keeps_particles(before, after),
    ensures
        bursts_live(ps, after),
{
    assert forall|i: int| 0 <= i < ps.len() implies (#[trigger] ps[i]).owned_in(after) by {
        assert forall|k: int| 0 <= k < ps[i].handles().len() implies {
            &&& #[trigger] after.contains_key(ps[i].handles()[k])
            &&& after[ps[i].handles()[k]].data is Particle
        } by {
            assert(before.contains_key(ps[i].handles()[k]));
        }
    }
}

proof fn lemma_bursts_after_explosion(
    ps0: Seq<ParticleSystem>,
    ps1: Seq<ParticleSystem>,
    live0: Map<BodyHandle, BodyInfo>,
    live1: Map<BodyHandle, BodyInfo>,
    next0: nat,
    n: nat,
    target: BodyHandle,
    bullet: BodyHandle,
)
    requires
        bursts_live(ps0, live0),
        forall|h: BodyHandle| #[trigger] live0.contains_key(h) ==> h < next0,
        live0.contains_key(target) && !(live0[target].data is Particle),
        live0.contains_key(bullet) && !(live0[bullet].data is Particle),
        exploded(live0, live1, next0, n, target, bullet),
        ps1.len() == ps0.len() + 1,
        ps1.take(ps0.len() as int) == ps0,
        ps1.last().wf(),
        ps1.last().owned_in(live1),
        ps1.last().remaining() > 0,
        ps1.last().handles().len() == n,
        n > 0 ==> ps1.last().handles()[0] == next0,
    ensures
        bursts_live(ps1, live1),
{
    assert forall|i: int| 0 <= i < ps0.len() implies ps1[i] == ps0[i] by {
        assert(ps1.take(ps0.len() as int)[i] == ps1[i]);
    }
    assert forall|i: int| 0 <= i < ps1.len() implies {
        &&& (#[trigger] ps1[i]).wf()
        &&& ps1[i].owned_in(live1)
        &&& ps1[i].remaining() > 0
    } by {
        if i < ps0.len() {
            assert(ps1[i] == ps0[i]);
            assert forall|k: int| 0 <= k < ps1[i].handles().len() implies {
                &&& #[trigger] live1.contains_key(ps1[i].handles()[k])
                &&& live1[ps1[i].handles()[k]].data is Particle
            } by {
                let h = ps0[i].handles()[k];
                assert(live0.contains_key(h));
                assert(h != target && h != bullet);
            }
        }
    }
    assert forall|i: int, j: int, a: int, b: int|
        0 <= i < j < ps1.len() && 0 <= a < ps1[i].handles().len() && 0 <= b
            < ps1[j].handles().len() implies #[trigger] ps1[i].handles()[a]
        < #[trigger] ps1[j].handles()[b] by {
        assert(ps1[i] == ps0[i]);
        if j < ps0.len() {
            assert(ps1[j] == ps0[j]);
        } else {
            let last = ps1.last();
            assert(last.handles()[b] == last.handles()[0] + b);
            assert(live0.contains_key(ps0[i].handles()[a]));
        }
    }
}

/// The bodies of the bursts whose time runs out after `delta` more milliseconds.
pub open spec fn expired_handles(ps: Seq<ParticleSystem>, delta: int) -> Set<BodyHandle>
    decreases ps.len(),
{
    if ps.len() == 0 {
        Set::empty()
    } else {
        let rest = expired_handles(ps.drop_last(), delta);
        if ps.last().remaining() - delta <= 0 {
            rest.union(ps.last().handles().to_set())
        } else {
            rest
        }
    }
}

/// The bodies of each burst that still has time left after `delta` more
/// milliseconds, in order.
pub open spec fn surviving(ps: Seq<ParticleSystem>, delta: int) -> Seq<Seq<BodyHandle>>
    decreases ps.len(),
{
    if ps.len() == 0 {
        Seq::empty()
    } else {
        let rest = surviving(ps.drop_last(), delta);
        if ps.last().remaining() - delta > 0 {
            rest.push(ps.last().handles())
        } else {
            rest
        }
    }
}

/// The bodies of the bursts.
pub open spec fn burst_handles(ps: Seq<ParticleSystem>) -> Seq<Seq<BodyHandle>> {
    ps.map_values(|p: ParticleSystem| p.handles())
}

/// `after` is `before` without some particle bodies.
pub open spec fn lost_particles_only(
    before: Map<BodyHandle, BodyInfo>,
    after: Map<BodyHandle, BodyInfo>,
) -> bool {
    &&& forall|h: BodyHandle| #[trigger]
        after.contains_key(h) ==> before.contains_key(h) && after[h] == before[h]
    &&& forall|h: BodyHandle| #[trigger]
        before.contains_key(h) && !(before[h].data is Particle) ==> after.contains_key(h)
}

proof fn lemma_player_kept(
    player: Player,
    before: &Physics,
    after: &Physics,
)
    requires
        player.wf_in(before),
        keeps(before.live(), after.live(), ObjectData::Player),
        keeps(before.live(), after.live(), ObjectData::Bullet),
    ensures
        player.wf_in(after),
{
    let ws = player.weapons@;
    assert forall|i: int| 0 <= i < ws.len() && #[trigger] ws[i] is Turbofish implies {
        &&& after.live().contains_key(ws[i]->Turbofish_0.body())
        &&& after.live()[ws[i]->Turbofish_0.body()].data == ObjectData::Bullet
    } by {
        assert(before.live().contains_key(ws[i]->Turbofish_0.body()));
    }
}

proof fn lemma_bursts_after_expiry(
    ps: Seq<ParticleSystem>,
    i: int,
    live1: Map<BodyHandle, BodyInfo>,
    live2: Map<BodyHandle, BodyInfo>,
)
    requires
        bursts_live(ps, live1),
        0 <= i < ps.len(),
        live2 == live1.remove_keys(ps[i].handles().to_set()),
    ensures
        bursts_live(ps.remove(i), live2),
{
    let hs = ps[i].handles();
    let np = ps.remove(i);
    assert forall|a: int| 0 <= a < np.len() implies {
        &&& (#[trigger] np[a]).wf()
        &&& np[a].owned_in(live2)
        &&& np[a].remaining() > 0
    } by {
        let b = if a < i { a } else { a + 1 };
        assert(np[a] == ps[b]);
        assert(ps[b].wf() && ps[b].remaining() > 0);
        assert forall|k: int| 0 <= k < ps[b].handles().len() implies {
            &&& #[trigger] live2.contains_key(ps[b].handles()[k])
            &&& live2[ps[b].handles()[k]].data is Particle
        } by {
            let h = ps[b].handles()[k];
            assert(live1.contains_key(h));
            if hs.to_set().contains(h) {
                let m = choose|m: int| 0 <= m < hs.len() && hs[m] == h;
                if b < i {
                    assert(ps[b].handles()[k] < ps[i].handles()[m]);
                } else {
                    assert(ps[i].handles()[m] < ps[b].handles()[k]);
                }
            }
        }
    }
    assert forall|a: int, c: int, x: int, y: int|
        0 <= a < c < np.len() && 0 <= x < np[a].handles().len() && 0 <= y
            < np[c].handles().len() implies #[trigger] np[a].handles()[x]
        < #[trigger] np[c].handles()[y] by {
        let ba = if a < i { a } else { a + 1 };
        let bc = if c < i { c } else { c + 1 };
        assert(np[a] == ps[ba]);
        assert(np[c] == ps[bc]);
    }
}

proof fn lemma_bursts_after_tick(
    ps: Seq<ParticleSystem>,
    i: int,
    sys: ParticleSystem,
    live: Map<BodyHandle, BodyInfo>,
)
    requires
        bursts_live(ps, live),
        0 <= i < ps.len(),
        sys.wf(),
        sys.owned_in(live),
        sys.remaining() > 0,
        sys.handles() == ps[i].handles(),
    ensures
        bursts_live(ps.update(i, sys), live),
{
    let np = ps.update(i, sys);
    assert forall|a: int| 0 <= a < np.len() implies {
        &&& (#[trigger] np[a]).wf()
        &&& np[a].owned_in(live)
        &&& np[a].remaining() > 0
    } by {
        if a != i {
            assert(np[a] == ps[a]);
        }
    }
    assert forall|a: int, c: int, x: int, y: int|
        0 <= a < c < np.len() && 0 <= x < np[a].handles().len() && 0 <= y
            < np[c].handles().len() implies #[trigger] np[a].handles()[x]
        < #[trigger] np[c].handles()[y] by {
        assert(np[a].handles() == ps[a].handles());
        assert(np[c].handles() == ps[c].handles());
    }
}

proof fn lemma_handles_insert(
    hs: Seq<BodyHandle>,
    live: Map<BodyHandle, BodyInfo>,
    h: BodyHandle,
    info: BodyInfo,
    data: ObjectData,
)
    requires
        handles_live(hs, live, data),
        !live.contains_key(h),
    ensures
        handles_live(hs, live.insert(h, info), data),
        info.data == data ==> handles_live(hs.push(h), live.insert(h, info), data),
{
    let after = live.insert(h, info);
    assert forall|i: int| 0 <= i < hs.len() implies #[trigger] is_body_of(after, hs[i], data) by {
        assert(is_body_of(live, hs[i], data));
    }
    if info.data == data {
        let p = hs.push(h);
        assert forall|i: int| 0 <= i < p.len() implies #[trigger] is_body_of(after, p[i], data) by {
            if i < hs.len() {
                assert(p[i] == hs[i]);
                assert(is_body_of(live, hs[i], data));
            }
        }
        assert forall|i: int, j: int| 0 <= i < p.len() && 0 <= j < p.len() && i != j implies #[trigger] p[i]
            != #[trigger] p[j] by {
            if i < hs.len() {
                assert(is_body_of(live, hs[i], data));
            }
            if j < hs.len() {
                assert(is_body_of(live, hs[j], data));
            }
        }
    }
}

/// Hits on the barrels `bs`, resolved in order against the weapons `ws`:
/// a barrel that a projectile touches goes, together with the first such
/// projectile; the barrels that stay and the weapons left.
pub open spec fn barrel_pass(bs: Seq<Barrel>, ws: Seq<PlayerWeapon>, contacts: Seq<Contact>) -> (
    Seq<Barrel>,
    Seq<PlayerWeapon>,
)
    decreases bs.len(),
{
    if bs.len() == 0 {
        (bs, ws)
    } else {
        let k = first_hit_from(ws, contacts, bs[0].body, 0);
        if k < ws.len() {
            barrel_pass(bs.drop_first(), ws.remove(k), contacts)
        } else {
            let rest = barrel_pass(bs.drop_first(), ws, contacts);
            (seq![bs[0]] + rest.0, rest.1)
        }
    }
}

/// Each barrel that goes takes exactly one weapon with it.
pub proof fn lemma_barrel_pass_pairs(bs: Seq<Barrel>, ws: Seq<PlayerWeapon>, contacts: Seq<Contact>)
    ensures
        barrel_pass(bs, ws, contacts).0.len() <= bs.len(),
        bs.len() - barrel_pass(bs, ws, contacts).0.len() == ws.len() - barrel_pass(
            bs,
            ws,
            contacts,
        ).1.len(),
    decreases bs.len(),
{
    if bs.len() > 0 {
        let k = first_hit_from(ws, contacts, bs[0].body, 0);
        lemma_first_hit_bounds(ws, contacts, bs[0].body, 0);
        if k < ws.len() {
            lemma_barrel_pass_pairs(bs.drop_first(), ws.remove(k), contacts);
        } else {
            lemma_barrel_pass_pairs(bs.drop_first(), ws, contacts);
        }
    }
}

/// The bodies `hs` are live and stand at `pts`, one for one.
pub open spec fn placed(live: Map<BodyHandle, BodyInfo>, hs: Seq<BodyHandle>, pts: Seq<Point>) -> bool {
    &&& hs.len() == pts.len()
    &&& forall|j: int|
        0 <= j < hs.len() ==> live.contains_key(#[trigger] hs[j]) && live[hs[j]].position == pts[j]
}

proof fn lemma_placed_insert(
    hs: Seq<BodyHandle>,
    pts: Seq<Point>,
    live: Map<BodyHandle, BodyInfo>,
    h: BodyHandle,
    info: BodyInfo,
)
    requires
        placed(live, hs, pts),
        !live.contains_key(h),
    ensures
        placed(live.insert(h, info), hs, pts),
        placed(live.insert(h, info), hs.push(h), pts.push(info.position)),
{
    let after = live.insert(h, info);
    assert forall|j: int| 0 <= j < hs.len() implies after.contains_key(#[trigger] hs[j])
        && after[hs[j]].position == pts[j] by {
        assert(live.contains_key(hs[j]));
    }
    let p = hs.push(h);
    assert forall|j: int| 0 <= j < p.len() implies after.contains_key(#[trigger] p[j])
        && after[p[j]].position == pts.push(info.position)[j] by {
        if j < hs.len() {
            assert(p[j] == hs[j]);
            assert(live.contains_key(hs[j]));
        }
    }
}

proof fn lemma_placed_kept(
    hs: Seq<BodyHandle>,
    pts: Seq<Point>,
    before: Map<BodyHandle, BodyInfo>,
    after: Map<BodyHandle, BodyInfo>,
    data: ObjectData,
)
    requires
        placed(before, hs, pts),
        handles_live(hs, before, data),
        keeps(before, after, data),
    ensures
        placed(after, hs, pts),
{
    assert forall|j: int| 0 <= j < hs.len() implies after.contains_key(#[trigger] hs[j])
        && after[hs[j]].position == pts[j] by {
        assert(is_body_of(before, hs[j], data));
    }
}

/// Hits on the enemies `bs`, resolved in order against the weapons `ws`:
/// an enemy that a projectile touches goes, together with the first such
/// projectile; the enemies that stay and the weapons left.
pub open spec fn enemy_pass(bs: Seq<Enemy>, ws: Seq<PlayerWeapon>, contacts: Seq<Contact>) -> (
    Seq<Enemy>,
    Seq<PlayerWeapon>,
)
    decreases bs.len(),
{
    if bs.len() == 0 {
        (bs, ws)
    } else {
        let k = first_hit_from(ws, contacts, bs[0].body, 0);
        if k < ws.len() {
            enemy_pass(bs.drop_first(), ws.remove(k), contacts)
        } else {
            let rest = enemy_pass(bs.drop_first(), ws, contacts);
            (seq![bs[0]] + rest.0, rest.1)
        }
    }
}

/// Each enemy that goes takes exactly one weapon with it.
pub proof fn lemma_enemy_pass_pairs(bs: Seq<Enemy>, ws: Seq<PlayerWeapon>, contacts: Seq<Contact>)
    ensures
        enemy_pass(bs, ws, contacts).0.len() <= bs.len(),
        bs.len() - enemy_pass(bs, ws, contacts).0.len() == ws.len() - enemy_pass(
            bs,
            ws,
            contacts,
        ).1.len(),
    decreases bs.len(),
{
    if bs.len() > 0 {
        let k = first_hit_from(ws, contacts, bs[0].body, 0);
        lemma_first_hit_bounds(ws, contacts, bs[0].body, 0);
        if k < ws.len() {
            lemma_enemy_pass_pairs(bs.drop_first(), ws.remove(k), contacts);
        } else {
            lemma_enemy_pass_pairs(bs.drop_first(), ws, contacts);
        }
    }
}

/// The two games agree on everything but the world and its entities.
pub open spec fn same_settings(a: &Game, b: &Game) -> bool {
    &&& a.weapon == b.weapon
    &&& a.total_enemies == b.total_enemies
    &&& a.can_die == b.can_die
    &&& a.won == b.won
    &&& a.tics == b.tics
    &&& a.end == b.end
    &&& a.sizes == b.sizes
}

/// The world, the entities, the camera and the shake are the same in `a`
/// and `b`.
pub open spec fn same_world(a: Game, b: Game) -> bool {
    &&& b.physics == a.physics
    &&& same_player(b.player, a.player)
    &&& b.enemies@ == a.enemies@
    &&& b.barrels@ == a.barrels@
    &&& b.ground@ == a.ground@
    &&& b.particles@ == a.particles@
    &&& b.camera == a.camera
    &&& b.feedback == a.feedback
    &&& b.cues@ == a.cues@
}

/// The other gun.
pub open spec fn switched(w: WeaponType) -> WeaponType {
    match w {
        WeaponType::Turbofish => WeaponType::Grappling,
        WeaponType::Grappling => WeaponType::Turbofish,
    }
}

/// What firing the selected gun does (see `Game::fire`), `fired` telling
/// whether a weapon came out.
pub open spec fn fire_effect(a: Game, b: Game, hits: Seq<BodyHandle>, fired: bool) -> bool {
    &&& a.player.ammo == 0 ==> {
        &&& !fired
        &&& b.player.ammo == 0
        &&& b.physics.live() == a.physics.live()
        &&& b.physics.next() == a.physics.next()
        &&& b.player.weapons@ == a.player.weapons@
    }
    &&& a.player.ammo > 0 && a.weapon == WeaponType::Turbofish ==> {
        &&& fired
        &&& b.player.ammo == a.player.ammo - 1
        &&& b.player.weapons@.len() == a.player.weapons@.len() + 1
        &&& b.player.weapons@.drop_last() == a.player.weapons@
        &&& b.player.weapons@.last() matches PlayerWeapon::Turbofish(t)
        &&& t.body() == a.physics.next()
        &&& t.age() == 0
        &&& b.physics.live().contains_key(t.body())
        &&& b.physics.live()[t.body()].data == ObjectData::Bullet
        &&& b.physics.next() == a.physics.next() + 1
    }
    &&& a.player.ammo > 0 && a.weapon == WeaponType::Grappling ==> {
        &&& b.player.ammo == a.player.ammo
        &&& b.physics.live() == a.physics.live()
        &&& b.physics.next() == a.physics.next()
        &&& match first_barrel(a.physics.live(), hits) {
            None => !fired && b.player.weapons@ == a.player.weapons@,
            Some(barrel) => {
                &&& fired
                &&& b.player.weapons@.len() == a.player.weapons@.len() + 1
                &&& b.player.weapons@.drop_last() == a.player.weapons@
                &&& b.player.weapons@.last() matches PlayerWeapon::Grappling(g)
                &&& g.target() == barrel
                &&& g.holder() == a.player.body
            },
        }
    }
    &&& b.player.body == a.player.body
    &&& b.player.health == a.player.health
    &&& b.player.direction == a.player.direction
    &&& b.enemies@ == a.enemies@
    &&& b.barrels@ == a.barrels@
    &&& b.ground@ == a.ground@
    &&& b.particles@ == a.particles@
    &&& b.camera == a.camera
    &&& b.feedback == a.feedback
    &&& b.cues@ == if fired {
        a.cues@.push(Cue::WeaponFire)
    } else {
        a.cues@
    }
    &&& same_settings(&b, &a)
}

/// Nothing of the game differs between `a` and `b`.
pub open spec fn unchanged(a: Game, b: Game) -> bool {
    &&& b.physics == a.physics
    &&& same_player(b.player, a.player)
    &&& b.enemies@ == a.enemies@
    &&& b.barrels@ == a.barrels@
    &&& b.ground@ == a.ground@
    &&& b.particles@ == a.particles@
    &&& b.camera == a.camera
    &&& b.feedback == a.feedback
    &&& b.cues@ == a.cues@
    &&& same_settings(&b, &a)
}

/// The first stage of a tick: the player moves (one velocity change per
/// direction and for a jump, in that order) and its weapons update (see
/// `weapons_step`); the camera goes to where the player stands; a level
/// without enemies is won and the player can no longer die.
pub open spec fn player_stage(a: Game, b: Game, contacts: Seq<Contact>, input: PlayerInput) -> bool {
    &&& b.player.body == a.player.body
    &&& b.player.ammo == a.player.ammo
    &&& b.player.health == a.player.health
    &&& b.player.direction == if input.jump {
        Direction::Idle
    } else if input.left {
        Direction::Left
    } else if input.right {
        Direction::Right
    } else {
        a.player.direction
    }
    &&& weapons_step(
        a.player.weapons@,
        b.player.weapons@,
        a.physics.live(),
        b.physics.live(),
        contacts,
        input.fire_held,
    )
    &&& (a.physics.pending() + movement_commands(a.player.body, input)).is_prefix_of(
        b.physics.pending(),
    )
    &&& b.physics.next() == a.physics.next()
    &&& b.camera.at() == a.physics.live()[a.player.body].position
    &&& b.won == (a.won || a.enemies@.len() == 0)
    &&& b.can_die == (a.can_die && a.enemies@.len() > 0)
    &&& b.enemies@ == a.enemies@
    &&& b.barrels@ == a.barrels@
    &&& b.ground@ == a.ground@
    &&& b.particles@ == a.particles@
    &&& b.feedback == a.feedback
    &&& b.cues@ == a.cues@
    &&& b.weapon == a.weapon
    &&& b.total_enemies == a.total_enemies
    &&& b.tics == a.tics
    &&& b.end == a.end
    &&& b.sizes == a.sizes
}

/// The enemy stage of a tick (see `enemy_pass`): every enemy that a
/// projectile touches goes with that projectile, each with a burst of
/// `ENEMY_BURST` particles, its body destroyed, and the shake of the last one
/// has magnitude `ENEMY_SHAKE`; with no such enemy nothing changes.
pub open spec fn enemy_stage(a: Game, b: Game, contacts: Seq<Contact>) -> bool {
    let gone = a.enemies@.len() - b.enemies@.len();
    &&& (b.enemies@, b.player.weapons@) == enemy_pass(a.enemies@, a.player.weapons@, contacts)
    &&& gone == a.player.weapons@.len() - b.player.weapons@.len()
    &&& b.particles@.len() == a.particles@.len() + gone
    &&& b.cues@ == a.cues@ + explosions(gone)
    &&& forall|j: int|
        0 <= j < a.enemies@.len() && !b.enemies@.contains(#[trigger] a.enemies@[j])
            ==> !b.physics.live().contains_key(a.enemies@[j].body)
    &&& gone > 0 ==> (b.feedback.state() matches Some(s) && s.elapsed == 1 && s.magnitude
        == ENEMY_SHAKE)
    &&& gone == 0 ==> unchanged(a, b)
    &&& b.barrels@ == a.barrels@
    &&& b.ground@ == a.ground@
    &&& same_settings(&b, &a)
    &&& b.player.ammo == a.player.ammo
    &&& b.player.body == a.player.body
}

/// The barrel stage of a tick (see `barrel_pass`): every barrel that a
/// projectile touches goes with that projectile, each with a burst, its body
/// destroyed, and the shake of the last one has magnitude `BARREL_SHAKE`;
/// with no such barrel nothing changes.
pub open spec fn barrel_stage(a: Game, b: Game, contacts: Seq<Contact>) -> bool {
    let gone = a.barrels@.len() - b.barrels@.len();
    &&& (b.barrels@, b.player.weapons@) == barrel_pass(a.barrels@, a.player.weapons@, contacts)
    &&& gone == a.player.weapons@.len() - b.player.weapons@.len()
    &&& b.particles@.len() == a.particles@.len() + gone
    &&& b.cues@ == a.cues@ + explosions(gone)
    &&& forall|j: int|
        0 <= j < a.barrels@.len() && !b.barrels@.contains(#[trigger] a.barrels@[j])
            ==> !b.physics.live().contains_key(a.barrels@[j].body)
    &&& gone > 0 ==> (b.feedback.state() matches Some(s) && s.elapsed == 1 && s.magnitude
        == BARREL_SHAKE)
    &&& gone == 0 ==> unchanged(a, b)
    &&& b.enemies@ == a.enemies@
    &&& b.ground@ == a.ground@
    &&& same_settings(&b, &a)
    &&& b.player.ammo == a.player.ammo
    &&& b.player.body == a.player.body
}

/// The shake stage of a tick: one step of `shake_tick` with some offset
/// within the shake's magnitude; nothing else changes.
pub open spec fn shake_stage(a: Game, b: Game) -> bool {
    &&& exists|d: Point|
        (a.feedback.state() matches Some(s) ==> within(d, s.magnitude)) && (
        b.feedback.state(),
        b.camera.at(),
    ) == #[trigger] shake_tick(a.feedback.state(), a.camera.at(), d)
    &&& b.physics == a.physics
    &&& same_player(b.player, a.player)
    &&& b.enemies@ == a.enemies@
    &&& b.barrels@ == a.barrels@
    &&& b.ground@ == a.ground@
    &&& b.particles@ == a.particles@
    &&& b.cues@ == a.cues@
    &&& same_settings(&b, &a)
}

/// The particle stage of a tick: every burst counts down by `delta`; those
/// whose time runs out destroy their bodies and go.
pub open spec fn particle_stage(a: Game, b: Game, delta: int) -> bool {
    &&& burst_handles(b.particles@) == surviving(a.particles@, delta)
    &&& b.physics.live() == a.physics.live().remove_keys(expired_handles(a.particles@, delta))
    &&& b.physics.next() == a.physics.next()
    &&& same_player(b.player, a.player)
    &&& b.enemies@ == a.enemies@
    &&& b.barrels@ == a.barrels@
    &&& b.ground@ == a.ground@
    &&& b.feedback == a.feedback
    &&& b.camera == a.camera
    &&& b.cues@ == a.cues@
    &&& same_settings(&b, &a)
}

/// What one tick does (see `Game::inner_update`): the player stage; then, if
/// the player fell to its death, nothing more; otherwise the enemy, barrel,
/// shake and particle stages in turn.
pub open spec fn tick_effect(a: Game, b: Game, frame: FrameInput, r: Option<Screen>) -> bool {
    let contacts = frame.contacts@;
    &&& r == if a.can_die && a.enemies@.len() > 0 && a.physics.live()[a.player.body].position.y
        > frame.screen_height {
        Some(Screen::Dead)
    } else {
        None::<Screen>
    }
    &&& r is Some ==> player_stage(a, b, contacts, frame.input)
    &&& r is None ==> exists|g1: Game, g2: Game, g3: Game, g4: Game|
        #![trigger player_stage(a, g1, contacts, frame.input), enemy_stage(g1, g2, contacts), barrel_stage(g2, g3, contacts), shake_stage(g3, g4), particle_stage(g4, b, frame.delta_ms as int)]
        {
            &&& player_stage(a, g1, contacts, frame.input)
            &&& enemy_stage(g1, g2, contacts)
            &&& barrel_stage(g2, g3, contacts)
            &&& shake_stage(g3, g4)
            &&& particle_stage(g4, b, frame.delta_ms as int)
        }
}

/// The two players agree on every field.
pub open spec fn same_player(a: Player, b: Player) -> bool {
    &&& a.ammo == b.ammo
    &&& a.health == b.health
    &&& a.direction == b.direction
    &&& a.body == b.body
    &&& a.weapons@ == b.weapons@
}

/// One level in play.
pub struct Game {
    pub physics: Physics,
    pub player: Player,
    pub enemies: Vec<Enemy>,
    pub barrels: Vec<Barrel>,
    pub ground: Vec<Tile>,
    pub particles: Vec<ParticleSystem>,
    pub camera: Camera,
    pub feedback: CameraFeedback,
    /// The gun the player has selected.
    pub weapon: WeaponType,
    /// Number of enemies the level started with.
    pub total_enemies: usize,
    /// Cleared once the level is won, so that the player cannot die afterwards.
    pub can_die: bool,
    /// Set once every enemy is gone.
    pub won: bool,
    /// Run the tick only every that many ticks (slow motion), if set.
    pub tics: Option<u32>,
    /// The quote shown when the level is won.
    pub end: Option<Vec<u8>>,
    pub sizes: Sizes,
    /// Sound cues not yet taken by the driver, oldest first.
    pub cues: Vec<Cue>,
}

impl Game {
    /// Every entity's body is live and of its category, and every live body
    /// of those categories that the game tracks is accounted for once.
    pub open spec fn wf(&self) -> bool {
        &&& self.physics.wf()
        &&& self.player.wf_in(&self.physics)
        &&& handles_live(enemy_handles(self.enemies@), self.physics.live(), ObjectData::Enemy)
        &&& handles_live(barrel_handles(self.barrels@), self.physics.live(), ObjectData::Barrel)
        &&& handles_live(tile_handles(self.ground@), self.physics.live(), ObjectData::Ground)
        &&& bursts_live(self.particles@, self.physics.live())
        &&& self.feedback.wf()
    }

    /// Loads a level on a screen of height `screen_height`: a body for every
    /// directive, in order (a later player directive replaces an earlier
    /// one), the player lifted for the start, the camera on the player. A
    /// level that places something outside the world, or no player, is
    /// refused before anything runs.
    #[verifier::loop_isolation(false)]
    #[verifier::rlimit(60)]
    pub fn create(level: Level, sizes: Sizes, screen_height: u32) -> (r: Result<Game, LevelError>)
        ensures
            r is Err && r->Err_0 == LevelError::OutOfWorld <==> !level_ok(
                level.spawns@,
                screen_height,
            ),
            r is Err && r->Err_0 == LevelError::NoPlayer <==> level_ok(
                level.spawns@,
                screen_height,
            ) && !has_player(level.spawns@),
            r is Ok ==> {
                let g = r->Ok_0;
                &&& g.wf()
                &&& placed(g.physics.live(), tile_handles(g.ground@), points_of(level.spawns@, screen_height, 0))
                &&& placed(g.physics.live(), enemy_handles(g.enemies@), points_of(level.spawns@, screen_height, 1))
                &&& placed(g.physics.live(), barrel_handles(g.barrels@), points_of(level.spawns@, screen_height, 3))
                &&& player_point(level.spawns@, screen_height) matches Some(p)
                &&& g.physics.live()[g.player.body].position == (Point { x: p.x, y: (p.y - START_LIFT) as i64 })
                &&& g.camera.at() == g.physics.live()[g.player.body].position
                &&& g.total_enemies == g.enemies@.len()
                &&& g.particles@.len() == 0
                &&& g.feedback.state() is None
                &&& g.player.ammo == MAX_AMMO
                &&& g.player.health == MAX_HEALTH
                &&& g.player.weapons@.len() == 0
                &&& g.can_die
                &&& !g.won
                &&& g.tics is None
                &&& g.weapon == level.weapon
                &&& g.end == level.end
                &&& g.sizes == sizes
                &&& g.physics.next() == level.spawns@.len()
            },
    {
        let spawns = &level.spawns;
        let half = (screen_height / 2) as i64;
        let mut i: usize = 0;
        let mut seen_player = false;
        while i < spawns.len()
            invariant
                i <= spawns@.len(),
                half == (screen_height / 2) as i64,
                forall|k: int| 0 <= k < i ==> #[trigger] spawn_ok(spawns@[k], screen_height),
                seen_player == exists|k: int| 0 <= k < i && #[trigger] spawns@[k] is Player,
            decreases spawns@.len() - i,
        {
            let sp = spawns[i];
            let (x, y) = match sp {
                Spawn::Tile { x, .. } => (x, half - TILE_DROP),
                Spawn::Enemy { x } => (x, half - ACTOR_DROP),
                Spawn::Player { x } => (x, half - ACTOR_DROP),
                Spawn::Barrel { x } => (x, half - ACTOR_DROP),
            };
            assert(spawn_point(sp, screen_height) == Point { x, y });
            if x < -WORLD_LIMIT || x > WORLD_LIMIT || y < -WORLD_LIMIT || y > WORLD_LIMIT {
                assert(!spawn_ok(spawns@[i as int], screen_height));
                return Err(LevelError::OutOfWorld);
            }
            match sp {
                Spawn::Player { .. } => {
                    if y < START_LIFT - WORLD_LIMIT {
                        assert(!spawn_ok(spawns@[i as int], screen_height));
                        return Err(LevelError::OutOfWorld);
                    }
                    seen_player = true;
                },
                _ => {},
            }
            i = i + 1;
        }
        if !seen_player {
            return Err(LevelError::NoPlayer);
        }
        let tile_y = half - TILE_DROP;
        let actor_y = half - ACTOR_DROP;
        let mut physics = Physics::new();
        let mut enemies: Vec<Enemy> = Vec::new();
        let mut barrels: Vec<Barrel> = Vec::new();
        let mut ground: Vec<Tile> = Vec::new();
        let mut player: Option<Player> = None;
        let mut i: usize = 0;
        while i < spawns.len()
            invariant
                i <= spawns@.len(),
                half == (screen_height / 2) as i64,
                tile_y == half - TILE_DROP,
                actor_y == half - ACTOR_DROP,
                level_ok(spawns@, screen_height),
                has_player(spawns@),
                physics.wf(),
                physics.next() == i,
                handles_live(enemy_handles(enemies@), physics.live(), ObjectData::Enemy),
                handles_live(barrel_handles(barrels@), physics.live(), ObjectData::Barrel),
                handles_live(tile_handles(ground@), physics.live(), ObjectData::Ground),
                forall|h: BodyHandle| #[trigger]
                    physics.live().contains_key(h) ==> physics.live()[h].data != ObjectData::Bullet
                        && !(physics.live()[h].data is Particle),
                placed(physics.live(), tile_handles(ground@), points_of(spawns@.take(i as int), screen_height, 0)),
                placed(physics.live(), enemy_handles(enemies@), points_of(spawns@.take(i as int), screen_height, 1)),
                placed(physics.live(), barrel_handles(barrels@), points_of(spawns@.take(i as int), screen_height, 3)),
                player is Some <==> exists|k: int| 0 <= k < i && #[trigger] spawns@[k] is Player,
                player is Some <==> player_point(spawns@.take(i as int), screen_height) is Some,
                player matches Some(p) ==> {
                    &&& player_point(spawns@.take(i as int), screen_height) == Some(physics.live()[p.body].position)
                    &&& p.wf_in(&physics)
                    &&& p.ammo == MAX_AMMO
                    &&& p.health == MAX_HEALTH
                    &&& p.weapons@.len() == 0
                    &&& p.direction == Direction::Idle
                    &&& physics.live()[p.body].position.y >= START_LIFT - WORLD_LIMIT
                },
            decreases spawns@.len() - i,
        {
            let sp = spawns[i];
            assert(spawn_ok(spawns@[i as int], screen_height));
            let ghost live0 = physics.live();
            proof {
                assert(spawns@.take(i as int + 1).drop_last() == spawns@.take(i as int));
                assert(spawns@.take(i as int + 1).last() == sp);
                assert(!live0.contains_key(physics.next() as BodyHandle));
            }
            match sp {
                Spawn::Tile { x, tile_type } => {
                    let size = match tile_type {
                        TileType::Left => sizes.tile_left,
                        TileType::Center => sizes.tile_center,
                        TileType::Right => sizes.tile_right,
                    };
                    let tile = Tile::new(Point { x, y: tile_y }, &mut physics, tile_type, size);
                    let ghost info = BodyInfo { data: ObjectData::Ground, position: Point { x, y: tile_y } };
                    let ghost hs = tile_handles(ground@);
                    ground.push(tile);
                    proof {
                        lemma_handles_insert(enemy_handles(enemies@), live0, tile.body, info, ObjectData::Enemy);
                        lemma_handles_insert(barrel_handles(barrels@), live0, tile.body, info, ObjectData::Barrel);
                        lemma_handles_insert(hs, live0, tile.body, info, ObjectData::Ground);
                        assert(tile_handles(ground@) =~= hs.push(tile.body));
                        lemma_placed_insert(hs, points_of(spawns@.take(i as int), screen_height, 0), live0, tile.body, info);
                        lemma_placed_insert(enemy_handles(enemies@), points_of(spawns@.take(i as int), screen_height, 1), live0, tile.body, info);
                        lemma_placed_insert(barrel_handles(barrels@), points_of(spawns@.take(i as int), screen_height, 3), live0, tile.body, info);
                    }
                },
                Spawn::Enemy { x } => {
                    let enemy = Enemy::new(Point { x, y: actor_y }, &mut physics, sizes.enemy);
                    let ghost info = BodyInfo { data: ObjectData::Enemy, position: Point { x, y: actor_y } };
                    let ghost hs = enemy_handles(enemies@);
                    enemies.push(enemy);
                    proof {
                        lemma_handles_insert(hs, live0, enemy.body, info, ObjectData::Enemy);
                        assert(enemy_handles(enemies@) =~= hs.push(enemy.body));
                        lemma_placed_insert(hs, points_of(spawns@.take(i as int), screen_height, 1), live0, enemy.body, info);
                        lemma_placed_insert(tile_handles(ground@), points_of(spawns@.take(i as int), screen_height, 0), live0, enemy.body, info);
                        lemma_placed_insert(barrel_handles(barrels@), points_of(spawns@.take(i as int), screen_height, 3), live0, enemy.body, info);
                        lemma_handles_insert(barrel_handles(barrels@), live0, enemy.body, info, ObjectData::Barrel);
                        lemma_handles_insert(tile_handles(ground@), live0, enemy.body, info, ObjectData::Ground);
                    }
                },
                Spawn::Barrel { x } => {
                    let barrel = Barrel::new(Point { x, y: actor_y }, &mut physics, sizes.barrel);
                    let ghost info = BodyInfo { data: ObjectData::Barrel, position: Point { x, y: actor_y } };
                    let ghost hs = barrel_handles(barrels@);
                    barrels.push(barrel);
                    proof {
                        lemma_handles_insert(enemy_handles(enemies@), live0, barrel.body, info, ObjectData::Enemy);
                        lemma_handles_insert(hs, live0, barrel.body, info, ObjectData::Barrel);
                        assert(barrel_handles(barrels@) =~= hs.push(barrel.body));
                        lemma_placed_insert(hs, points_of(spawns@.take(i as int), screen_height, 3), live0, barrel.body, info);
                        lemma_placed_insert(tile_handles(ground@), points_of(spawns@.take(i as int), screen_height, 0), live0, barrel.body, info);
                        lemma_placed_insert(enemy_handles(enemies@), points_of(spawns@.take(i as int), screen_height, 1), live0, barrel.body, info);
                        lemma_handles_insert(tile_handles(ground@), live0, barrel.body, info, ObjectData::Ground);
                    }
                },
                Spawn::Player { x } => {
                    let ghost mid = live0;
                    match player {
                        Some(p) => {
                            physics.destroy_body(p.body);
                            proof {
                                let l1 = physics.live();
                                lemma_handles_kept(enemy_handles(enemies@), live0, l1, ObjectData::Enemy);
                                lemma_handles_kept(barrel_handles(barrels@), live0, l1, ObjectData::Barrel);
                                lemma_handles_kept(tile_handles(ground@), live0, l1, ObjectData::Ground);
                                lemma_placed_kept(tile_handles(ground@), points_of(spawns@.take(i as int), screen_height, 0), live0, l1, ObjectData::Ground);
                                lemma_placed_kept(enemy_handles(enemies@), points_of(spawns@.take(i as int), screen_height, 1), live0, l1, ObjectData::Enemy);
                                lemma_placed_kept(barrel_handles(barrels@), points_of(spawns@.take(i as int), screen_height, 3), live0, l1, ObjectData::Barrel);
                                mid = l1;
                            }
                        },
                        None => {},
                    }
                    let np = Player::new(Point { x, y: actor_y }, &mut physics, sizes.player.width, sizes.player.height);
                    let ghost info = BodyInfo { data: ObjectData::Player, position: Point { x, y: actor_y } };
                    proof {
                        assert(!mid.contains_key(np.body));
                        lemma_handles_insert(enemy_handles(enemies@), mid, np.body, info, ObjectData::Enemy);
                        lemma_handles_insert(barrel_handles(barrels@), mid, np.body, info, ObjectData::Barrel);
                        lemma_handles_insert(tile_handles(ground@), mid, np.body, info, ObjectData::Ground);
                        lemma_placed_insert(tile_handles(ground@), points_of(spawns@.take(i as int), screen_height, 0), mid, np.body, info);
                        lemma_placed_insert(enemy_handles(enemies@), points_of(spawns@.take(i as int), screen_height, 1), mid, np.body, info);
                        lemma_placed_insert(barrel_handles(barrels@), points_of(spawns@.take(i as int), screen_height, 3), mid, np.body, info);
                    }
                    player = Some(np);
                },
            }
            i = i + 1;
        }
        assert(spawns@.take(spawns@.len() as int) == spawns@);
        let player = match player {
            Some(p) => p,
            None => {
                return Err(LevelError::NoPlayer);
            },
        };
        let ghost before_lift = physics.live();
        player.init(&mut physics);
        proof {
            let after_lift = physics.live();
            lemma_handles_kept(enemy_handles(enemies@), before_lift, after_lift, ObjectData::Enemy);
            lemma_handles_kept(barrel_handles(barrels@), before_lift, after_lift, ObjectData::Barrel);
            lemma_handles_kept(tile_handles(ground@), before_lift, after_lift, ObjectData::Ground);
            lemma_placed_kept(tile_handles(ground@), points_of(spawns@, screen_height, 0), before_lift, after_lift, ObjectData::Ground);
            lemma_placed_kept(enemy_handles(enemies@), points_of(spawns@, screen_height, 1), before_lift, after_lift, ObjectData::Enemy);
            lemma_placed_kept(barrel_handles(barrels@), points_of(spawns@, screen_height, 3), before_lift, after_lift, ObjectData::Barrel);
        }
        let camera = Camera::new(player.position(&physics));
        let total_enemies = enemies.len();
        let game = Game {
            physics,
            player,
            enemies,
            barrels,
            ground,
            particles: Vec::new(),
            camera,
            feedback: CameraFeedback::new(),
            weapon: level.weapon,
            total_enemies,
            can_die: true,
            won: false,
            tics: None,
            end: level.end,
            sizes,
            cues: Vec::new(),
        };
        assert(game.particles@.len() == 0);
        Ok(game)
    }

    /// One logical tick, after the engine's step: the player moves and its
    /// weapons update, the camera follows it, a cleared level is marked won,
    /// a fall below the screen while the player can die ends the game, then
    /// hits on enemies and barrels are resolved, the shake advances and the
    /// bursts count down.
    pub fn inner_update(&mut self, frame: &FrameInput) -> (r: Option<Screen>)
        requires
            old(self).wf(),
            old(self).physics.can_create(
                (ENEMY_BURST * old(self).enemies@.len() + BARREL_BURST * old(self).barrels@.len()) as nat,
            ),
        ensures
            final(self).wf(),
            final(self).won == (old(self).won || old(self).enemies@.len() == 0),
            final(self).can_die == (old(self).can_die && old(self).enemies@.len() > 0),
            r == if final(self).can_die && old(self).physics.live()[old(
                self,
            ).player.body].position.y > frame.screen_height {
                Some(Screen::Dead)
            } else {
                None::<Screen>
            },
            final(self).enemies@.len() <= old(self).enemies@.len(),
            final(self).barrels@.len() <= old(self).barrels@.len(),
            r is Some ==> final(self).enemies@ == old(self).enemies@ && final(self).barrels@ == old(
                self,
            ).barrels@ && final(self).particles@ == old(self).particles@,
            final(self).ground@ == old(self).ground@,
            final(self).player.ammo == old(self).player.ammo,
            tick_effect(*old(self), *final(self), *frame, r),
    {
        let ghost live0 = self.physics.live();
        self.player.update(&mut self.physics, frame.input, &frame.contacts, frame.grapple_distance);
        proof {
            let live1 = self.physics.live();
            lemma_handles_kept(enemy_handles(self.enemies@), live0, live1, ObjectData::Enemy);
            lemma_handles_kept(barrel_handles(self.barrels@), live0, live1, ObjectData::Barrel);
            lemma_handles_kept(tile_handles(self.ground@), live0, live1, ObjectData::Ground);
            lemma_bursts_kept(self.particles@, live0, live1);
            assert(live1[self.player.body] == live0[self.player.body]);
        }
        let pos = self.player.position(&self.physics);
        self.camera.move_to(pos);
        if self.enemies.len() == 0 {
            self.won = true;
            self.can_die = false;
        }
        let ghost g1 = *self;
        assert(player_stage(*old(self), g1, frame.contacts@, frame.input));
        if pos.y > frame.screen_height && self.can_die {
            return Some(Screen::Dead);
        }
        assert(ENEMY_BURST * self.enemies@.len() + BARREL_BURST * self.barrels@.len() == ENEMY_BURST
            * old(self).enemies@.len() + BARREL_BURST * old(self).barrels@.len());
        let count = self.resolve_enemies(&frame.contacts);
        let ghost g2 = *self;
        assert(ENEMY_BURST * count <= ENEMY_BURST * g1.enemies@.len()) by (nonlinear_arith)
            requires
                count <= g1.enemies@.len(),
        ;
        self.resolve_barrels(&frame.contacts);
        let ghost g3 = *self;
        self.feedback.update(&mut self.camera);
        let ghost g4 = *self;
        assert(shake_stage(g3, g4));
        self.update_particles(frame.delta_ms);
        assert(player_stage(*old(self), g1, frame.contacts@, frame.input) && enemy_stage(
            g1,
            g2,
            frame.contacts@,
        ) && barrel_stage(g2, g3, frame.contacts@) && shake_stage(g3, g4) && particle_stage(
            g4,
            *self,
            frame.delta_ms as int,
        ));
        None
    }

    /// One tick as the event loop sees it: in slow motion only every
    /// `tics`-th tick runs (`tick` counts the loop's ticks), otherwise every
    /// tick does.
    pub fn update(&mut self, frame: &FrameInput, tick: u64) -> (r: Option<Screen>)
        requires
            old(self).wf(),
            old(self).physics.can_create(
                (ENEMY_BURST * old(self).enemies@.len() + BARREL_BURST * old(self).barrels@.len()) as nat,
            ),
        ensures
            final(self).wf(),
            if match old(self).tics {
                Some(t) => t > 0 && tick % (t as u64) == 0,
                None => true,
            } {
                tick_effect(*old(self), *final(self), *frame, r)
            } else {
                r is None && unchanged(*old(self), *final(self))
            },
    {
        match self.tics {
            Some(t) => {
                if t > 0 && tick % (t as u64) == 0 {
                    self.inner_update(frame)
                } else {
                    None
                }
            },
            None => self.inner_update(frame),
        }
    }

    /// Fires the selected gun (see `Player::shoot`); a weapon that comes out
    /// joins the player's weapons.
    pub fn fire(&mut self, hits: &Vec<BodyHandle>) -> (fired: bool)
        requires
            old(self).wf(),
            old(self).physics.can_create(1),
        ensures
            final(self).wf(),
            old(self).player.ammo == 0 ==> {
                &&& !fired
                &&& final(self).player.ammo == 0
                &&& final(self).physics.live() == old(self).physics.live()
                &&& final(self).physics.next() == old(self).physics.next()
                &&& final(self).player.weapons@ == old(self).player.weapons@
            },
            old(self).player.ammo > 0 && old(self).weapon == WeaponType::Turbofish ==> {
                &&& fired
                &&& final(self).player.ammo == old(self).player.ammo - 1
                &&& final(self).player.weapons@.len() == old(self).player.weapons@.len() + 1
                &&& final(self).player.weapons@.drop_last() == old(self).player.weapons@
                &&& final(self).player.weapons@.last() matches PlayerWeapon::Turbofish(t)
                &&& t.body() == old(self).physics.next()
                &&& final(self).physics.live().contains_key(t.body())
                &&& final(self).physics.live()[t.body()].data == ObjectData::Bullet
            },
            old(self).player.ammo > 0 && old(self).weapon == WeaponType::Grappling ==> {
                &&& final(self).player.ammo == old(self).player.ammo
                &&& final(self).physics.live() == old(self).physics.live()
                &&& fired == first_barrel(old(self).physics.live(), hits@) is Some
            },
            final(self).enemies@ == old(self).enemies@,
            final(self).barrels@ == old(self).barrels@,
            final(self).ground@ == old(self).ground@,
            final(self).particles@ == old(self).particles@,
            fire_effect(*old(self), *final(self), hits@, fired),
    {
        let ghost live0 = self.physics.live();
        let weapon = self.weapon;
        let bullet = self.sizes.bullet;
        let shot = self.player.shoot(&mut self.physics, &weapon, hits, bullet.width, bullet.height);
        let ghost live1 = self.physics.live();
        proof {
            assert forall|h: BodyHandle| #[trigger] live0.contains_key(h) implies live1.contains_key(h)
                && live1[h] == live0[h] by {
                assert(h < old(self).physics.next());
            }
            lemma_handles_kept(enemy_handles(self.enemies@), live0, live1, ObjectData::Enemy);
            lemma_handles_kept(barrel_handles(self.barrels@), live0, live1, ObjectData::Barrel);
            lemma_handles_kept(tile_handles(self.ground@), live0, live1, ObjectData::Ground);
            lemma_bursts_kept(self.particles@, live0, live1);
        }
        match shot {
            Some(w) => {
                let ghost ws = self.player.weapons@;
                self.player.weapons.push(w);
                self.cues.push(Cue::WeaponFire);
                proof {
                    let nws = self.player.weapons@;
                    assert(nws.drop_last() =~= ws);
                    assert forall|i: int| 0 <= i < nws.len() && #[trigger] nws[i] is Turbofish implies {
                        &&& live1.contains_key(nws[i]->Turbofish_0.body())
                        &&& live1[nws[i]->Turbofish_0.body()].data == ObjectData::Bullet
                    } by {
                        if i < ws.len() {
                            assert(nws[i] == ws[i]);
                        }
                    }
                    assert forall|i: int, j: int|
                        0 <= i < nws.len() && 0 <= j < nws.len() && i != j && #[trigger] nws[i] is Turbofish
                            && #[trigger] nws[j] is Turbofish implies nws[i]->Turbofish_0.body()
                        != nws[j]->Turbofish_0.body() by {
                        if i < ws.len() && j < ws.len() {
                            assert(nws[i] == ws[i] && nws[j] == ws[j]);
                        } else if i < ws.len() {
                            assert(nws[i] == ws[i]);
                            assert(live0.contains_key(ws[i]->Turbofish_0.body()));
                        } else {
                            assert(nws[j] == ws[j]);
                            assert(live0.contains_key(ws[j]->Turbofish_0.body()));
                        }
                    }
                }
                true
            },
            None => false,
        }
    }

    /// Hands the sound cues to the driver, oldest first.
    pub fn take_cues(&mut self) -> (r: Vec<Cue>)
        requires
            old(self).wf(),
        ensures
            final(self).wf(),
            r@ == old(self).cues@,
            final(self).cues@.len() == 0,
            final(self).physics == old(self).physics,
            same_player(final(self).player, old(self).player),
            final(self).enemies@ == old(self).enemies@,
            final(self).barrels@ == old(self).barrels@,
            final(self).ground@ == old(self).ground@,
            final(self).particles@ == old(self).particles@,
            final(self).camera == old(self).camera,
            final(self).feedback == old(self).feedback,
            same_settings(&*final(self), &*old(self)),
    {
        let mut out: Vec<Cue> = Vec::new();
        std::mem::swap(&mut out, &mut self.cues);
        out
    }

    /// Switches between the Turbofish gun and the grappling gun.
    pub fn switch_weapon(&mut self)
        ensures
            final(self).weapon == match old(self).weapon {
                WeaponType::Turbofish => WeaponType::Grappling,
                WeaponType::Grappling => WeaponType::Turbofish,
            },
            final(self).physics == old(self).physics,
            final(self).enemies@ == old(self).enemies@,
            final(self).barrels@ == old(self).barrels@,
            final(self).ground@ == old(self).ground@,
            final(self).particles@ == old(self).particles@,
            same_player(final(self).player, old(self).player),
            final(self).feedback == old(self).feedback,
            final(self).tics == old(self).tics,
            same_world(*old(self), *final(self)),
            final(self).won == old(self).won,
            final(self).can_die == old(self).can_die,
    {
        self.weapon = match self.weapon {
            WeaponType::Turbofish => WeaponType::Grappling,
            WeaponType::Grappling => WeaponType::Turbofish,
        };
    }

    /// Handles a key going down: fire, slow motion, back to the menu, or
    /// switching guns. `hits` are the bodies the engine's ray from the muzzle
    /// meets, used by the grappling gun.
    pub fn key_press(&mut self, key: Key, hits: &Vec<BodyHandle>) -> (r: Option<Screen>)
        requires
            old(self).wf(),
            old(self).physics.can_create(1),
        ensures
            final(self).wf(),
            r == if key == Key::Menu {
                Some(Screen::Menu)
            } else {
                None::<Screen>
            },
            key == Key::SlowMotion ==> final(self).tics == Some(6u32),
            key == Key::Fire && old(self).player.ammo == 0 ==> final(self).player.ammo == 0
                && final(self).physics.live() == old(self).physics.live(),
            key == Key::Fire && old(self).player.ammo > 0 && old(self).weapon
                == WeaponType::Turbofish ==> final(self).player.ammo == old(self).player.ammo - 1,
            key != Key::Fire ==> final(self).physics == old(self).physics
                && final(self).player.ammo == old(self).player.ammo,
            key == Key::Fire ==> exists|fired: bool| #[trigger]
                fire_effect(*old(self), *final(self), hits@, fired),
            key == Key::SlowMotion ==> same_world(*old(self), *final(self)) && final(self).weapon
                == old(self).weapon && final(self).won == old(self).won && final(self).can_die
                == old(self).can_die,
            key == Key::SwitchWeapon ==> same_world(*old(self), *final(self)) && final(self).weapon
                == switched(old(self).weapon) && final(self).tics == old(self).tics
                && final(self).won == old(self).won && final(self).can_die == old(self).can_die,
            key == Key::Menu || key == Key::Other ==> unchanged(*old(self), *final(self)),
    {
        match key {
            Key::Fire => {
                let fired = self.fire(hits);
                assert(fire_effect(*old(self), *self, hits@, fired));
                None
            },
            Key::SlowMotion => {
                self.tics = Some(SLOW_MOTION_TICS);
                None
            },
            Key::Menu => Some(Screen::Menu),
            Key::SwitchWeapon => {
                self.switch_weapon();
                None
            },
            Key::Other => None,
        }
    }

    /// Handles a key going up: leaving slow motion, and the player stops.
    pub fn key_up_event(&mut self, key: Key)
        requires
            old(self).wf(),
        ensures
            final(self).wf(),
            final(self).player.direction == Direction::Idle,
            key == Key::SlowMotion ==> final(self).tics is None,
            key != Key::SlowMotion ==> final(self).tics == old(self).tics,
            final(self).physics == old(self).physics,
    {
        if key == Key::SlowMotion {
            self.tics = None;
        }
        self.player.set_direction(Direction::Idle);
    }

    /// Blows up every barrel that a projectile touches, each with its burst
    /// and a shake of `BARREL_SHAKE`; each projectile destroys at most one
    /// barrel. Returns how many blew up.
    #[verifier::loop_isolation(false)]
    pub fn resolve_barrels(&mut self, contacts: &Vec<Contact>) -> (count: usize)
        requires
            old(self).wf(),
            old(self).physics.can_create((BARREL_BURST * old(self).barrels@.len()) as nat),
        ensures
            final(self).wf(),
            (final(self).barrels@, final(self).player.weapons@) == barrel_pass(
                old(self).barrels@,
                old(self).player.weapons@,
                contacts@,
            ),
            count == old(self).barrels@.len() - final(self).barrels@.len(),
            count == old(self).player.weapons@.len() - final(self).player.weapons@.len(),
            final(self).particles@.len() == old(self).particles@.len() + count,
            forall|j: int|
                0 <= j < final(self).barrels@.len() ==> old(self).barrels@.contains(
                    #[trigger] final(self).barrels@[j],
                ),
            forall|j: int|
                0 <= j < old(self).barrels@.len() && !final(self).barrels@.contains(
                    #[trigger] old(self).barrels@[j],
                ) ==> !final(self).physics.live().contains_key(old(self).barrels@[j].body),
            count > 0 ==> (final(self).feedback.state() matches Some(s) && s.elapsed == 1
                && s.magnitude == BARREL_SHAKE),
            count == 0 ==> {
                &&& final(self).barrels@ == old(self).barrels@
                &&& final(self).physics == old(self).physics
                &&& same_player(final(self).player, old(self).player)
                &&& final(self).particles@ == old(self).particles@
                &&& final(self).feedback == old(self).feedback
                &&& final(self).camera == old(self).camera
            },
            final(self).enemies@ == old(self).enemies@,
            final(self).ground@ == old(self).ground@,
            same_settings(&*final(self), &*old(self)),
            final(self).player.ammo == old(self).player.ammo,
            final(self).player.body == old(self).player.body,
            barrel_stage(*old(self), *final(self), contacts@),
    {
        let ghost olds = self.barrels@;
        let total: usize = self.barrels.len();
        let mut count: usize = 0;
        let mut id: usize = 0;
        proof {
            assert forall|j: int| 0 <= j < olds.len() implies #[trigger] olds[j].body < old(
                self,
            ).physics.next() by {
                assert(barrel_handles(olds)[j] == olds[j].body);
                assert(is_body_of(old(self).physics.live(), barrel_handles(olds)[j], ObjectData::Barrel));
            }
            assert(olds.skip(0) =~= olds);
            let p = barrel_pass(olds, old(self).player.weapons@, contacts@);
            assert(olds.take(0) + p.0 =~= p.0);
        }
        while id < self.barrels.len()
            invariant
                id <= self.barrels@.len(),
                olds == old(self).barrels@,
                total == olds.len(),
                barrel_pass(olds, old(self).player.weapons@, contacts@) == (
                    self.barrels@.take(id as int) + barrel_pass(
                        self.barrels@.skip(id as int),
                        self.player.weapons@,
                        contacts@,
                    ).0,
                    barrel_pass(self.barrels@.skip(id as int), self.player.weapons@, contacts@).1,
                ),
                self.wf(),
                self.physics.can_create((BARREL_BURST * (self.barrels@.len() - id)) as nat),
                self.physics.next() >= old(self).physics.next(),
                count == olds.len() - self.barrels@.len(),
                self.particles@.len() == old(self).particles@.len() + count,
                forall|j: int|
                    0 <= j < self.barrels@.len() ==> olds.contains(#[trigger] self.barrels@[j]),
                forall|j: int|
                    0 <= j < olds.len() && !self.barrels@.contains(#[trigger] olds[j])
                        ==> !self.physics.live().contains_key(olds[j].body),
                forall|j: int| 0 <= j < olds.len() ==> #[trigger] olds[j].body < old(self).physics.next(),
                count > 0 ==> (self.feedback.state() matches Some(s) && s.elapsed == 1
                    && s.magnitude == BARREL_SHAKE),
                count == 0 ==> {
                    &&& self.barrels@ == old(self).barrels@
                    &&& self.physics == old(self).physics
                    &&& same_player(self.player, old(self).player)
                    &&& self.particles@ == old(self).particles@
                    &&& self.feedback == old(self).feedback
                    &&& self.camera == old(self).camera
                },
                self.enemies@ == old(self).enemies@,
                self.ground@ == old(self).ground@,
                same_settings(&*self, &*old(self)),
                self.cues@ == old(self).cues@ + explosions(count as int),
                self.player.ammo == old(self).player.ammo,
                self.player.body == old(self).player.body,
            decreases self.barrels@.len() - id,
        {
            let barrel = self.barrels[id];
            assert(barrel_handles(self.barrels@)[id as int] == barrel.body);
            assert(is_body_of(
                self.physics.live(),
                barrel_handles(self.barrels@)[id as int],
                ObjectData::Barrel,
            ));
            let ghost live0 = self.physics.live();
            let ghost next0 = self.physics.next();
            let ghost ps0 = self.particles@;
            let ghost bs0 = self.barrels@;
            let ghost ws0 = self.player.weapons@;
            assert(BARREL_BURST * (bs0.len() - id) >= BARREL_BURST) by (nonlinear_arith)
                requires bs0.len() - id >= 1;
            if barrel.update(
                &mut self.physics,
                &mut self.particles,
                &mut self.player,
                contacts,
                self.sizes.barrel,
            ) {
                self.barrels.remove(id);
                self.feedback.trigger(&mut self.camera, BARREL_SHAKE);
                self.cues.push(Cue::Explosion);
                assert(explosions(count + 1) =~= explosions(count as int).push(Cue::Explosion));
                assert(count < total);
                count = count + 1;
                proof {
                    let live1 = self.physics.live();
                    assert(BARREL_BURST * (bs0.len() - id) == BARREL_BURST * (
                    self.barrels@.len() - id) + BARREL_BURST) by (nonlinear_arith)
                        requires
                            self.barrels@.len() == bs0.len() - 1,
                    ;
                    let ws = ws0;
                    let k = first_hit_from(ws, contacts@, barrel.body, 0);
                    lemma_first_hit_bounds(ws, contacts@, barrel.body, 0);
                    let bullet = ws[k]->Turbofish_0.body();
                    assert(ws[k] is Turbofish);
                    assert(live0.contains_key(bullet));
                    assert(live0[bullet].data == ObjectData::Bullet);
                    let hs = barrel_handles(bs0);
                    assert(barrel_handles(self.barrels@) =~= hs.remove(id as int));
                    lemma_handles_removed(hs, id as int, live0, live1, ObjectData::Barrel);
                    lemma_handles_kept(
                        enemy_handles(self.enemies@),
                        live0,
                        live1,
                        ObjectData::Enemy,
                    );
                    lemma_handles_kept(tile_handles(self.ground@), live0, live1, ObjectData::Ground);
                    lemma_bursts_after_explosion(
                        ps0,
                        self.particles@,
                        live0,
                        live1,
                        next0,
                        BARREL_BURST as nat,
                        barrel.body,
                        bullet,
                    );
                    assert forall|j: int|
                        0 <= j < self.barrels@.len() implies olds.contains(
                        #[trigger] self.barrels@[j],
                    ) by {
                        let b = if j < id { j } else { j + 1 };
                        assert(self.barrels@[j] == bs0[b]);
                        assert(olds.contains(bs0[b]));
                    }
                    assert forall|j: int|
                        0 <= j < olds.len() && !self.barrels@.contains(
                            #[trigger] olds[j],
                        ) implies !live1.contains_key(olds[j].body) by {
                        if bs0.contains(olds[j]) {
                            let m = choose|m: int| 0 <= m < bs0.len() && bs0[m] == olds[j];
                            if m != id {
                                let r = if m < id { m } else { m - 1 };
                                assert(self.barrels@[r] == bs0[m]);
                            }
                        } else {
                            assert(!live0.contains_key(olds[j].body));
                        }
                    }
                    let tail0 = bs0.skip(id as int);
                    assert(tail0[0] == barrel);
                    assert(tail0.drop_first() =~= self.barrels@.skip(id as int));
                    assert(self.barrels@.take(id as int) =~= bs0.take(id as int));
                }
            } else {
                assert(BARREL_BURST * (bs0.len() - id) >= BARREL_BURST * (bs0.len() - (id + 1))) by (nonlinear_arith)
                    requires bs0.len() - id >= 1;
                proof {
                    let tail0 = bs0.skip(id as int);
                    assert(tail0[0] == barrel);
                    assert(tail0.drop_first() =~= bs0.skip(id as int + 1));
                    assert(bs0.take(id as int + 1) =~= bs0.take(id as int).push(barrel));
                    let rest = barrel_pass(bs0.skip(id as int + 1), ws0, contacts@);
                    assert(bs0.take(id as int + 1) + rest.0 =~= bs0.take(id as int) + (seq![barrel] + rest.0));
                }
                id = id + 1;
            }
        }
        proof {
            assert(self.barrels@.skip(id as int) =~= Seq::<Barrel>::empty());
            assert(self.barrels@.take(id as int) =~= self.barrels@);
            lemma_barrel_pass_pairs(olds, old(self).player.weapons@, contacts@);
        }
        count
    }

    /// Destroys every enemy that a projectile touches, each with its burst
    /// and a shake of `ENEMY_SHAKE`; each projectile destroys at most one
    /// enemy. Returns how many were destroyed.
    #[verifier::loop_isolation(false)]
    pub fn resolve_enemies(&mut self, contacts: &Vec<Contact>) -> (count: usize)
        requires
            old(self).wf(),
            old(self).physics.can_create((ENEMY_BURST * old(self).enemies@.len()) as nat),
        ensures
            final(self).wf(),
            (final(self).enemies@, final(self).player.weapons@) == enemy_pass(
                old(self).enemies@,
                old(self).player.weapons@,
                contacts@,
            ),
            count == old(self).enemies@.len() - final(self).enemies@.len(),
            count == old(self).player.weapons@.len() - final(self).player.weapons@.len(),
            final(self).particles@.len() == old(self).particles@.len() + count,
            final(self).physics.next() == old(self).physics.next() + ENEMY_BURST * count,
            forall|j: int|
                0 <= j < final(self).enemies@.len() ==> old(self).enemies@.contains(
                    #[trigger] final(self).enemies@[j],
                ),
            forall|j: int|
                0 <= j < old(self).enemies@.len() && !final(self).enemies@.contains(
                    #[trigger] old(self).enemies@[j],
                ) ==> !final(self).physics.live().contains_key(old(self).enemies@[j].body),
            count > 0 ==> (final(self).feedback.state() matches Some(s) && s.elapsed == 1
                && s.magnitude == ENEMY_SHAKE),
            count == 0 ==> {
                &&& final(self).enemies@ == old(self).enemies@
                &&& final(self).physics == old(self).physics
                &&& same_player(final(self).player, old(self).player)
                &&& final(self).particles@ == old(self).particles@
                &&& final(self).feedback == old(self).feedback
                &&& final(self).camera == old(self).camera
            },
            final(self).barrels@ == old(self).barrels@,
            final(self).ground@ == old(self).ground@,
            same_settings(&*final(self), &*old(self)),
            final(self).player.ammo == old(self).player.ammo,
            final(self).player.body == old(self).player.body,
            enemy_stage(*old(self), *final(self), contacts@),
    {
        let ghost olds = self.enemies@;
        let total: usize = self.enemies.len();
        let mut count: usize = 0;
        let mut id: usize = 0;
        proof {
            assert forall|j: int| 0 <= j < olds.len() implies #[trigger] olds[j].body < old(
                self,
            ).physics.next() by {
                assert(enemy_handles(olds)[j] == olds[j].body);
                assert(is_body_of(old(self).physics.live(), enemy_handles(olds)[j], ObjectData::Enemy));
            }
            assert(olds.skip(0) =~= olds);
            let p = enemy_pass(olds, old(self).player.weapons@, contacts@);
            assert(olds.take(0) + p.0 =~= p.0);
        }
        while id < self.enemies.len()
            invariant
                id <= self.enemies@.len(),
                olds == old(self).enemies@,
                total == olds.len(),
                enemy_pass(olds, old(self).player.weapons@, contacts@) == (
                    self.enemies@.take(id as int) + enemy_pass(
                        self.enemies@.skip(id as int),
                        self.player.weapons@,
                        contacts@,
                    ).0,
                    enemy_pass(self.enemies@.skip(id as int), self.player.weapons@, contacts@).1,
                ),
                self.wf(),
                self.physics.can_create((ENEMY_BURST * (self.enemies@.len() - id)) as nat),
                self.physics.next() >= old(self).physics.next(),
                count == olds.len() - self.enemies@.len(),
                self.particles@.len() == old(self).particles@.len() + count,
                self.physics.next() == old(self).physics.next() + ENEMY_BURST * count,
                forall|j: int|
                    0 <= j < self.enemies@.len() ==> olds.contains(#[trigger] self.enemies@[j]),
                forall|j: int|
                    0 <= j < olds.len() && !self.enemies@.contains(#[trigger] olds[j])
                        ==> !self.physics.live().contains_key(olds[j].body),
                forall|j: int| 0 <= j < olds.len() ==> #[trigger] olds[j].body < old(self).physics.next(),
                count > 0 ==> (self.feedback.state() matches Some(s) && s.elapsed == 1
                    && s.magnitude == ENEMY_SHAKE),
                count == 0 ==> {
                    &&& self.enemies@ == old(self).enemies@
                    &&& self.physics == old(self).physics
                    &&& same_player(self.player, old(self).player)
                    &&& self.particles@ == old(self).particles@
                    &&& self.feedback == old(self).feedback
                    &&& self.camera == old(self).camera
                },
                self.barrels@ == old(self).barrels@,
                self.ground@ == old(self).ground@,
                same_settings(&*self, &*old(self)),
                self.cues@ == old(self).cues@ + explosions(count as int),
                self.player.ammo == old(self).player.ammo,
                self.player.body == old(self).player.body,
            decreases self.enemies@.len() - id,
        {
            let enemy = self.enemies[id];
            assert(enemy_handles(self.enemies@)[id as int] == enemy.body);
            assert(is_body_of(
                self.physics.live(),
                enemy_handles(self.enemies@)[id as int],
                ObjectData::Enemy,
            ));
            let ghost live0 = self.physics.live();
            let ghost next0 = self.physics.next();
            let ghost ps0 = self.particles@;
            let ghost bs0 = self.enemies@;
            let ghost ws0 = self.player.weapons@;
            assert(ENEMY_BURST * (bs0.len() - id) >= ENEMY_BURST) by (nonlinear_arith)
                requires bs0.len() - id >= 1;
            if enemy.update(
                &mut self.physics,
                &mut self.particles,
                &mut self.player,
                contacts,
                self.sizes.enemy,
            ) {
                self.enemies.remove(id);
                self.feedback.trigger(&mut self.camera, ENEMY_SHAKE);
                self.cues.push(Cue::Explosion);
                assert(explosions(count + 1) =~= explosions(count as int).push(Cue::Explosion));
                assert(count < total);
                count = count + 1;
                proof {
                    let live1 = self.physics.live();
                    assert(ENEMY_BURST * (bs0.len() - id) == ENEMY_BURST * (
                    self.enemies@.len() - id) + ENEMY_BURST) by (nonlinear_arith)
                        requires
                            self.enemies@.len() == bs0.len() - 1,
                    ;
                    let ws = ws0;
                    let k = first_hit_from(ws, contacts@, enemy.body, 0);
                    lemma_first_hit_bounds(ws, contacts@, enemy.body, 0);
                    let bullet = ws[k]->Turbofish_0.body();
                    assert(ws[k] is Turbofish);
                    assert(live0.contains_key(bullet));
                    assert(live0[bullet].data == ObjectData::Bullet);
                    let hs = enemy_handles(bs0);
                    assert(enemy_handles(self.enemies@) =~= hs.remove(id as int));
                    lemma_handles_removed(hs, id as int, live0, live1, ObjectData::Enemy);
                    lemma_handles_kept(
                        barrel_handles(self.barrels@),
                        live0,
                        live1,
                        ObjectData::Barrel,
                    );
                    lemma_handles_kept(tile_handles(self.ground@), live0, live1, ObjectData::Ground);
                    lemma_bursts_after_explosion(
                        ps0,
                        self.particles@,
                        live0,
                        live1,
                        next0,
                        ENEMY_BURST as nat,
                        enemy.body,
                        bullet,
                    );
                    assert forall|j: int|
                        0 <= j < self.enemies@.len() implies olds.contains(
                        #[trigger] self.enemies@[j],
                    ) by {
                        let b = if j < id { j } else { j + 1 };
                        assert(self.enemies@[j] == bs0[b]);
                        assert(olds.contains(bs0[b]));
                    }
                    assert forall|j: int|
                        0 <= j < olds.len() && !self.enemies@.contains(
                            #[trigger] olds[j],
                        ) implies !live1.contains_key(olds[j].body) by {
                        if bs0.contains(olds[j]) {
                            let m = choose|m: int| 0 <= m < bs0.len() && bs0[m] == olds[j];
                            if m != id {
                                let r = if m < id { m } else { m - 1 };
                                assert(self.enemies@[r] == bs0[m]);
                            }
                        } else {
                            assert(!live0.contains_key(olds[j].body));
                        }
                    }
                    let tail0 = bs0.skip(id as int);
                    assert(tail0[0] == enemy);
                    assert(tail0.drop_first() =~= self.enemies@.skip(id as int));
                    assert(self.enemies@.take(id as int) =~= bs0.take(id as int));
                }
            } else {
                assert(ENEMY_BURST * (bs0.len() - id) >= ENEMY_BURST * (bs0.len() - (id + 1))) by (nonlinear_arith)
                    requires bs0.len() - id >= 1;
                proof {
                    let tail0 = bs0.skip(id as int);
                    assert(tail0[0] == enemy);
                    assert(tail0.drop_first() =~= bs0.skip(id as int + 1));
                    assert(bs0.take(id as int + 1) =~= bs0.take(id as int).push(enemy));
                    let rest = enemy_pass(bs0.skip(id as int + 1), ws0, contacts@);
                    assert(bs0.take(id as int + 1) + rest.0 =~= bs0.take(id as int) + (seq![enemy] + rest.0));
                }
                id = id + 1;
            }
        }
        proof {
            assert(self.enemies@.skip(id as int) =~= Seq::<Enemy>::empty());
            assert(self.enemies@.take(id as int) =~= self.enemies@);
            lemma_enemy_pass_pairs(olds, old(self).player.weapons@, contacts@);
        }
        count
    }

    /// Counts every burst down by `delta_ms`; the bursts whose time runs out
    /// destroy their bodies and are dropped.
    #[verifier::loop_isolation(false)]
    #[verifier::rlimit(40)]
    pub fn update_particles(&mut self, delta_ms: u32)
        requires
            old(self).wf(),
        ensures
            final(self).wf(),
            burst_handles(final(self).particles@) == surviving(
                old(self).particles@,
                delta_ms as int,
            ),
            final(self).physics.live() == old(self).physics.live().remove_keys(
                expired_handles(old(self).particles@, delta_ms as int),
            ),
            final(self).physics.next() == old(self).physics.next(),
            same_player(final(self).player, old(self).player),
            final(self).enemies@ == old(self).enemies@,
            final(self).barrels@ == old(self).barrels@,
            final(self).ground@ == old(self).ground@,
            final(self).feedback == old(self).feedback,
            final(self).camera == old(self).camera,
            same_settings(&*final(self), &*old(self)),
            final(self).player.ammo == old(self).player.ammo,
            final(self).player.body == old(self).player.body,
            particle_stage(*old(self), *final(self), delta_ms as int),
    {
        let ghost olds = self.particles@;
        let ghost d = delta_ms as int;
        let ghost live0 = self.physics.live();
        let mut i: usize = 0;
        let ghost mut j: int = 0;
        while i < self.particles.len()
            invariant
                0 <= i <= j <= olds.len(),
                olds == old(self).particles@,
                live0 == old(self).physics.live(),
                self.particles@.len() == i + (olds.len() - j),
                burst_handles(self.particles@.take(i as int)) == surviving(olds.take(j), d),
                self.particles@.skip(i as int) == olds.skip(j),
                self.physics.live() == live0.remove_keys(expired_handles(olds.take(j), d)),
                lost_particles_only(live0, self.physics.live()),
                bursts_live(self.particles@, self.physics.live()),
                self.physics.wf(),
                self.physics.next() == old(self).physics.next(),
                same_player(self.player, old(self).player),
                self.enemies@ == old(self).enemies@,
                self.barrels@ == old(self).barrels@,
                self.ground@ == old(self).ground@,
                self.feedback == old(self).feedback,
                self.camera == old(self).camera,
                same_settings(&*self, &*old(self)),
                self.cues@ == old(self).cues@,
                self.player.ammo == old(self).player.ammo,
                self.player.body == old(self).player.body,
            decreases self.particles@.len() - i,
        {
            let ghost ps = self.particles@;
            let ghost live1 = self.physics.live();
            proof {
                assert(ps.skip(i as int)[0] == ps[i as int]);
                assert(olds.skip(j)[0] == olds[j]);
                assert(olds.take(j + 1).drop_last() == olds.take(j));
                assert(olds.take(j + 1).last() == olds[j]);
            }
            let mut sys = self.particles.remove(i);
            assert(sys == olds[j]);
            let finished = sys.update(&mut self.physics, delta_ms);
            let ghost live2 = self.physics.live();
            if !finished {
                self.particles.insert(i, sys);
                proof {
                    assert(live2 == live1.remove_keys(Set::empty()));
                    assert(live2 =~= live1);
                    let np = self.particles@;
                    assert(np.take(i as int + 1) =~= ps.take(i as int).push(sys));
                    assert(burst_handles(np.take(i as int + 1)) =~= burst_handles(
                        ps.take(i as int),
                    ).push(sys.handles()));
                    assert(np.skip(i as int + 1) =~= olds.skip(j + 1)) by {
                        assert(ps.skip(i as int + 1) =~= olds.skip(j + 1)) by {
                            assert forall|k: int| 0 <= k < ps.skip(i as int + 1).len() implies #[trigger] ps.skip(
                                i as int + 1,
                            )[k] == olds.skip(j + 1)[k] by {
                                assert(ps.skip(i as int + 1)[k] == ps.skip(i as int)[k + 1]);
                                assert(olds.skip(j + 1)[k] == olds.skip(j)[k + 1]);
                            }
                        }
                    }
                    assert(np =~= ps.update(i as int, sys));
                    lemma_bursts_after_tick(ps, i as int, sys, live2);
                }
                i = i + 1;
            } else {
                proof {
                    let hs = olds[j].handles();
                    assert(ps[i as int].handles() == hs);
                    assert(live2 == live1.remove_keys(hs.to_set()));
                    assert(expired_handles(olds.take(j + 1), d) == expired_handles(
                        olds.take(j),
                        d,
                    ).union(hs.to_set()));
                    assert(live2 =~= live0.remove_keys(expired_handles(olds.take(j + 1), d)));
                    let np = self.particles@;
                    assert(np =~= ps.remove(i as int));
                    assert(np.take(i as int) =~= ps.take(i as int));
                    assert(np.skip(i as int) =~= olds.skip(j + 1)) by {
                        assert forall|k: int| 0 <= k < np.skip(i as int).len() implies #[trigger] np.skip(
                            i as int,
                        )[k] == olds.skip(j + 1)[k] by {
                            assert(np.skip(i as int)[k] == ps.skip(i as int)[k + 1]);
                            assert(olds.skip(j + 1)[k] == olds.skip(j)[k + 1]);
                        }
                    }
                    lemma_bursts_after_expiry(ps, i as int, live1, live2);
                }
            }
            proof {
                j = j + 1;
            }
        }
        proof {
            assert(olds.take(j) == olds);
            assert(self.particles@.take(i as int) == self.particles@);
            lemma_player_kept(self.player, &old(self).physics, &self.physics);
            lemma_handles_kept(
                enemy_handles(self.enemies@),
                live0,
                self.physics.live(),
                ObjectData::Enemy,
            );
            lemma_handles_kept(
                barrel_handles(self.barrels@),
                live0,
                self.physics.live(),
                ObjectData::Barrel,
            );
            lemma_handles_kept(
                tile_handles(self.ground@),
                live0,
                self.physics.live(),
                ObjectData::Ground,
            );
        }
    }
}

} // verus!
