use call_of_ferris::camera::{Camera, CameraFeedback, CameraShake, SHAKE_STEPS};
use call_of_ferris::entities::{Barrel, Enemy, Size, TileType, BARREL_BURST, ENEMY_BURST};
use call_of_ferris::game::{Cue, FrameInput, Game, Key, Screen, Sizes, BARREL_SHAKE, ENEMY_SHAKE};
use call_of_ferris::level::{Level, LevelError, Spawn};
use call_of_ferris::particles::{ParticleDraw, ParticleSystem, LIFETIME_MS, PARTICLE_JUICE};
use call_of_ferris::physics::{Command, Contact, ObjectData, Physics, Point, Rgb};
use call_of_ferris::player::{Direction, Player, PlayerInput, MAX_AMMO};
use call_of_ferris::weapon::{Grappling, PlayerWeapon, Turbofish, WeaponType, BULLET_SPEED};

fn sizes() -> Sizes {
    let s = |w: u16, h: u16| Size { width: w, height: h };
    Sizes {
        player: s(60, 80),
        enemy: s(50, 70),
        barrel: s(40, 60),
        bullet: s(30, 10),
        tile_left: s(64, 64),
        tile_center: s(64, 64),
        tile_right: s(64, 64),
    }
}

fn no_input() -> PlayerInput {
    PlayerInput { left: false, right: false, jump: false, fire_held: false }
}

fn frame(contacts: Vec<Contact>) -> FrameInput {
    FrameInput {
        contacts,
        delta_ms: 16,
        screen_height: 600,
        input: no_input(),
        grapple_distance: 0,
    }
}

fn level(spawns: Vec<Spawn>) -> Level {
    Level { spawns, end: None, weapon: WeaponType::Turbofish }
}

#[test]
fn destroyed_body_never_collides_again() {
    let mut physics = Physics::new();
    let bullet = physics.create_bullet(Point { x: 0, y: 0 }, 10, 10, Point { x: 0, y: 0 });
    let enemy = physics.create_enemy(Point { x: 5, y: 0 }, 10, 10);
    let contacts = vec![Contact { body: bullet, other: enemy }];
    assert_eq!(physics.collisions(bullet, &contacts).len(), 1);
    physics.destroy_body(enemy);
    let fresh = physics.create_barrel(Point { x: 9, y: 0 }, 10, 10);
    assert_ne!(fresh, enemy);
    let contacts = vec![Contact { body: bullet, other: enemy }, Contact { body: bullet, other: fresh }];
    let cs = physics.collisions(bullet, &contacts);
    assert_eq!(cs.len(), 1);
    assert!(cs.iter().all(|c| c.other != enemy));
    assert_eq!(cs[0].other_data, ObjectData::Barrel);
    assert_eq!(cs[0].own, ObjectData::Bullet);
}

#[test]
fn collisions_keep_engine_order_and_skip_other_bodies() {
    let mut physics = Physics::new();
    let a = physics.create_bullet(Point { x: 0, y: 0 }, 10, 10, Point { x: 0, y: 0 });
    let b = physics.create_tile(Point { x: 0, y: 10 }, 64, 64);
    let c = physics.create_enemy(Point { x: 10, y: 0 }, 10, 10);
    let contacts = vec![
        Contact { body: a, other: c },
        Contact { body: b, other: c },
        Contact { body: a, other: b },
    ];
    let cs = physics.collisions(a, &contacts);
    assert_eq!(cs.len(), 2);
    assert_eq!(cs[0].other, c);
    assert_eq!(cs[1].other, b);
    assert_eq!(cs[1].other_data, ObjectData::Ground);
}

#[test]
fn commands_are_recorded_in_order_and_drained() {
    let mut physics = Physics::new();
    let h = physics.create_enemy(Point { x: 1, y: 2 }, 3, 4);
    physics.set_velocity(h, Point { x: 5, y: 6 });
    physics.destroy_body(h);
    let cmds = physics.take_commands();
    assert_eq!(cmds.len(), 3);
    assert_eq!(
        cmds[0],
        Command::Create {
            handle: h,
            data: ObjectData::Enemy,
            position: Point { x: 1, y: 2 },
            width: 3,
            height: 4,
            velocity: Point { x: 0, y: 0 },
        }
    );
    assert_eq!(cmds[1], Command::SetVelocity { handle: h, velocity: Point { x: 5, y: 6 } });
    assert_eq!(cmds[2], Command::Destroy { handle: h });
    assert!(physics.take_commands().is_empty());
    assert_eq!(physics.body_count(), 0);
}

#[test]
fn particle_colour_is_read_back() {
    let d = ObjectData::Particle(Rgb { r: 255, g: 7, b: 0 });
    assert_eq!(d.get_particle_data(), Rgb { r: 255, g: 7, b: 0 });
}

#[test]
fn shooting_without_ammo_allocates_nothing() {
    let mut physics = Physics::new();
    let mut player = Player::new(Point { x: 0, y: 0 }, &mut physics, 60, 80);
    player.ammo = 0;
    let before = physics.body_count();
    let shot = player.shoot(&mut physics, &WeaponType::Turbofish, &vec![], 30, 10);
    assert!(shot.is_none());
    assert_eq!(player.ammo, 0);
    assert_eq!(physics.body_count(), before);
}

#[test]
fn last_round_then_no_weapon_in_same_tick() {
    let mut g = Game::create(level(vec![Spawn::Player { x: 0 }]), sizes(), 600).unwrap();
    g.player.ammo = 1;
    assert!(g.fire(&vec![]));
    assert_eq!(g.player.ammo, 0);
    assert_eq!(g.player.weapons.len(), 1);
    let bodies = g.physics.body_count();
    assert!(!g.fire(&vec![]));
    assert_eq!(g.player.ammo, 0);
    assert_eq!(g.player.weapons.len(), 1);
    assert_eq!(g.physics.body_count(), bodies);
}

#[test]
fn turbofish_flies_forward_and_is_spent_on_ground_contact() {
    let mut physics = Physics::new();
    let ground = physics.create_tile(Point { x: 0, y: 100 }, 64, 64);
    let _ = physics.take_commands();
    let mut fish = Turbofish::new(40, 20, &mut physics, 30, 10);
    let cmds = physics.take_commands();
    assert_eq!(
        cmds[0],
        Command::Create {
            handle: fish.handle(),
            data: ObjectData::Bullet,
            position: Point { x: 40, y: 20 },
            width: 30,
            height: 10,
            velocity: Point { x: BULLET_SPEED, y: 0 },
        }
    );
    assert_eq!(BULLET_SPEED, 1000);
    assert!(!fish.update(&physics, &vec![]));
    let contacts = vec![Contact { body: fish.handle(), other: ground }];
    assert!(fish.update(&physics, &contacts));
    assert_eq!(fish.age_ticks(), 2);
}

#[test]
fn turbofish_is_spent_after_its_last_tick() {
    let mut physics = Physics::new();
    let mut fish = Turbofish::new(0, 0, &mut physics, 30, 10);
    let mut spent_at = 0;
    for tick in 1..=1000u32 {
        if fish.update(&physics, &vec![]) {
            spent_at = tick;
            break;
        }
    }
    assert_eq!(spent_at, call_of_ferris::weapon::MAX_BULLET_TICKS);
}

#[test]
fn touching_reports_only_the_named_body() {
    let mut physics = Physics::new();
    let fish = Turbofish::new(0, 0, &mut physics, 30, 10);
    let e1 = physics.create_enemy(Point { x: 10, y: 0 }, 10, 10);
    let e2 = physics.create_enemy(Point { x: 90, y: 0 }, 10, 10);
    let contacts = vec![Contact { body: fish.handle(), other: e1 }];
    assert!(fish.is_touching(&physics, &contacts, e1));
    assert!(!fish.is_touching(&physics, &contacts, e2));
}

#[test]
fn grapple_without_barrel_is_not_created() {
    let mut physics = Physics::new();
    let mut player = Player::new(Point { x: 0, y: 0 }, &mut physics, 60, 80);
    let enemy = physics.create_enemy(Point { x: 300, y: 0 }, 10, 10);
    let _ = physics.take_commands();
    let bodies = physics.body_count();
    let shot = player.shoot(&mut physics, &WeaponType::Grappling, &vec![enemy, 777], 30, 10);
    assert!(shot.is_none());
    assert_eq!(physics.body_count(), bodies);
    assert_eq!(player.ammo, MAX_AMMO);
    assert!(physics.take_commands().is_empty());
}

#[test]
fn grapple_anchors_to_first_barrel_and_pulls_it() {
    let mut physics = Physics::new();
    let player = physics.create_player(Point { x: 0, y: 0 }, 60, 80);
    let enemy = physics.create_enemy(Point { x: 100, y: 0 }, 10, 10);
    let barrel = physics.create_barrel(Point { x: 200, y: 50 }, 10, 10);
    let _ = physics.take_commands();
    let g = Grappling::new(140, 0, &mut physics, player, &vec![enemy, barrel]).unwrap();
    assert_eq!(g.target_handle(), barrel);
    assert_eq!(g.holder_handle(), player);
    let cmds = physics.take_commands();
    assert_eq!(cmds, vec![Command::SetVelocity { handle: barrel, velocity: Point { x: -60, y: -50 } }]);
    g.update(&mut physics, 5);
    assert_eq!(
        physics.take_commands(),
        vec![Command::SetVelocity { handle: barrel, velocity: Point { x: -200, y: -50 } }]
    );
    g.update(&mut physics, 1);
    assert!(physics.take_commands().is_empty());
}

#[test]
fn enemy_hit_removes_one_enemy_and_one_projectile() {
    let spawns = vec![
        Spawn::Tile { x: 0, tile_type: TileType::Center },
        Spawn::Player { x: 0 },
        Spawn::Tile { x: 500, tile_type: TileType::Center },
        Spawn::Enemy { x: 500 },
    ];
    let mut g = Game::create(level(spawns), sizes(), 600).unwrap();
    let enemy = g.enemies[0].body;
    assert!(g.fire(&vec![]));
    let bullet = match g.player.weapons[0] {
        PlayerWeapon::Turbofish(t) => t.handle(),
        PlayerWeapon::Grappling(_) => panic!("expected a projectile"),
    };
    let r = g.inner_update(&frame(vec![Contact { body: bullet, other: enemy }]));
    assert_eq!(r, None);
    assert!(g.enemies.is_empty());
    assert!(g.player.weapons.is_empty());
    assert!(!g.physics.contains(enemy));
    assert!(!g.physics.contains(bullet));
    assert_eq!(g.particles.len(), 1);
    assert_eq!(g.particles[0].particle_handles().len(), ENEMY_BURST);
    assert_eq!(ENEMY_BURST, 100);
    let shake = g.feedback.shake_state().unwrap();
    assert_eq!(shake.magnitude, ENEMY_SHAKE);
    assert_eq!(g.take_cues(), vec![Cue::WeaponFire, Cue::Explosion]);
    assert!(g.take_cues().is_empty());
    assert_eq!(ENEMY_SHAKE, 3);
}

#[test]
fn barrel_hit_bursts_five_hundred_particles() {
    let spawns = vec![Spawn::Player { x: 0 }, Spawn::Barrel { x: 300 }, Spawn::Enemy { x: 900 }];
    let mut g = Game::create(level(spawns), sizes(), 600).unwrap();
    let barrel = g.barrels[0].body;
    assert!(g.fire(&vec![]));
    let bullet = match g.player.weapons[0] {
        PlayerWeapon::Turbofish(t) => t.handle(),
        PlayerWeapon::Grappling(_) => panic!("expected a projectile"),
    };
    g.inner_update(&frame(vec![Contact { body: bullet, other: barrel }]));
    assert!(g.barrels.is_empty());
    assert_eq!(g.enemies.len(), 1);
    assert_eq!(g.particles[0].particle_handles().len(), BARREL_BURST);
    assert_eq!(BARREL_BURST, 500);
    assert_eq!(g.feedback.shake_state().unwrap().magnitude, BARREL_SHAKE);
    assert_eq!(g.take_cues(), vec![Cue::WeaponFire, Cue::Explosion]);
}

#[test]
fn two_projectiles_blow_up_two_barrels_in_one_tick() {
    let spawns = vec![Spawn::Player { x: 0 }, Spawn::Barrel { x: 300 }, Spawn::Barrel { x: 600 }, Spawn::Enemy { x: 900 }];
    let mut g = Game::create(level(spawns), sizes(), 600).unwrap();
    let (b1, b2) = (g.barrels[0].body, g.barrels[1].body);
    assert!(g.fire(&vec![]));
    assert!(g.fire(&vec![]));
    let bullets: Vec<u64> = g
        .player
        .weapons
        .iter()
        .map(|w| match w {
            PlayerWeapon::Turbofish(t) => t.handle(),
            PlayerWeapon::Grappling(_) => panic!("expected a projectile"),
        })
        .collect();
    let contacts = vec![
        Contact { body: bullets[1], other: b2 },
        Contact { body: bullets[0], other: b1 },
    ];
    g.inner_update(&frame(contacts));
    assert!(g.barrels.is_empty());
    assert!(g.player.weapons.is_empty());
    assert_eq!(g.particles.len(), 2);
    assert!(!g.physics.contains(b1) && !g.physics.contains(b2));
}

#[test]
fn switching_guns_twice_restores_the_gun() {
    let mut g = Game::create(level(vec![Spawn::Player { x: 0 }]), sizes(), 600).unwrap();
    g.key_press(Key::SwitchWeapon, &vec![]);
    g.key_press(Key::SwitchWeapon, &vec![]);
    assert_eq!(g.weapon, WeaponType::Turbofish);
}

#[test]
fn enemy_update_without_contact_changes_nothing() {
    let mut physics = Physics::new();
    let mut player = Player::new(Point { x: 0, y: 0 }, &mut physics, 60, 80);
    let enemy = Enemy::new(Point { x: 300, y: 0 }, &mut physics, Size { width: 50, height: 70 });
    let barrel = Barrel::new(Point { x: 600, y: 0 }, &mut physics, Size { width: 40, height: 60 });
    let w = player.shoot(&mut physics, &WeaponType::Turbofish, &vec![], 30, 10).unwrap();
    player.weapons.push(w);
    let mut particles: Vec<ParticleSystem> = vec![];
    assert!(!enemy.update(&mut physics, &mut particles, &mut player, &vec![], Size { width: 50, height: 70 }));
    assert!(!barrel.update(&mut physics, &mut particles, &mut player, &vec![], Size { width: 40, height: 60 }));
    assert!(particles.is_empty());
    assert_eq!(player.weapons.len(), 1);
    assert_eq!(enemy.position(&physics), Point { x: 300, y: 0 });
}

#[test]
fn burst_lives_two_seconds_and_expires_once() {
    let mut physics = Physics::new();
    let mut sys = ParticleSystem::new(&mut physics, 7, Point { x: 0, y: 0 }, Point { x: 10, y: 10 });
    assert_eq!(physics.body_count(), 7);
    assert_eq!(sys.remaining_ms(), LIFETIME_MS);
    assert_eq!(LIFETIME_MS, 2000);
    let _ = physics.take_commands();
    assert!(!sys.update(&mut physics, 1999));
    assert_eq!(physics.body_count(), 7);
    assert!(sys.update(&mut physics, 1));
    assert_eq!(physics.body_count(), 0);
    let destroyed = physics.take_commands();
    assert_eq!(destroyed.len(), 7);
    assert!(destroyed.iter().all(|c| matches!(c, Command::Destroy { .. })));
    assert!(sys.update(&mut physics, 500));
    assert!(physics.take_commands().is_empty());
    assert!(sys.particle_handles().is_empty());
}

#[test]
fn burst_particles_are_spread_inside_their_box() {
    let mut physics = Physics::new();
    let min = Point { x: -1000, y: -1000 };
    let max = Point { x: 1000, y: 1000 };
    let sys = ParticleSystem::new(&mut physics, 100, min, max);
    let cmds = physics.take_commands();
    assert_eq!(cmds.len(), 100);
    let mut positions = Vec::new();
    for c in &cmds {
        match c {
            Command::Create { data: ObjectData::Particle(colour), position, velocity, .. } => {
                assert!(min.x <= position.x && position.x <= max.x);
                assert!(min.y <= position.y && position.y <= max.y);
                assert!(velocity.x.abs() <= PARTICLE_JUICE && velocity.y.abs() <= PARTICLE_JUICE);
                assert_eq!((colour.r, colour.b), (255, 0));
                positions.push(*position);
            }
            other => panic!("unexpected command {:?}", other),
        }
    }
    assert!(positions.iter().any(|p| *p != min));
    assert_eq!(sys.particle_handles().len(), 100);
}

#[test]
fn shake_stays_within_magnitude_and_settles_after_one_second() {
    let start = Point { x: 100, y: -40 };
    let mut camera = Camera::new(start);
    let mut fb = CameraFeedback::new();
    fb.trigger(&mut camera, 5);
    let p = camera.location();
    assert!((p.x - start.x).abs() <= 5 && (p.y - start.y).abs() <= 5);
    assert_eq!(fb.shake_state(), Some(CameraShake { elapsed: 1, original: start, magnitude: 5 }));
    for _ in 1..SHAKE_STEPS {
        let before = camera.location();
        fb.update(&mut camera);
        let after = camera.location();
        assert!((after.x - before.x).abs() <= 5 && (after.y - before.y).abs() <= 5);
    }
    assert!(fb.is_shaking());
    fb.update(&mut camera);
    assert_eq!(camera.location(), start);
    assert!(!fb.is_shaking());
}

#[test]
fn shake_moves_by_the_given_offset() {
    let mut camera = Camera::new(Point { x: 0, y: 0 });
    let mut fb = CameraFeedback::new();
    fb.trigger_with(&mut camera, 3, Point { x: 2, y: -3 });
    assert_eq!(camera.location(), Point { x: 2, y: -3 });
    fb.update_with(&mut camera, Point { x: -1, y: 1 });
    assert_eq!(camera.location(), Point { x: 1, y: -2 });
    camera.move_by(Point { x: i64::MAX, y: 0 });
    assert_eq!(camera.location().x, i64::MAX);
}

#[test]
fn retrigger_replaces_the_shake() {
    let mut camera = Camera::new(Point { x: 0, y: 0 });
    let mut fb = CameraFeedback::new();
    fb.trigger_with(&mut camera, 3, Point { x: 1, y: 1 });
    fb.trigger_with(&mut camera, 5, Point { x: 0, y: 0 });
    assert_eq!(
        fb.shake_state(),
        Some(CameraShake { elapsed: 1, original: Point { x: 1, y: 1 }, magnitude: 5 })
    );
}

#[test]
fn level_without_player_is_refused() {
    let r = Game::create(level(vec![Spawn::Enemy { x: 0 }]), sizes(), 600);
    assert_eq!(r.err(), Some(LevelError::NoPlayer));
}

#[test]
fn level_outside_world_is_refused() {
    let r = Game::create(level(vec![Spawn::Player { x: i64::MAX }]), sizes(), 600);
    assert_eq!(r.err(), Some(LevelError::OutOfWorld));
}

#[test]
fn level_loads_every_directive() {
    let spawns = vec![
        Spawn::Tile { x: 0, tile_type: TileType::Left },
        Spawn::Player { x: 64 },
        Spawn::Enemy { x: 200 },
        Spawn::Enemy { x: 300 },
        Spawn::Barrel { x: 400 },
    ];
    let g = Game::create(level(spawns), sizes(), 600).unwrap();
    assert_eq!(g.enemies.len(), 2);
    assert_eq!(g.total_enemies, 2);
    assert_eq!(g.barrels.len(), 1);
    assert_eq!(g.ground.len(), 1);
    assert_eq!(g.player.ammo, 10);
    assert_eq!(g.player.health, 100);
    assert_eq!(g.player.position(&g.physics), Point { x: 64, y: 300 - 155 - 40 });
    assert_eq!(g.camera.location(), Point { x: 64, y: 105 });
    assert!(g.can_die && !g.won);
    assert_eq!(g.ground[0].dimensions(), Size { width: 64, height: 64 });
    assert_eq!(g.enemies[0].position(&g.physics), Point { x: 200, y: 145 });
    assert_eq!(g.enemies[1].position(&g.physics), Point { x: 300, y: 145 });
    assert_eq!(g.barrels[0].position(&g.physics), Point { x: 400, y: 145 });
    assert_eq!(g.ground[0].position(&g.physics), Point { x: 0, y: 236 });
}

#[test]
fn falling_below_the_screen_kills_the_player() {
    let spawns = vec![Spawn::Player { x: 0 }, Spawn::Enemy { x: 500 }];
    let mut g = Game::create(level(spawns), sizes(), 600).unwrap();
    let body = g.player.handle();
    g.physics.sync_position(body, Point { x: 0, y: 601 });
    assert_eq!(g.inner_update(&frame(vec![])), Some(Screen::Dead));
}

#[test]
fn cleared_level_is_won_and_player_cannot_die() {
    let mut g = Game::create(level(vec![Spawn::Player { x: 0 }]), sizes(), 600).unwrap();
    let body = g.player.handle();
    g.physics.sync_position(body, Point { x: 0, y: 601 });
    assert_eq!(g.inner_update(&frame(vec![])), None);
    assert!(g.won);
    assert!(!g.can_die);
}

#[test]
fn slow_motion_runs_every_sixth_tick() {
    let spawns = vec![Spawn::Player { x: 0 }, Spawn::Enemy { x: 500 }];
    let mut g = Game::create(level(spawns), sizes(), 600).unwrap();
    assert_eq!(g.key_press(Key::SlowMotion, &vec![]), None);
    assert_eq!(g.tics, Some(6));
    let body = g.player.handle();
    g.physics.sync_position(body, Point { x: 0, y: 601 });
    assert_eq!(g.update(&frame(vec![]), 7), None);
    assert_eq!(g.update(&frame(vec![]), 12), Some(Screen::Dead));
    g.key_up_event(Key::SlowMotion);
    assert_eq!(g.tics, None);
    assert_eq!(g.player.direction, Direction::Idle);
}

#[test]
fn keys_switch_gun_and_open_menu() {
    let mut g = Game::create(level(vec![Spawn::Player { x: 0 }]), sizes(), 600).unwrap();
    assert_eq!(g.weapon, WeaponType::Turbofish);
    assert_eq!(g.key_press(Key::SwitchWeapon, &vec![]), None);
    assert_eq!(g.weapon, WeaponType::Grappling);
    g.switch_weapon();
    assert_eq!(g.weapon, WeaponType::Turbofish);
    assert_eq!(g.key_press(Key::Menu, &vec![]), Some(Screen::Menu));
    assert_eq!(g.key_press(Key::Fire, &vec![]), None);
    assert_eq!(g.player.ammo, 9);
}

#[test]
fn player_moves_and_jumps_through_velocity_commands() {
    let mut physics = Physics::new();
    let mut player = Player::new(Point { x: 0, y: 0 }, &mut physics, 60, 80);
    let _ = physics.take_commands();
    let input = PlayerInput { left: true, right: false, jump: true, fire_held: false };
    player.update(&mut physics, input, &vec![], 0);
    let body = player.handle();
    assert_eq!(
        physics.take_commands(),
        vec![
            Command::AddVelocity { handle: body, delta: Point { x: -10, y: 0 } },
            Command::AddVelocity { handle: body, delta: Point { x: 0, y: -20 } },
        ]
    );
    assert_eq!(player.direction, Direction::Idle);
    player.update(&mut physics, PlayerInput { right: true, ..no_input() }, &vec![], 0);
    assert_eq!(player.direction, Direction::Right);
}

#[test]
fn player_starts_lifted() {
    let mut physics = Physics::new();
    let player = Player::new(Point { x: 3, y: 100 }, &mut physics, 60, 80);
    player.init(&mut physics);
    assert_eq!(player.position(&physics), Point { x: 3, y: 60 });
}

#[test]
fn spent_projectile_is_dropped_and_destroyed() {
    let mut physics = Physics::new();
    let ground = physics.create_tile(Point { x: 0, y: 100 }, 64, 64);
    let mut player = Player::new(Point { x: 0, y: 0 }, &mut physics, 60, 80);
    let w = player.shoot(&mut physics, &WeaponType::Turbofish, &vec![], 30, 10).unwrap();
    let bullet = match w {
        PlayerWeapon::Turbofish(t) => t.handle(),
        PlayerWeapon::Grappling(_) => panic!("expected a projectile"),
    };
    player.weapons.push(w);
    player.update_weapons(&mut physics, &vec![Contact { body: bullet, other: ground }], false, 0);
    assert!(player.weapons.is_empty());
    assert!(!physics.contains(bullet));
}

#[test]
fn released_grapple_is_dropped() {
    let mut physics = Physics::new();
    let mut player = Player::new(Point { x: 0, y: 0 }, &mut physics, 60, 80);
    let barrel = physics.create_barrel(Point { x: 300, y: 0 }, 10, 10);
    let w = player.shoot(&mut physics, &WeaponType::Grappling, &vec![barrel], 30, 10).unwrap();
    player.weapons.push(w);
    player.update_weapons(&mut physics, &vec![], true, 50);
    assert_eq!(player.weapons.len(), 1);
    player.update_weapons(&mut physics, &vec![], false, 50);
    assert!(player.weapons.is_empty());
    assert!(physics.contains(barrel));
}

#[test]
fn spawned_burst_follows_its_draws() {
    let mut physics = Physics::new();
    let draws = vec![
        ParticleDraw { position: Point { x: 1, y: 2 }, velocity: Point { x: -300, y: 300 }, green: 0 },
        ParticleDraw { position: Point { x: 3, y: 4 }, velocity: Point { x: 5, y: 6 }, green: 254 },
    ];
    let sys = ParticleSystem::spawn(&mut physics, &draws);
    let cmds = physics.take_commands();
    assert_eq!(cmds.len(), 2);
    let handles = sys.particle_handles();
    assert_eq!(
        cmds[1],
        Command::Create {
            handle: handles[1],
            data: ObjectData::Particle(Rgb { r: 255, g: 254, b: 0 }),
            position: Point { x: 3, y: 4 },
            width: 4,
            height: 4,
            velocity: Point { x: 5, y: 6 },
        }
    );
    assert_eq!(handles[1], handles[0] + 1);
}

#[test]
fn cloud_drifts_and_wraps() {
    let mut c = call_of_ferris::cloud::Cloud::new(0, 20, 20, 30);
    c.update(1000, 1000);
    assert_eq!(c.position, Point { x: 30, y: 20 });
    c.update(500, 1000);
    assert_eq!(c.position.x, 45);
    let mut edge = call_of_ferris::cloud::Cloud::new(1095, 20, 20, 10);
    edge.update(1000, 1000);
    assert_eq!(edge.position.x, -100);
}

#[test]
fn each_projectile_destroys_one_enemy_in_the_same_tick() {
    let spawns = vec![Spawn::Player { x: 0 }, Spawn::Enemy { x: 300 }, Spawn::Enemy { x: 600 }, Spawn::Enemy { x: 900 }];
    let mut g = Game::create(level(spawns), sizes(), 600).unwrap();
    let (e1, e2, e3) = (g.enemies[0].body, g.enemies[1].body, g.enemies[2].body);
    assert!(g.fire(&vec![]));
    assert!(g.fire(&vec![]));
    let bullets: Vec<u64> = g
        .player
        .weapons
        .iter()
        .map(|w| match w {
            PlayerWeapon::Turbofish(t) => t.handle(),
            PlayerWeapon::Grappling(_) => panic!("expected a projectile"),
        })
        .collect();
    let contacts = vec![
        Contact { body: bullets[0], other: e1 },
        Contact { body: bullets[0], other: e3 },
        Contact { body: bullets[1], other: e3 },
    ];
    g.inner_update(&frame(contacts));
    assert_eq!(g.enemies.len(), 1);
    assert_eq!(g.enemies[0].body, e2);
    assert!(g.player.weapons.is_empty());
    assert_eq!(g.particles.len(), 2);
    assert_eq!(g.feedback.shake_state().unwrap().magnitude, ENEMY_SHAKE);
}
