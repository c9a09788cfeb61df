use call_of_ferris::entities::{Size, TileType};
use call_of_ferris::game::{Game, Sizes};
use call_of_ferris::level::{Level, MapError, Spawn};
use call_of_ferris::weapon::WeaponType;

fn sizes() -> Sizes {
    let s = |w: u16, h: u16| Size { width: w, height: h };
    Sizes {
        player: s(60, 80),
        enemy: s(50, 70),
        barrel: s(40, 60),
        bullet: s(30, 10),
        tile_left: s(64, 64),
        tile_center: s(64, 64),
        tile_right: s(64, 64),
    }
}

#[test]
fn parses_tiles_actors_and_settings() {
    let text = "[-8-4-*]\n.end Well done, crab\n.using_weapon Grappling Gun \n.comment nothing here";
    let level = Level::parse(text.as_bytes(), &sizes()).unwrap();
    assert_eq!(
        level.spawns,
        vec![
            Spawn::Tile { x: 0, tile_type: TileType::Left },
            Spawn::Tile { x: 64, tile_type: TileType::Center },
            Spawn::Tile { x: 128, tile_type: TileType::Center },
            Spawn::Enemy { x: 128 },
            Spawn::Tile { x: 192, tile_type: TileType::Center },
            Spawn::Tile { x: 256, tile_type: TileType::Center },
            Spawn::Player { x: 256 },
            Spawn::Tile { x: 320, tile_type: TileType::Center },
            Spawn::Tile { x: 384, tile_type: TileType::Center },
            Spawn::Barrel { x: 384 },
            Spawn::Tile { x: 436, tile_type: TileType::Right },
        ]
    );
    assert_eq!(level.end, Some(b"Well done, crab".to_vec()));
    assert_eq!(level.weapon, WeaponType::Grappling);
}

#[test]
fn gaps_and_unknown_characters() {
    let level = Level::parse("_x-".as_bytes(), &sizes()).unwrap();
    assert_eq!(level.spawns, vec![Spawn::Tile { x: 100, tile_type: TileType::Center }]);
    assert_eq!(level.end, None);
    assert_eq!(level.weapon, WeaponType::Turbofish);
}

#[test]
fn unknown_weapon_is_an_error() {
    let r = Level::parse("-4\n.using_weapon Banana Gun".as_bytes(), &sizes());
    assert_eq!(r.err(), Some(MapError::UnknownWeapon));
}

#[test]
fn empty_text_has_no_directives() {
    let level = Level::parse(b"", &sizes()).unwrap();
    assert!(level.spawns.is_empty());
}

#[test]
fn parsed_level_loads() {
    let level = Level::parse("[4-8-*]".as_bytes(), &sizes()).unwrap();
    let game = Game::create(level, sizes(), 600).unwrap();
    assert_eq!(game.enemies.len(), 1);
    assert_eq!(game.barrels.len(), 1);
    assert_eq!(game.ground.len(), 7);
}

#[test]
fn drawing_past_the_world_is_an_error() {
    let mut wide = sizes();
    wide.tile_left = Size { width: 65535, height: 64 };
    let text = "[".repeat(40_000);
    let r = Level::parse(text.as_bytes(), &wide);
    assert_eq!(r.err(), Some(MapError::OutOfWorld));
}

#[test]
fn later_player_directive_replaces_the_earlier() {
    let level = Level::parse("4_4".as_bytes(), &sizes()).unwrap();
    let game = Game::create(level, sizes(), 600).unwrap();
    assert_eq!(game.player.position(&game.physics).x, 164);
    assert_eq!(game.physics.body_count(), 3);
}

#[test]
fn weapon_name_is_trimmed_of_unicode_spaces() {
    let text = ".using_weapon \u{2003}Grappling Gun\u{a0}\r";
    let level = Level::parse(text.as_bytes(), &sizes()).unwrap();
    assert_eq!(level.weapon, WeaponType::Grappling);
}
