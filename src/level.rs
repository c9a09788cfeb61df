//! The level text format.
//!
//! A level is a text of lines. A line whose first word starts with `.end`
//! holds the quote shown when the level is won; `.using_weapon` selects the
//! starting gun (`Turbofish Gun` or `Grappling Gun`); `.comment` is ignored.
//! Every other line is read character by character, left to right, from a
//! drawing position that starts at 0:
//! `[` left tile, `-` centre tile, `]` right tile, `_` a gap of 100,
//! `8` a centre tile with an enemy, `4` a centre tile with the player,
//! `*` a centre tile with a barrel; anything else is skipped.
use crate::entities::TileType;
use crate::game::Sizes;
use crate::physics::{in_world, Point, WORLD_LIMIT};
use crate::player::START_LIFT;
use crate::weapon::WeaponType;
use vstd::prelude::*;
use vstd::string::StringSliceAdditionalSpecFns;

verus! {

/// How far below the middle of the screen the ground lies.
pub const TILE_DROP: i64 = 64;

/// How far below the middle of the screen actors start, above the ground.
pub const ACTOR_DROP: i64 = 155;

/// One spawn directive of a level, at a horizontal position.
#[derive(Clone, Copy, Debug, PartialEq, Eq, Structural)]
pub enum Spawn {
    Tile { x: i64, tile_type: TileType },
    Enemy { x: i64 },
    Player { x: i64 },
    Barrel { x: i64 },
}

/// A level: its spawn directives in order, the quote shown when it is won,
/// and the gun selected at the start.
pub struct Level {
    pub spawns: Vec<Spawn>,
    pub end: Option<Vec<u8>>,
    pub weapon: WeaponType,
}

/// Why a level cannot be loaded.
#[derive(Clone, Copy, Debug, PartialEq, Eq, Structural)]
pub enum LevelError {
    /// No directive places the player.
    NoPlayer,
    /// A directive places something outside the world.
    OutOfWorld,
}

/// Where directive `s` places its body, on a screen of height `h`.
pub open spec fn spawn_point(s: Spawn, h: u32) -> Point {
    match s {
        Spawn::Tile { x, .. } => Point { x, y: (h / 2 - TILE_DROP) as i64 },
        Spawn::Enemy { x } => Point { x, y: (h / 2 - ACTOR_DROP) as i64 },
        Spawn::Player { x } => Point { x, y: (h / 2 - ACTOR_DROP) as i64 },
        Spawn::Barrel { x } => Point { x, y: (h / 2 - ACTOR_DROP) as i64 },
    }
}

/// Directive `s` places its body inside the world, with room above the
/// player for its start lift.
pub open spec fn spawn_ok(s: Spawn, h: u32) -> bool {
    &&& in_world(spawn_point(s, h))
    &&& s is Player ==> spawn_point(s, h).y >= START_LIFT - WORLD_LIMIT
}

/// Every directive places its body inside the world.
pub open spec fn level_ok(spawns: Seq<Spawn>, h: u32) -> bool {
    forall|i: int| 0 <= i < spawns.len() ==> #[trigger] spawn_ok(spawns[i], h)
}

/// Some directive places the player.
pub open spec fn has_player(spawns: Seq<Spawn>) -> bool {
    exists|i: int| 0 <= i < spawns.len() && #[trigger] spawns[i] is Player
}

/// Which kind of body directive `s` places: 0 a tile, 1 an enemy, 2 the
/// player, 3 a barrel.
pub open spec fn spawn_kind(s: Spawn) -> int {
    match s {
        Spawn::Tile { .. } => 0,
        Spawn::Enemy { .. } => 1,
        Spawn::Player { .. } => 2,
        Spawn::Barrel { .. } => 3,
    }
}

/// Where the directives of kind `kind` place their bodies, in the order of
/// the directives.
pub open spec fn points_of(spawns: Seq<Spawn>, h: u32, kind: int) -> Seq<Point>
    decreases spawns.len(),
{
    if spawns.len() == 0 {
        Seq::empty()
    } else {
        let rest = points_of(spawns.drop_last(), h, kind);
        if spawn_kind(spawns.last()) == kind {
            rest.push(spawn_point(spawns.last(), h))
        } else {
            rest
        }
    }
}

/// Where the last player directive places the player, if there is one.
pub open spec fn player_point(spawns: Seq<Spawn>, h: u32) -> Option<Point>
    decreases spawns.len(),
{
    if spawns.len() == 0 {
        None
    } else if spawns.last() is Player {
        Some(spawn_point(spawns.last(), h))
    } else {
        player_point(spawns.drop_last(), h)
    }
}

/// Width of the gap that `_` leaves.
pub const GAP: i64 = 100;

/// Added to half a tile's width to step past a tile.
pub const TILE_STEP: i64 = 32;

/// How far left of the drawing position a right tile is placed.
pub const RIGHT_TILE_SHIFT: i64 = 12;

/// Why a level text cannot be read.
#[derive(Clone, Copy, Debug, PartialEq, Eq, Structural)]
pub enum MapError {
    /// `.using_weapon` names no known gun.
    UnknownWeapon,
    /// The drawing position leaves the world.
    OutOfWorld,
}

/// A level being read: the drawing position, the directives so far, the
/// quote and the gun.
pub type Reading = (int, Seq<Spawn>, Option<Seq<u8>>, WeaponType);

/// Whether `s` starts with `prefix`.
pub open spec fn starts_with(s: Seq<u8>, prefix: Seq<u8>) -> bool {
    prefix.len() <= s.len() && s.take(prefix.len() as int) == prefix
}

/// Index of the first space in `s`, or its length.
pub open spec fn first_space(s: Seq<u8>) -> int
    decreases s.len(),
{
    if s.len() == 0 {
        0
    } else if s[0] == 32u8 {
        0
    } else {
        1 + first_space(s.drop_first())
    }
}

/// What follows the first word of `s` and the space after it.
pub open spec fn after_first_word(s: Seq<u8>) -> Seq<u8> {
    if first_space(s) < s.len() {
        s.skip(first_space(s) + 1)
    } else {
        Seq::empty()
    }
}

/// Whether `b` is an ASCII white-space character.
pub open spec fn is_space(b: u8) -> bool {
    b == 32u8 || (9u8 <= b && b <= 13u8)
}

/// Whether `a b` encodes a two-byte white-space character (U+0085, U+00A0).
pub open spec fn is_space2(a: u8, b: u8) -> bool {
    a == 0xC2u8 && (b == 0x85u8 || b == 0xA0u8)
}

/// Whether `a b c` encodes a three-byte white-space character (U+1680,
/// U+2000 to U+200A, U+2028, U+2029, U+202F, U+205F, U+3000).
pub open spec fn is_space3(a: u8, b: u8, c: u8) -> bool {
    ||| a == 0xE1u8 && b == 0x9Au8 && c == 0x80u8
    ||| a == 0xE2u8 && b == 0x80u8 && ((0x80u8 <= c && c <= 0x8Au8) || c == 0xA8u8 || c == 0xA9u8
        || c == 0xAFu8)
    ||| a == 0xE2u8 && b == 0x81u8 && c == 0x9Fu8
    ||| a == 0xE3u8 && b == 0x80u8 && c == 0x80u8
}

/// The length of the UTF-8 encoded white-space character (in the sense of
/// `char::is_whitespace`) that starts `s`, or 0.
pub open spec fn space_prefix(s: Seq<u8>) -> int {
    if s.len() >= 1 && is_space(s[0]) {
        1
    } else if s.len() >= 2 && is_space2(s[0], s[1]) {
        2
    } else if s.len() >= 3 && is_space3(s[0], s[1], s[2]) {
        3
    } else {
        0
    }
}

/// The length of the UTF-8 encoded white-space character that ends `s`, or 0.
pub open spec fn space_suffix(s: Seq<u8>) -> int {
    let n = s.len() as int;
    if n >= 1 && is_space(s[n - 1]) {
        1
    } else if n >= 2 && is_space2(s[n - 2], s[n - 1]) {
        2
    } else if n >= 3 && is_space3(s[n - 3], s[n - 2], s[n - 1]) {
        3
    } else {
        0
    }
}

/// `s` without white space at its start.
pub open spec fn trim_start(s: Seq<u8>) -> Seq<u8>
    decreases s.len(),
{
    if space_prefix(s) > 0 {
        trim_start(s.skip(space_prefix(s)))
    } else {
        s
    }
}

/// `s` without white space at its end.
pub open spec fn trim_end(s: Seq<u8>) -> Seq<u8>
    decreases s.len(),
{
    if space_suffix(s) > 0 {
        trim_end(s.take(s.len() - space_suffix(s)))
    } else {
        s
    }
}

/// `s` without white space at either end.
pub open spec fn trim(s: Seq<u8>) -> Seq<u8> {
    trim_end(trim_start(s))
}

/// The name of the Turbofish gun.
pub open spec fn turbofish_name() -> Seq<u8> {
    "Turbofish Gun".spec_bytes()
}

/// The name of the grappling gun.
pub open spec fn grappling_name() -> Seq<u8> {
    "Grappling Gun".spec_bytes()
}

/// Half a tile's width plus `TILE_STEP`.
pub open spec fn tile_step(width: u16) -> int {
    width / 2 + TILE_STEP
}

/// One character of a drawing line.
pub open spec fn read_char(r: Reading, c: u8, sizes: Sizes) -> Result<Reading, MapError> {
    let (pos, spawns, end, weapon) = r;
    let centre = sizes.tile_center.width;
    let (placed, step): (Seq<Spawn>, int) = if c == 91u8 {
        (seq![Spawn::Tile { x: pos as i64, tile_type: TileType::Left }], tile_step(sizes.tile_left.width))
    } else if c == 45u8 {
        (seq![Spawn::Tile { x: pos as i64, tile_type: TileType::Center }], tile_step(centre))
    } else if c == 93u8 {
        (
            seq![Spawn::Tile { x: (pos - RIGHT_TILE_SHIFT) as i64, tile_type: TileType::Right }],
            tile_step(sizes.tile_right.width),
        )
    } else if c == 95u8 {
        (Seq::empty(), GAP as int)
    } else if c == 56u8 {
        (
            seq![
                Spawn::Tile { x: pos as i64, tile_type: TileType::Center },
                Spawn::Enemy { x: pos as i64 },
            ],
            tile_step(centre),
        )
    } else if c == 52u8 {
        (
            seq![
                Spawn::Tile { x: pos as i64, tile_type: TileType::Center },
                Spawn::Player { x: pos as i64 },
            ],
            centre as int,
        )
    } else if c == 42u8 {
        (
            seq![
                Spawn::Tile { x: pos as i64, tile_type: TileType::Center },
                Spawn::Barrel { x: pos as i64 },
            ],
            centre as int,
        )
    } else {
        (Seq::empty(), 0)
    };
    if pos + step > WORLD_LIMIT {
        Err(MapError::OutOfWorld)
    } else {
        Ok((pos + step, spawns + placed, end, weapon))
    }
}

/// The characters of a drawing line, in order.
pub open spec fn read_chars(r: Reading, cs: Seq<u8>, sizes: Sizes) -> Result<Reading, MapError>
    decreases cs.len(),
{
    if cs.len() == 0 {
        Ok(r)
    } else {
        match read_chars(r, cs.drop_last(), sizes) {
            Ok(r2) => read_char(r2, cs.last(), sizes),
            Err(e) => Err(e),
        }
    }
}

/// One line of a level.
pub open spec fn read_line(r: Reading, line: Seq<u8>, sizes: Sizes) -> Result<Reading, MapError> {
    if starts_with(line, ".end".spec_bytes()) {
        Ok((r.0, r.1, Some(after_first_word(line)), r.3))
    } else if starts_with(line, ".using_weapon".spec_bytes()) {
        let name = trim(after_first_word(line));
        if name == turbofish_name() {
            Ok((r.0, r.1, r.2, WeaponType::Turbofish))
        } else if name == grappling_name() {
            Ok((r.0, r.1, r.2, WeaponType::Grappling))
        } else {
            Err(MapError::UnknownWeapon)
        }
    } else if starts_with(line, ".comment".spec_bytes()) {
        Ok(r)
    } else {
        read_chars(r, line, sizes)
    }
}

/// The reading after the complete lines of `text`, and the line still open.
pub open spec fn scan(text: Seq<u8>, sizes: Sizes) -> (Result<Reading, MapError>, Seq<u8>)
    decreases text.len(),
{
    if text.len() == 0 {
        (Ok((0, Seq::empty(), None, WeaponType::Turbofish)), Seq::empty())
    } else {
        let (r, line) = scan(text.drop_last(), sizes);
        if text.last() == 10u8 {
            (
                match r {
                    Ok(r2) => read_line(r2, line, sizes),
                    Err(e) => Err(e),
                },
                Seq::empty(),
            )
        } else {
            (r, line.push(text.last()))
        }
    }
}

/// A whole level text: every line, the last one included.
pub open spec fn read_level(text: Seq<u8>, sizes: Sizes) -> Result<Reading, MapError> {
    let (r, line) = scan(text, sizes);
    match r {
        Ok(r2) => read_line(r2, line, sizes),
        Err(e) => Err(e),
    }
}

fn starts_with_exec(s: &Vec<u8>, prefix: &[u8]) -> (r: bool)
    ensures
        r == starts_with(s@, prefix@),
{
    if prefix.len() > s.len() {
        return false;
    }
    let mut i: usize = 0;
    while i < prefix.len()
        invariant
            prefix@.len() <= s@.len(),
            i <= prefix@.len(),
            forall|k: int| 0 <= k < i ==> s@[k] == prefix@[k],
        decreases prefix@.len() - i,
    {
        if s[i] != prefix[i] {
            assert(s@.take(prefix@.len() as int)[i as int] != prefix@[i as int]);
            return false;
        }
        i = i + 1;
    }
    assert(s@.take(prefix@.len() as int) =~= prefix@);
    true
}

fn equal_bytes(a: &Vec<u8>, b: &[u8]) -> (r: bool)
    ensures
        r == (a@ == b@),
{
    if a.len() != b.len() {
        return false;
    }
    let mut i: usize = 0;
    while i < a.len()
        invariant
            a@.len() == b@.len(),
            i <= a@.len(),
            forall|k: int| 0 <= k < i ==> a@[k] == b@[k],
        decreases a@.len() - i,
    {
        if a[i] != b[i] {
            return false;
        }
        i = i + 1;
    }
    assert(a@ =~= b@);
    true
}

proof fn lemma_first_space(s: Seq<u8>)
    ensures
        0 <= first_space(s) <= s.len(),
        forall|k: int| 0 <= k < first_space(s) ==> s[k] != 32u8,
        first_space(s) < s.len() ==> s[first_space(s)] == 32u8,
    decreases s.len(),
{
    if s.len() > 0 && s[0] != 32u8 {
        lemma_first_space(s.drop_first());
        assert forall|k: int| 0 <= k < first_space(s) implies s[k] != 32u8 by {
            if k > 0 {
                assert(s[k] == s.drop_first()[k - 1]);
            }
        }
    }
}

fn after_first_word_exec(s: &Vec<u8>) -> (r: Vec<u8>)
    ensures
        r@ == after_first_word(s@),
{
    proof {
        lemma_first_space(s@);
    }
    let mut i: usize = 0;
    while i < s.len() && s[i] != 32u8
        invariant
            i <= s@.len(),
            i <= first_space(s@),
            forall|k: int| 0 <= k < i ==> s@[k] != 32u8,
            0 <= first_space(s@) <= s@.len(),
            forall|k: int| 0 <= k < first_space(s@) ==> s@[k] != 32u8,
            first_space(s@) < s@.len() ==> s@[first_space(s@)] == 32u8,
        decreases s@.len() - i,
    {
        i = i + 1;
    }
    assert(i == first_space(s@));
    let mut out: Vec<u8> = Vec::new();
    if i < s.len() {
        let mut j: usize = i + 1;
        while j < s.len()
            invariant
                i + 1 <= j <= s@.len(),
                i == first_space(s@),
                out@ == s@.subrange(i + 1, j as int),
            decreases s@.len() - j,
        {
            out.push(s[j]);
            assert(s@.subrange(i + 1, j + 1) == s@.subrange(i + 1, j as int).push(s@[j as int]));
            j = j + 1;
        }
        assert(s@.skip(i + 1) =~= s@.subrange(i + 1, s@.len() as int));
    }
    out
}

fn space_prefix_at(s: &Vec<u8>, lo: usize, hi: usize) -> (n: usize)
    requires
        lo <= hi <= s@.len(),
    ensures
        n == space_prefix(s@.subrange(lo as int, hi as int)),
{
    let t = Ghost(s@.subrange(lo as int, hi as int));
    let len = hi - lo;
    if len >= 1 && (s[lo] == 32u8 || (9u8 <= s[lo] && s[lo] <= 13u8)) {
        assert(t@[0] == s@[lo as int]);
        1
    } else if len >= 2 && s[lo] == 0xC2u8 && (s[lo + 1] == 0x85u8 || s[lo + 1] == 0xA0u8) {
        assert(t@[0] == s@[lo as int] && t@[1] == s@[lo + 1]);
        2
    } else if len >= 3 && ((s[lo] == 0xE1u8 && s[lo + 1] == 0x9Au8 && s[lo + 2] == 0x80u8) || (
    s[lo] == 0xE2u8 && s[lo + 1] == 0x80u8 && ((0x80u8 <= s[lo + 2] && s[lo + 2] <= 0x8Au8)
        || s[lo + 2] == 0xA8u8 || s[lo + 2] == 0xA9u8 || s[lo + 2] == 0xAFu8)) || (s[lo] == 0xE2u8
        && s[lo + 1] == 0x81u8 && s[lo + 2] == 0x9Fu8) || (s[lo] == 0xE3u8 && s[lo + 1] == 0x80u8
        && s[lo + 2] == 0x80u8)) {
        assert(t@[0] == s@[lo as int] && t@[1] == s@[lo + 1] && t@[2] == s@[lo + 2]);
        3
    } else {
        proof {
            if len >= 1 {
                assert(t@[0] == s@[lo as int]);
            }
            if len >= 2 {
                assert(t@[1] == s@[lo + 1]);
            }
            if len >= 3 {
                assert(t@[2] == s@[lo + 2]);
            }
        }
        0
    }
}

fn space_suffix_at(s: &Vec<u8>, lo: usize, hi: usize) -> (n: usize)
    requires
        lo <= hi <= s@.len(),
    ensures
        n == space_suffix(s@.subrange(lo as int, hi as int)),
{
    let t = Ghost(s@.subrange(lo as int, hi as int));
    let len = hi - lo;
    if len >= 1 && (s[hi - 1] == 32u8 || (9u8 <= s[hi - 1] && s[hi - 1] <= 13u8)) {
        assert(t@[len - 1] == s@[hi - 1]);
        1
    } else if len >= 2 && s[hi - 2] == 0xC2u8 && (s[hi - 1] == 0x85u8 || s[hi - 1] == 0xA0u8) {
        assert(t@[len - 1] == s@[hi - 1] && t@[len - 2] == s@[hi - 2]);
        2
    } else if len >= 3 && ((s[hi - 3] == 0xE1u8 && s[hi - 2] == 0x9Au8 && s[hi - 1] == 0x80u8) || (
    s[hi - 3] == 0xE2u8 && s[hi - 2] == 0x80u8 && ((0x80u8 <= s[hi - 1] && s[hi - 1] <= 0x8Au8)
        || s[hi - 1] == 0xA8u8 || s[hi - 1] == 0xA9u8 || s[hi - 1] == 0xAFu8)) || (s[hi - 3]
        == 0xE2u8 && s[hi - 2] == 0x81u8 && s[hi - 1] == 0x9Fu8) || (s[hi - 3] == 0xE3u8 && s[hi
        - 2] == 0x80u8 && s[hi - 1] == 0x80u8)) {
        assert(t@[len - 1] == s@[hi - 1] && t@[len - 2] == s@[hi - 2] && t@[len - 3] == s@[hi
            - 3]);
        3
    } else {
        proof {
            if len >= 1 {
                assert(t@[len - 1] == s@[hi - 1]);
            }
            if len >= 2 {
                assert(t@[len - 2] == s@[hi - 2]);
            }
            if len >= 3 {
                assert(t@[len - 3] == s@[hi - 3]);
            }
        }
        0
    }
}

fn trim_exec(s: &Vec<u8>) -> (r: Vec<u8>)
    ensures
        r@ == trim(s@),
{
    let end = s.len();
    let mut lo: usize = 0;
    assert(s@.subrange(0, end as int) =~= s@);
    loop
        invariant
            lo <= end == s@.len(),
            trim_start(s@) == trim_start(s@.subrange(lo as int, end as int)),
        ensures
            lo <= end == s@.len(),
            trim_start(s@) == trim_start(s@.subrange(lo as int, end as int)),
            space_prefix(s@.subrange(lo as int, end as int)) == 0,
        decreases end - lo,
    {
        let n = space_prefix_at(s, lo, end);
        if n == 0 {
            break;
        }
        assert(s@.subrange(lo as int, end as int).skip(n as int) =~= s@.subrange(
            lo + n,
            end as int,
        ));
        lo = lo + n;
    }
    let ghost t = s@.subrange(lo as int, end as int);
    assert(trim_start(t) == t);
    let mut hi: usize = end;
    loop
        invariant
            lo <= hi <= end == s@.len(),
            t == s@.subrange(lo as int, end as int),
            trim_end(t) == trim_end(s@.subrange(lo as int, hi as int)),
        ensures
            lo <= hi <= end == s@.len(),
            trim_end(t) == trim_end(s@.subrange(lo as int, hi as int)),
            space_suffix(s@.subrange(lo as int, hi as int)) == 0,
        decreases hi,
    {
        let n = space_suffix_at(s, lo, hi);
        if n == 0 {
            break;
        }
        assert(s@.subrange(lo as int, hi as int).take(hi - lo - n) =~= s@.subrange(
            lo as int,
            hi - n,
        ));
        hi = hi - n;
    }
    let mut out: Vec<u8> = Vec::new();
    let mut k: usize = lo;
    while k < hi
        invariant
            lo <= k <= hi <= s@.len(),
            out@ == s@.subrange(lo as int, k as int),
        decreases hi - k,
    {
        out.push(s[k]);
        assert(s@.subrange(lo as int, k + 1) == s@.subrange(lo as int, k as int).push(s@[k as int]));
        k = k + 1;
    }
    assert(trim_end(out@) == out@);
    out
}

proof fn lemma_read_chars_err(r: Reading, cs: Seq<u8>, k: int, sizes: Sizes)
    requires
        0 <= k <= cs.len(),
        read_chars(r, cs.take(k), sizes) is Err,
    ensures
        read_chars(r, cs, sizes) == read_chars(r, cs.take(k), sizes),
    decreases cs.len() - k,
{
    if k < cs.len() {
        assert(cs.take(k + 1).drop_last() =~= cs.take(k));
        lemma_read_chars_err(r, cs, k + 1, sizes);
    } else {
        assert(cs.take(k) =~= cs);
    }
}

proof fn lemma_scan_err(text: Seq<u8>, k: int, sizes: Sizes)
    requires
        0 <= k <= text.len(),
        scan(text.take(k), sizes).0 is Err,
    ensures
        scan(text, sizes).0 == scan(text.take(k), sizes).0,
    decreases text.len() - k,
{
    if k < text.len() {
        assert(text.take(k + 1).drop_last() =~= text.take(k));
        lemma_scan_err(text, k + 1, sizes);
    } else {
        assert(text.take(k) =~= text);
    }
}

/// The quote of a reading, as a sequence.
pub open spec fn end_view(e: Option<Vec<u8>>) -> Option<Seq<u8>> {
    match e {
        Some(v) => Some(v@),
        None => None,
    }
}

struct LevelReader {
    pos: i64,
    spawns: Vec<Spawn>,
    end: Option<Vec<u8>>,
    weapon: WeaponType,
}

impl LevelReader {
    spec fn view(&self) -> Reading {
        (self.pos as int, self.spawns@, end_view(self.end), self.weapon)
    }

    spec fn wf(&self) -> bool {
        0 <= self.pos <= WORLD_LIMIT
    }

    fn read_char(&mut self, c: u8, sizes: &Sizes) -> (r: Result<(), MapError>)
        requires
            old(self).wf(),
        ensures
            final(self).wf(),
            match read_char(old(self)@, c, *sizes) {
                Ok(next) => r is Ok && final(self)@ == next,
                Err(e) => r == Err::<(), MapError>(e),
            },
    {
        let pos = self.pos;
        let centre = sizes.tile_center.width as i64;
        let step: i64 = if c == 91u8 {
            sizes.tile_left.width as i64 / 2 + TILE_STEP
        } else if c == 45u8 || c == 56u8 {
            centre / 2 + TILE_STEP
        } else if c == 93u8 {
            sizes.tile_right.width as i64 / 2 + TILE_STEP
        } else if c == 95u8 {
            GAP
        } else if c == 52u8 || c == 42u8 {
            centre
        } else {
            0
        };
        if pos + step > WORLD_LIMIT {
            return Err(MapError::OutOfWorld);
        }
        let ghost before = self.spawns@;
        if c == 91u8 {
            self.spawns.push(Spawn::Tile { x: pos, tile_type: TileType::Left });
        } else if c == 45u8 {
            self.spawns.push(Spawn::Tile { x: pos, tile_type: TileType::Center });
        } else if c == 93u8 {
            self.spawns.push(Spawn::Tile { x: pos - RIGHT_TILE_SHIFT, tile_type: TileType::Right });
        } else if c == 56u8 {
            self.spawns.push(Spawn::Tile { x: pos, tile_type: TileType::Center });
            self.spawns.push(Spawn::Enemy { x: pos });
        } else if c == 52u8 {
            self.spawns.push(Spawn::Tile { x: pos, tile_type: TileType::Center });
            self.spawns.push(Spawn::Player { x: pos });
        } else if c == 42u8 {
            self.spawns.push(Spawn::Tile { x: pos, tile_type: TileType::Center });
            self.spawns.push(Spawn::Barrel { x: pos });
        }
        self.pos = pos + step;
        proof {
            let placed = self.spawns@.skip(before.len() as int);
            assert(self.spawns@ =~= before + placed);
            if c == 91u8 || c == 45u8 || c == 93u8 {
                assert(placed =~= seq![self.spawns@[before.len() as int]]);
            } else if c == 56u8 || c == 52u8 || c == 42u8 {
                assert(placed =~= seq![
                    self.spawns@[before.len() as int],
                    self.spawns@[before.len() as int + 1],
                ]);
            } else {
                assert(placed =~= Seq::<Spawn>::empty());
            }
        }
        Ok(())
    }

    #[verifier::loop_isolation(false)]
    fn read_line(&mut self, line: &Vec<u8>, sizes: &Sizes) -> (r: Result<(), MapError>)
        requires
            old(self).wf(),
        ensures
            final(self).wf(),
            match read_line(old(self)@, line@, *sizes) {
                Ok(next) => r is Ok && final(self)@ == next,
                Err(e) => r == Err::<(), MapError>(e),
            },
    {
        if starts_with_exec(line, ".end".as_bytes()) {
            self.end = Some(after_first_word_exec(line));
            return Ok(());
        }
        if starts_with_exec(line, ".using_weapon".as_bytes()) {
            let name = trim_exec(&after_first_word_exec(line));
            if equal_bytes(&name, "Turbofish Gun".as_bytes()) {
                self.weapon = WeaponType::Turbofish;
                return Ok(());
            } else if equal_bytes(&name, "Grappling Gun".as_bytes()) {
                self.weapon = WeaponType::Grappling;
                return Ok(());
            } else {
                return Err(MapError::UnknownWeapon);
            }
        }
        if starts_with_exec(line, ".comment".as_bytes()) {
            return Ok(());
        }
        let mut i: usize = 0;
        assert(line@.take(0) =~= Seq::<u8>::empty());
        while i < line.len()
            invariant
                i <= line@.len(),
                self.wf(),
                read_chars(old(self)@, line@.take(i as int), *sizes) == Ok::<Reading, MapError>(
                    self@,
                ),
            decreases line@.len() - i,
        {
            let c = line[i];
            assert(line@.take(i as int + 1).drop_last() =~= line@.take(i as int));
            assert(line@.take(i as int + 1).last() == c);
            let step = self.read_char(c, sizes);
            match step {
                Ok(()) => {},
                Err(e) => {
                    proof {
                        lemma_read_chars_err(old(self)@, line@, i as int + 1, *sizes);
                    }
                    return Err(e);
                },
            }
            i = i + 1;
        }
        assert(line@.take(line@.len() as int) =~= line@);
        Ok(())
    }
}

impl Level {
    /// Reads a level text (see the module's documentation). The result is
    /// `read_level` of the text: the directives in order, the quote, and the
    /// gun (the Turbofish gun unless a line selects another).
    #[verifier::loop_isolation(false)]
    pub fn parse(text: &[u8], sizes: &Sizes) -> (r: Result<Level, MapError>)
        ensures
            match read_level(text@, *sizes) {
                Ok(reading) => r is Ok && r->Ok_0.spawns@ == reading.1 && end_view(r->Ok_0.end)
                    == reading.2 && r->Ok_0.weapon == reading.3,
                Err(e) => r == Err::<Level, MapError>(e),
            },
    {
        let mut reader = LevelReader {
            pos: 0,
            spawns: Vec::new(),
            end: None,
            weapon: WeaponType::Turbofish,
        };
        let mut line: Vec<u8> = Vec::new();
        let mut i: usize = 0;
        assert(text@.take(0) =~= Seq::<u8>::empty());
        assert(reader@ == (0int, Seq::<Spawn>::empty(), None::<Seq<u8>>, WeaponType::Turbofish));
        while i < text.len()
            invariant
                i <= text@.len(),
                reader.wf(),
                scan(text@.take(i as int), *sizes) == (Ok::<Reading, MapError>(reader@), line@),
            decreases text@.len() - i,
        {
            let b = text[i];
            assert(text@.take(i as int + 1).drop_last() =~= text@.take(i as int));
            assert(text@.take(i as int + 1).last() == b);
            if b == 10u8 {
                let done = reader.read_line(&line, sizes);
                match done {
                    Ok(()) => {},
                    Err(e) => {
                        proof {
                            lemma_scan_err(text@, i as int + 1, *sizes);
                        }
                        return Err(e);
                    },
                }
                line = Vec::new();
            } else {
                line.push(b);
            }
            i = i + 1;
        }
        assert(text@.take(text@.len() as int) =~= text@);
        match reader.read_line(&line, sizes) {
            Ok(()) => {},
            Err(e) => {
                return Err(e);
            },
        }
        Ok(Level { spawns: reader.spawns, end: reader.end, weapon: reader.weapon })
    }
}

} // verus!
