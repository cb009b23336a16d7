use vstd::prelude::*;
use vstd::string::*;
use rand::Rng;
use crate::parcel::Parcel;
use crate::entity::{Anchor, BoxColliderSpec, CollisionType, EntitySpec, EntityView, views, make_entity,
    lemma_views_push, append_entities};
use crate::scene_maker::{SceneData, grid, entity_view, PARCEL_SIZE_X, PARCEL_SIZE_Y, TILE_SIZE_X, TILE_SIZE_Y};

verus! {

broadcast use vstd::seq_lib::group_seq_properties;

// ------------------------------------------------------------ chance

/// `rand::Rng::gen_range(0..high)` on the thread's generator: rand
/// documents a value of the half-open range, and a panic on an empty one.
/// Which value comes is left open.
#[verifier::external_body]
fn random_below(high: u64) -> (r: u64)
    requires
        0 < high,
    ensures
        r < high,
{
    rand::thread_rng().gen_range(0..high)
}

/// `rand::Rng::gen_ratio` on the thread's generator: `true` with a
/// chance of `numerator` in `denominator`; rand documents that it is
/// always `false` for a numerator of 0, always `true` when numerator and
/// denominator are equal, and a panic for a zero denominator or a
/// numerator above it. Which outcome comes is left open.
#[verifier::external_body]
fn random_ratio(numerator: u32, denominator: u32) -> (r: bool)
    requires
        0 < denominator,
        numerator <= denominator,
    ensures
        numerator == 0 ==> !r,
        numerator == denominator ==> r,
{
    rand::thread_rng().gen_ratio(numerator, denominator)
}

// ------------------------------------------------------------ background

/// Number of background tiles on each side of the default parcel.
pub const DEFAULT_TILES: usize = 7;

/// Folder of the background tiles, under the default scene's assets.
pub open spec fn background_folder() -> Seq<char> {
    "./background"@
}

/// `..` repeated `n` times, joined by `/`.
pub open spec fn parent_dirs(n: nat) -> Seq<char>
    decreases n,
{
    if n <= 1 {
        if n == 0 { Seq::empty() } else { ".."@ }
    } else {
        parent_dirs((n - 1) as nat) + "/.."@
    }
}

/// The prefix that leads from a scene folder `depth` components deep
/// back to the default scene's assets; empty for the default scene
/// itself (depth 0).
pub open spec fn default_asset_prefix(depth: nat) -> Seq<char> {
    if depth == 0 {
        Seq::empty()
    } else {
        parent_dirs(depth + 1) + "/default_scene/assets"@
    }
}

/// The sprite path of a background tile file.
pub open spec fn background_sprite(depth: nat, file_name: Seq<char>) -> Seq<char> {
    default_asset_prefix(depth) + background_folder() + "/"@ + file_name
}

/// Builds the prefix of `default_asset_prefix`.
fn asset_prefix(depth: usize) -> (s: String)
    ensures
        s@ == default_asset_prefix(depth as nat),
{
    if depth == 0 {
        return String::new();
    }
    let mut s = String::from_str("..");
    let mut i: usize = 0;
    proof {
        reveal_strlit("..");
    }
    while i < depth
        invariant
            i <= depth,
            s@ == parent_dirs((i + 1) as nat),
        decreases depth - i,
    {
        s.append("/..");
        i = i + 1;
    }
    s.append("/default_scene/assets");
    s
}

/// The sprite paths of the background tile files found, for a scene
/// folder `depth` components deep.
pub fn background_sprites(depth: usize, file_names: &Vec<String>) -> (sprites: Vec<String>)
    ensures
        sprites@.len() == file_names@.len(),
        forall|i: int| 0 <= i < file_names@.len() ==> #[trigger] sprites@[i]@ == background_sprite(depth as nat, file_names@[i]@),
{
    let prefix = asset_prefix(depth);
    let mut sprites: Vec<String> = Vec::new();
    let mut i: usize = 0;
    while i < file_names.len()
        invariant
            i <= file_names.len(),
            prefix@ == default_asset_prefix(depth as nat),
            sprites@.len() == i,
            forall|j: int| 0 <= j < i ==> #[trigger] sprites@[j]@ == background_sprite(depth as nat, file_names@[j]@),
        decreases file_names.len() - i,
    {
        let mut s = prefix.clone();
        s.append("./background");
        s.append("/");
        s.append(file_names[i].as_str());
        sprites.push(s);
        i = i + 1;
    }
    sprites
}

/// The background tile at column `x` and row `y`, drawn with `sprite`.
pub open spec fn background_tile(sprite: Seq<char>, x: int, y: int) -> EntityView {
    entity_view(
        "Background"@,
        sprite,
        -5,
        Anchor::BottomLeft,
        TILE_SIZE_X * x - (PARCEL_SIZE_X as int) / 2,
        TILE_SIZE_Y * y - (PARCEL_SIZE_Y as int) / 2,
        None,
    )
}

/// The background of the default parcel: a grid of tiles, column by
/// column, the tile at `(x, y)` drawn with sprite `choices[x * 7 + y]`.
pub open spec fn default_background(sprites: Seq<String>, choices: Seq<usize>) -> Seq<EntityView> {
    grid(
        DEFAULT_TILES as int,
        DEFAULT_TILES as int,
        |x: int, y: int| background_tile(sprites[choices[x * 7 + y] as int]@, x, y),
    )
}

/// Whether tile choices pick, for every tile, one of the sprites but
/// the last one.
pub open spec fn valid_background_choices(choices: Seq<usize>, sprite_count: int) -> bool {
    &&& choices.len() == DEFAULT_TILES * DEFAULT_TILES
    &&& forall|i: int| 0 <= i < choices.len() ==> #[trigger] choices[i] < sprite_count - 1
}

/// The default background, given the sprite chosen for each tile.
pub fn background_from_choices(sprites: &Vec<String>, choices: &Vec<usize>) -> (entities: Vec<EntitySpec>)
    requires
        choices@.len() == DEFAULT_TILES * DEFAULT_TILES,
        forall|i: int| 0 <= i < choices@.len() ==> #[trigger] choices@[i] < sprites@.len(),
    ensures
        views(entities@) == default_background(sprites@, choices@),
{
    let ghost f = |x: int, y: int| background_tile(sprites@[choices@[x * 7 + y] as int]@, x, y);
    let mut entities: Vec<EntitySpec> = Vec::new();
    let mut x: usize = 0;
    while x < DEFAULT_TILES
        invariant
            x <= DEFAULT_TILES,
            choices@.len() == DEFAULT_TILES * DEFAULT_TILES,
            forall|i: int| 0 <= i < choices@.len() ==> #[trigger] choices@[i] < sprites@.len(),
            f == (|x: int, y: int| background_tile(sprites@[choices@[x * 7 + y] as int]@, x, y)),
            views(entities@) == grid(x as int, DEFAULT_TILES as int, f),
        decreases DEFAULT_TILES - x,
    {
        let ghost before = views(entities@);
        let mut y: usize = 0;
        while y < DEFAULT_TILES
            invariant
                x < DEFAULT_TILES,
                y <= DEFAULT_TILES,
                choices@.len() == DEFAULT_TILES * DEFAULT_TILES,
                forall|i: int| 0 <= i < choices@.len() ==> #[trigger] choices@[i] < sprites@.len(),
                f == (|x: int, y: int| background_tile(sprites@[choices@[x * 7 + y] as int]@, x, y)),
                views(entities@) == before + Seq::new(y as nat, |j: int| f(x as int, j)),
            decreases DEFAULT_TILES - y,
        {
            let k = x * 7 + y;
            let location_x = TILE_SIZE_X * (x as i32) - PARCEL_SIZE_X / 2;
            let location_y = TILE_SIZE_Y * (y as i32) - PARCEL_SIZE_Y / 2;
            let entity = make_entity("Background", sprites[choices[k]].as_str(), -5, Anchor::BottomLeft,
                location_x, location_y, None);
            proof {
                reveal_strlit("Background");
                lemma_views_push(entities@, entity);
                assert(entity@ == f(x as int, y as int));
                assert(Seq::new((y + 1) as nat, |j: int| f(x as int, j))
                    =~= Seq::new(y as nat, |j: int| f(x as int, j)).push(f(x as int, y as int)));
            }
            entities.push(entity);
            y = y + 1;
        }
        x = x + 1;
    }
    entities
}

/// The default background: every tile drawn with a sprite chosen at
/// random among all the sprites but the last one (which is never
/// chosen). At least two sprites are needed.
pub fn make_default_background_entities(sprites: &Vec<String>) -> (entities: Vec<EntitySpec>)
    requires
        sprites@.len() >= 2,
    ensures
        exists|choices: Seq<usize>| #[trigger] valid_background_choices(choices, sprites@.len() as int)
            && views(entities@) == default_background(sprites@, choices),
{
    let mut choices: Vec<usize> = Vec::new();
    let high = (sprites.len() - 1) as u64;
    let mut i: usize = 0;
    while i < DEFAULT_TILES * DEFAULT_TILES
        invariant
            i <= DEFAULT_TILES * DEFAULT_TILES,
            2 <= sprites@.len(),
            high == sprites@.len() - 1,
            choices@.len() == i,
            forall|j: int| 0 <= j < i ==> #[trigger] choices@[j] < sprites@.len() - 1,
        decreases DEFAULT_TILES * DEFAULT_TILES - i,
    {
        let pick = random_below(high);
        choices.push(pick as usize);
        i = i + 1;
    }
    let entities = background_from_choices(sprites, &choices);
    proof {
        assert(valid_background_choices(choices@, sprites@.len() as int));
    }
    entities
}

// ------------------------------------------------------------ obstacles

/// The kinds of decoration scattered at random on the default parcel.
#[derive(Debug, Clone, Copy, PartialEq, Eq, Structural)]
pub enum ObstacleKind {
    /// Drawn under the player, with nothing to bump into.
    NoCollision,
    /// A small solid obstacle.
    SmallCollision,
    /// A big solid obstacle.
    BigCollision,
}

/// A decoration that may appear on the default parcel: its folder
/// (`<kind folder>/<name>`) and the image files in it, one entity each.
#[derive(Debug)]
pub struct RandomObstacle {
    pub kind: ObstacleKind,
    pub folder: String,
    pub png_files: Vec<String>,
}

/// The folder of each kind of decoration, under the default scene's
/// assets.
pub open spec fn kind_folder(kind: ObstacleKind) -> Seq<char> {
    match kind {
        ObstacleKind::NoCollision => "./randomized/no_collision"@,
        ObstacleKind::SmallCollision => "./randomized/small_collision"@,
        ObstacleKind::BigCollision => "./randomized/big_collision"@,
    }
}

/// The folder of a decoration named `name`.
pub fn obstacle_folder(kind: ObstacleKind, name: &str) -> (folder: String)
    ensures
        folder@ == kind_folder(kind) + "/"@ + name@,
{
    let mut folder = match kind {
        ObstacleKind::NoCollision => String::from_str("./randomized/no_collision"),
        ObstacleKind::SmallCollision => String::from_str("./randomized/small_collision"),
        ObstacleKind::BigCollision => String::from_str("./randomized/big_collision"),
    };
    folder.append("/");
    folder.append(name);
    folder
}

/// The drawing layer of a decoration: under the player when nothing
/// collides with it.
pub open spec fn obstacle_layer(kind: ObstacleKind) -> int {
    match kind {
        ObstacleKind::NoCollision => -1,
        _ => 0,
    }
}

/// The solid box of a decoration, at its base.
pub open spec fn obstacle_collider(kind: ObstacleKind) -> Option<BoxColliderSpec> {
    match kind {
        ObstacleKind::NoCollision => None,
        ObstacleKind::SmallCollision => Some(BoxColliderSpec {
            collision_type: CollisionType::Solid, center_x: 0, center_y: 20, width: 30, height: 30 }),
        ObstacleKind::BigCollision => Some(BoxColliderSpec {
            collision_type: CollisionType::Solid, center_x: 0, center_y: 40, width: 80, height: 80 }),
    }
}

/// Where a decoration may be placed: anywhere in the central 80% of the
/// parcel, or, for a solid one, at least 50 units from both axes.
pub open spec fn valid_placement(kind: ObstacleKind, x: int, y: int) -> bool {
    match kind {
        ObstacleKind::NoCollision => -200 <= x < 200 && -200 <= y < 200,
        _ => (50 <= x < 200 || -200 < x <= -50) && (50 <= y < 200 || -200 < y <= -50),
    }
}

/// The entities of a decoration placed at `(x, y)`: one per image file,
/// named after it.
pub open spec fn obstacle_entities(o: RandomObstacle, x: int, y: int) -> Seq<EntityView> {
    Seq::new(o.png_files@.len(), |i: int| entity_view(
        o.png_files@[i]@,
        o.folder@ + "/"@ + o.png_files@[i]@,
        obstacle_layer(o.kind),
        Anchor::BottomCenter,
        x,
        y,
        obstacle_collider(o.kind),
    ))
}

/// The entities of the decorations placed (`Some` location) and not
/// placed (`None`), in order.
pub open spec fn placed_obstacles(obstacles: Seq<RandomObstacle>, placements: Seq<Option<(i32, i32)>>) -> Seq<EntityView>
    decreases obstacles.len(),
{
    if obstacles.len() == 0 || placements.len() == 0 {
        Seq::empty()
    } else {
        let rest = placed_obstacles(obstacles.drop_last(), placements.drop_last());
        match placements.last() {
            Some(at) => rest + obstacle_entities(obstacles.last(), at.0 as int, at.1 as int),
            None => rest,
        }
    }
}

/// Whether a decoration that is placed is placed validly.
pub open spec fn placement_fits(kind: ObstacleKind, placement: Option<(i32, i32)>) -> bool {
    match placement {
        Some(at) => valid_placement(kind, at.0 as int, at.1 as int),
        None => true,
    }
}

/// Whether every placement is valid for its decoration.
pub open spec fn valid_placements(obstacles: Seq<RandomObstacle>, placements: Seq<Option<(i32, i32)>>) -> bool {
    &&& placements.len() == obstacles.len()
    &&& forall|i: int| 0 <= i < placements.len() && #[trigger] placements[i] is Some
        ==> placement_fits(obstacles[i].kind, placements[i])
}

/// The entities of a decoration placed at `(x, y)`.
pub fn obstacle_entities_at(o: &RandomObstacle, x: i32, y: i32) -> (entities: Vec<EntitySpec>)
    ensures
        views(entities@) == obstacle_entities(*o, x as int, y as int),
{
    let collider = match o.kind {
        ObstacleKind::NoCollision => None,
        ObstacleKind::SmallCollision => Some(BoxColliderSpec {
            collision_type: CollisionType::Solid, center_x: 0, center_y: 20, width: 30, height: 30 }),
        ObstacleKind::BigCollision => Some(BoxColliderSpec {
            collision_type: CollisionType::Solid, center_x: 0, center_y: 40, width: 80, height: 80 }),
    };
    let layer: i32 = match o.kind {
        ObstacleKind::NoCollision => -1,
        _ => 0,
    };
    let mut entities: Vec<EntitySpec> = Vec::new();
    let mut i: usize = 0;
    while i < o.png_files.len()
        invariant
            i <= o.png_files@.len(),
            collider == obstacle_collider(o.kind),
            layer == obstacle_layer(o.kind),
            views(entities@) == obstacle_entities(*o, x as int, y as int).subrange(0, i as int),
        decreases o.png_files@.len() - i,
    {
        let mut sprite = o.folder.clone();
        sprite.append("/");
        sprite.append(o.png_files[i].as_str());
        let entity = make_entity(o.png_files[i].as_str(), sprite.as_str(), layer, Anchor::BottomCenter, x, y, collider);
        proof {
            lemma_views_push(entities@, entity);
            assert(obstacle_entities(*o, x as int, y as int).subrange(0, i + 1)
                =~= obstacle_entities(*o, x as int, y as int).subrange(0, i as int).push(entity@));
        }
        entities.push(entity);
        i = i + 1;
    }
    proof {
        assert(obstacle_entities(*o, x as int, y as int).subrange(0, o.png_files@.len() as int)
            =~= obstacle_entities(*o, x as int, y as int));
    }
    entities
}

/// The entities of the decorations, each placed where `placements`
/// says, or left out.
pub fn obstacles_from_placements(obstacles: &Vec<RandomObstacle>, placements: &Vec<Option<(i32, i32)>>)
    -> (entities: Vec<EntitySpec>)
    requires
        placements@.len() == obstacles@.len(),
    ensures
        views(entities@) == placed_obstacles(obstacles@, placements@),
{
    let mut entities: Vec<EntitySpec> = Vec::new();
    let mut i: usize = 0;
    while i < obstacles.len()
        invariant
            i <= obstacles@.len(),
            placements@.len() == obstacles@.len(),
            views(entities@) == placed_obstacles(obstacles@.subrange(0, i as int), placements@.subrange(0, i as int)),
        decreases obstacles@.len() - i,
    {
        proof {
            assert(obstacles@.subrange(0, i + 1).drop_last() =~= obstacles@.subrange(0, i as int));
            assert(placements@.subrange(0, i + 1).drop_last() =~= placements@.subrange(0, i as int));
        }
        match placements[i] {
            Some((x, y)) => {
                let mut placed = obstacle_entities_at(&obstacles[i], x, y);
                append_entities(&mut entities, &mut placed);
            },
            None => {},
        }
        i = i + 1;
    }
    proof {
        assert(obstacles@.subrange(0, obstacles@.len() as int) =~= obstacles@);
        assert(placements@.subrange(0, placements@.len() as int) =~= placements@);
    }
    entities
}

/// Chooses where a decoration goes: anywhere in the central 80% of the
/// parcel, or, for a solid one, 50 to 200 units from the center on each
/// axis, on a side chosen at random.
pub fn random_placement(kind: ObstacleKind) -> (at: (i32, i32))
    ensures
        valid_placement(kind, at.0 as int, at.1 as int),
{
    match kind {
        ObstacleKind::NoCollision => {
            let x = random_below(400) as i32 - 200;
            let y = random_below(400) as i32 - 200;
            (x, y)
        },
        _ => {
            let mut x = random_below(150) as i32 + 50;
            let mut y = random_below(150) as i32 + 50;
            if random_ratio(1, 2) {
                x = -x;
            }
            if random_ratio(1, 2) {
                y = -y;
            }
            (x, y)
        },
    }
}

/// The decorations of the default parcel: each one appears with a
/// chance of one in ten, at a place chosen at random.
pub fn make_default_random_entities(obstacles: &Vec<RandomObstacle>) -> (entities: Vec<EntitySpec>)
    ensures
        exists|placements: Seq<Option<(i32, i32)>>| #[trigger] valid_placements(obstacles@, placements)
            && views(entities@) == placed_obstacles(obstacles@, placements),
{
    let mut placements: Vec<Option<(i32, i32)>> = Vec::new();
    let mut i: usize = 0;
    while i < obstacles.len()
        invariant
            i <= obstacles@.len(),
            placements@.len() == i,
            forall|j: int| 0 <= j < i && #[trigger] placements@[j] is Some
                ==> placement_fits(obstacles@[j].kind, placements@[j]),
        decreases obstacles@.len() - i,
    {
        if random_ratio(1, 10) {
            let at = random_placement(obstacles[i].kind);
            placements.push(Some(at));
        } else {
            placements.push(None);
        }
        i = i + 1;
    }
    let entities = obstacles_from_placements(obstacles, &placements);
    proof {
        assert(valid_placements(obstacles@, placements@));
    }
    entities
}

// ------------------------------------------------------------ scene

/// The scene of a parcel without a scene of its own: scattered
/// decorations over a tiled background, with its assets in the default
/// scene's folder.
pub fn make_default_scene(parcel: &Parcel, obstacles: &Vec<RandomObstacle>, background_sprites: &Vec<String>)
    -> (scene_data: SceneData)
    requires
        background_sprites@.len() >= 2,
    ensures
        scene_data.name@ == "default_scene"@,
        scene_data.level_name@ == Seq::<char>::empty(),
        scene_data.parcels@ == seq![*parcel],
        scene_data.path@.map_values(|c: String| c@) == seq![".."@, "assets"@, "default_scene"@],
        exists|placements: Seq<Option<(i32, i32)>>, choices: Seq<usize>|
            #[trigger] valid_placements(obstacles@, placements)
            && #[trigger] valid_background_choices(choices, background_sprites@.len() as int)
            && views(scene_data.entities@) == placed_obstacles(obstacles@, placements)
                + default_background(background_sprites@, choices),
{
    let mut entities: Vec<EntitySpec> = Vec::new();
    let mut random_entities = make_default_random_entities(obstacles);
    append_entities(&mut entities, &mut random_entities);
    let mut background = make_default_background_entities(background_sprites);
    let ghost placed = views(entities@);
    append_entities(&mut entities, &mut background);

    let mut parcels: Vec<Parcel> = Vec::new();
    parcels.push(*parcel);
    let mut path: Vec<String> = Vec::new();
    path.push(String::from_str(".."));
    path.push(String::from_str("assets"));
    path.push(String::from_str("default_scene"));
    proof {
        assert(path@.map_values(|c: String| c@) =~= seq![".."@, "assets"@, "default_scene"@]);
        assert(placed =~= Seq::<EntityView>::empty() + placed);
    }
    SceneData {
        name: String::from_str("default_scene"),
        level_name: String::new(),
        entities,
        parcels,
        path,
    }
}

} // verus!
