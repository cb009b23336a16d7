use vstd::prelude::*;
use vstd::string::*;
use crate::parcel::Parcel;
use crate::roads::{RoadsData, is_road};
use crate::entity::{Anchor, EntitySpec, EntityView, views, make_entity, lemma_views_push, append_entities};
use crate::scene_maker::{Border, SceneData, entity_view, road_at, road_scene_name, border_sprite, border_anchor,
    PARCEL_SIZE_X, PARCEL_SIZE_Y, TILE_SIZE_X, TILE_SIZE_Y};
use crate::text::i16_to_string;

verus! {

// The plain road layout: a background and full-length borders along
// the sides without a neighbouring road, with no corners or
// boulevards.

/// The four neighbours of the parcel have coordinates that fit in an
/// `i16`.
pub open spec fn border_neighbourhood_fits(p: Parcel) -> bool {
    -32767 <= p.0 <= 32766 && -32767 <= p.1 <= 32766
}

/// Tiles along a border of the plain road layout.
pub open spec fn full_border_tile_count(border: Border) -> int {
    match border {
        Border::Left | Border::Right => (PARCEL_SIZE_Y as int) / (TILE_SIZE_Y as int),
        Border::Top | Border::Bottom => (PARCEL_SIZE_X as int) / (TILE_SIZE_X as int),
    }
}

/// The `i`-th border tile along a side of the parcel.
pub open spec fn border_tile(border: Border, i: int) -> EntityView {
    let x = match border {
        Border::Left => (PARCEL_SIZE_X as int) / -2,
        Border::Right => (PARCEL_SIZE_X as int) / 2,
        Border::Top | Border::Bottom => TILE_SIZE_X * i - (PARCEL_SIZE_X as int) / 2,
    };
    let y = match border {
        Border::Left | Border::Right => TILE_SIZE_X * i - (PARCEL_SIZE_Y as int) / 2,
        Border::Top => (PARCEL_SIZE_Y as int) / 2,
        Border::Bottom => (PARCEL_SIZE_Y as int) / -2,
    };
    entity_view("Border"@, border_sprite(border), -2, border_anchor(border), x, y, None)
}

/// The border along one side: a tile at every tile width.
pub open spec fn full_border(border: Border) -> Seq<EntityView> {
    Seq::new(full_border_tile_count(border) as nat, |i: int| border_tile(border, i))
}

/// The borders of a road parcel: along each side (left, right, bottom,
/// top) that has no road beyond it.
pub open spec fn road_borders(roads: RoadsData, p: Parcel) -> Seq<EntityView> {
    (if !road_at(roads, p, -1, 0) { full_border(Border::Left) } else { Seq::empty() })
        + (if !road_at(roads, p, 1, 0) { full_border(Border::Right) } else { Seq::empty() })
        + (if !road_at(roads, p, 0, -1) { full_border(Border::Bottom) } else { Seq::empty() })
        + (if !road_at(roads, p, 0, 1) { full_border(Border::Top) } else { Seq::empty() })
}

/// The road background of the plain layout, centred on the parcel.
pub open spec fn plain_background() -> EntityView {
    entity_view("Background"@, "road-background.png"@, -3, Anchor::Center, 0, 0, None)
}

/// The background of a plain road parcel.
pub fn make_background_entity() -> (e: EntitySpec)
    ensures
        e@ == plain_background(),
{
    make_entity("Background", "road-background.png", -3, Anchor::Center, 0, 0, None)
}

/// The border tiles along one side of a parcel.
pub fn make_border(border: &Border) -> (entities: Vec<EntitySpec>)
    ensures
        views(entities@) == full_border(*border),
{
    let mut entities: Vec<EntitySpec> = Vec::new();
    let total_tiles: i32 = match border {
        Border::Left => PARCEL_SIZE_Y / TILE_SIZE_Y,
        Border::Right => PARCEL_SIZE_Y / TILE_SIZE_Y,
        Border::Top => PARCEL_SIZE_X / TILE_SIZE_X,
        Border::Bottom => PARCEL_SIZE_X / TILE_SIZE_X,
    };
    let mut i: i32 = 0;
    while i < total_tiles
        invariant
            0 <= i <= total_tiles,
            total_tiles == full_border_tile_count(*border),
            total_tiles == 7,
            views(entities@) == Seq::new(i as nat, |k: int| border_tile(*border, k)),
        decreases total_tiles - i,
    {
        let location_x = match border {
            Border::Left => PARCEL_SIZE_X / -2,
            Border::Right => PARCEL_SIZE_X / 2,
            Border::Top => TILE_SIZE_X * i - PARCEL_SIZE_X / 2,
            Border::Bottom => TILE_SIZE_X * i - PARCEL_SIZE_X / 2,
        };
        let location_y = match border {
            Border::Left => TILE_SIZE_X * i - PARCEL_SIZE_Y / 2,
            Border::Right => TILE_SIZE_X * i - PARCEL_SIZE_Y / 2,
            Border::Top => PARCEL_SIZE_Y / 2,
            Border::Bottom => PARCEL_SIZE_Y / -2,
        };
        let sprite: &str = match border {
            Border::Left => "road-left.png",
            Border::Right => "road-right.png",
            Border::Top => "road-top.png",
            Border::Bottom => "road-bottom.png",
        };
        let anchor = match border {
            Border::Left => Anchor::BottomLeft,
            Border::Right => Anchor::BottomRight,
            Border::Top => Anchor::TopLeft,
            Border::Bottom => Anchor::BottomLeft,
        };
        let entity = make_entity("Border", sprite, -2, anchor, location_x, location_y, None);
        proof {
            lemma_views_push(entities@, entity);
            assert(entity@ == border_tile(*border, i as int));
            assert(Seq::new((i + 1) as nat, |k: int| border_tile(*border, k))
                =~= Seq::new(i as nat, |k: int| border_tile(*border, k)).push(border_tile(*border, i as int)));
        }
        entities.push(entity);
        i = i + 1;
    }
    entities
}

/// The borders of a road parcel, along each side that has no road
/// beyond it.
pub fn make_border_entities(roads_data: &RoadsData, parcel: &Parcel) -> (entities: Vec<EntitySpec>)
    requires
        border_neighbourhood_fits(*parcel),
    ensures
        views(entities@) == road_borders(*roads_data, *parcel),
{
    let mut border: Vec<EntitySpec> = Vec::new();
    let ghost e = Seq::<EntityView>::empty();
    if !is_road(&Parcel(parcel.0 - 1, parcel.1), roads_data) {
        let mut side = make_border(&Border::Left);
        append_entities(&mut border, &mut side);
    }
    let ghost s1 = views(border@);
    if !is_road(&Parcel(parcel.0 + 1, parcel.1), roads_data) {
        let mut side = make_border(&Border::Right);
        append_entities(&mut border, &mut side);
    }
    let ghost s2 = views(border@);
    if !is_road(&Parcel(parcel.0, parcel.1 - 1), roads_data) {
        let mut side = make_border(&Border::Bottom);
        append_entities(&mut border, &mut side);
    }
    let ghost s3 = views(border@);
    if !is_road(&Parcel(parcel.0, parcel.1 + 1), roads_data) {
        let mut side = make_border(&Border::Top);
        append_entities(&mut border, &mut side);
    }
    proof {
        let p = *parcel;
        let t1 = if !road_at(*roads_data, p, -1, 0) { full_border(Border::Left) } else { e };
        let t2 = if !road_at(*roads_data, p, 1, 0) { full_border(Border::Right) } else { e };
        let t3 = if !road_at(*roads_data, p, 0, -1) { full_border(Border::Bottom) } else { e };
        let t4 = if !road_at(*roads_data, p, 0, 1) { full_border(Border::Top) } else { e };
        assert(s1 =~= t1);
        assert(s2 =~= t1 + t2);
        assert(s3 =~= t1 + t2 + t3);
        assert(views(border@) =~= t1 + t2 + t3 + t4);
    }
    border
}

/// The plain road scene of a parcel: its background, then its borders.
pub fn make_plain_road_scene(roads_data: &RoadsData, parcel: &Parcel) -> (scene_data: SceneData)
    requires
        border_neighbourhood_fits(*parcel),
    ensures
        scene_data.name@ == road_scene_name(*parcel),
        scene_data.level_name@ == road_scene_name(*parcel),
        views(scene_data.entities@) == seq![plain_background()] + road_borders(*roads_data, *parcel),
        scene_data.parcels@ == seq![*parcel],
        scene_data.path@.map_values(|c: String| c@) == seq![".."@, "assets"@, "roads"@],
{
    let mut entities: Vec<EntitySpec> = Vec::new();
    let background = make_background_entity();
    proof { lemma_views_push(entities@, background); }
    entities.push(background);
    let mut borders = make_border_entities(roads_data, parcel);
    append_entities(&mut entities, &mut borders);

    let mut name = String::from_str("Road ");
    let x = i16_to_string(parcel.0);
    name.append(x.as_str());
    name.append(" - ");
    let y = i16_to_string(parcel.1);
    name.append(y.as_str());
    let level_name = name.clone();

    let mut path: Vec<String> = Vec::new();
    path.push(String::from_str(".."));
    path.push(String::from_str("assets"));
    path.push(String::from_str("roads"));

    let mut parcels: Vec<Parcel> = Vec::new();
    parcels.push(*parcel);
    proof {
        assert(path@.map_values(|c: String| c@) =~= seq![".."@, "assets"@, "roads"@]);
        assert(seq![plain_background()] =~= Seq::<EntityView>::empty().push(plain_background()));
    }
    SceneData { name, level_name, entities, parcels, path }
}

} // verus!
