use vstd::prelude::*;
use vstd::string::*;
use crate::parcel::Parcel;
use crate::roads::{RoadsData, is_road};
use crate::entity::{Anchor, BoxColliderSpec, CollisionType, EntitySpec, EntityView, views, make_entity, lemma_views_push, append_entities};
use crate::text::{int_decimal, i16_to_string};

verus! {

broadcast use vstd::seq_lib::group_seq_properties;

/// Width of a parcel in world units.
pub const PARCEL_SIZE_X: i32 = 500;
/// Height of a parcel in world units.
pub const PARCEL_SIZE_Y: i32 = 500;
/// Width of a road tile.
pub const TILE_SIZE_X: i32 = 64;
/// Height of a road tile.
pub const TILE_SIZE_Y: i32 = 64;
/// The most tiles a side of a boulevard can have: the offset of the
/// last one, `(MAX_BOULEVARD_SIDE - 1) * 2 * TILE_SIZE_X`, is the largest
/// that fits an `i32`.
pub const MAX_BOULEVARD_SIDE: usize = 0x100_0000;
/// Tiles on the short side of a boulevard.
pub const BOULEVARD_SMALL_SIDE_SIZE: usize = 1;
/// Tiles on the long side of a boulevard.
pub const BOULEVARD_LONG_SIDE_SIZE: usize = 3;
/// Boulevards stand every this many parcels.
pub const BOULEVARD_SPACING: i16 = 4;
/// Height of the street lamp above the parcel center: the parcel
/// height divided by 2.25, truncated.
pub const LAMP_LOCATION_Y: i32 = 222;

/// A side of a parcel.
#[derive(Debug, Clone, Copy, PartialEq, Eq, Structural)]
pub enum Border {
    Left,
    Right,
    Top,
    Bottom,
}

/// How the sidewalk turns at a corner of a road parcel.
#[derive(Debug, Clone, Copy, PartialEq, Eq, Structural)]
pub enum CornerType {
    Empty,
    Closed,
    Open,
    Vertical,
    Horizontal,
}

/// A corner of a parcel.
#[derive(Debug, Clone, Copy, PartialEq, Eq, Structural)]
pub enum CornerPosition {
    TopLeft,
    TopRight,
    BottomLeft,
    BottomRight,
}

/// The corner of a parcel that a boulevard grows from.
#[derive(Debug, Clone, Copy, PartialEq, Eq, Structural)]
pub enum BoulevardType {
    TopLeft,
    TopRight,
    BottomLeft,
    BottomRight,
}

/// The parcel at offset (`dx`, `dy`) from `p`.
pub open spec fn offset(p: Parcel, dx: int, dy: int) -> Parcel {
    Parcel((p.0 + dx) as i16, (p.1 + dy) as i16)
}

/// Whether a coordinate fits in an `i16`.
pub open spec fn fits_i16(v: int) -> bool {
    i16::MIN <= v <= i16::MAX
}

/// The parcel's four neighbours, left, right, below and above, have
/// coordinates that fit in an `i16`.
pub open spec fn neighbours_fit(p: Parcel) -> bool {
    fits_i16(p.0 - 1) && fits_i16(p.0 + 1) && fits_i16(p.1 - 1) && fits_i16(p.1 + 1)
}

/// The three neighbours looked at for a corner have coordinates that
/// fit in an `i16`.
pub open spec fn corner_fits(p: Parcel, position: CornerPosition) -> bool {
    fits_i16(p.0 + corner_dx(position)) && fits_i16(p.1 + corner_dy(position))
}

/// Horizontal and vertical direction of a boulevard's corner.
pub open spec fn boulevard_dx(boulevard_type: BoulevardType) -> int {
    match boulevard_type {
        BoulevardType::TopLeft | BoulevardType::BottomLeft => -1,
        _ => 1,
    }
}

pub open spec fn boulevard_dy(boulevard_type: BoulevardType) -> int {
    match boulevard_type {
        BoulevardType::TopLeft | BoulevardType::TopRight => 1,
        _ => -1,
    }
}

/// Whether the parcel lies on the lines where a boulevard of this corner
/// may grow, then whether it may grow long horizontally, and vertically.
pub open spec fn boulevard_lines(p: Parcel, boulevard_type: BoulevardType) -> (bool, bool, bool) {
    let x_line_1 = p.0 as int % 4 == 1;
    let x_line_0 = p.0 as int % 4 == 0;
    let y_line_1 = p.1 as int % 4 == 1;
    let y_line_0 = p.1 as int % 4 == 0;
    match boulevard_type {
        BoulevardType::TopLeft => (x_line_1 || y_line_0, x_line_1, y_line_0),
        BoulevardType::TopRight => (x_line_0 || y_line_0, x_line_0, y_line_0),
        BoulevardType::BottomLeft => (x_line_1 || y_line_1, x_line_1, y_line_1),
        BoulevardType::BottomRight => (x_line_0 || y_line_1, x_line_0, y_line_1),
    }
}

/// Every neighbour that is looked at, in order, to decide the boulevard
/// of a corner has coordinates that fit in an `i16`. The horizontal
/// neighbour is looked at on the boulevard lines; the vertical one once
/// the horizontal one is a road; those two parcels further out once the
/// corner is all road and the boulevard may grow long that way.
pub open spec fn boulevard_fits(roads: RoadsData, p: Parcel, boulevard_type: BoulevardType) -> bool {
    let dx = boulevard_dx(boulevard_type);
    let dy = boulevard_dy(boulevard_type);
    let (on_line, x_long, y_long) = boulevard_lines(p, boulevard_type);
    let corner = road_at(roads, p, dx, 0) && road_at(roads, p, 0, dy) && road_at(roads, p, dx, dy);
    &&& on_line ==> fits_i16(p.0 + dx)
    &&& on_line && road_at(roads, p, dx, 0) ==> fits_i16(p.1 + dy)
    &&& on_line && corner && x_long ==> fits_i16(p.0 + 2 * dx)
    &&& on_line && corner && y_long ==> fits_i16(p.1 + 2 * dy)
}

/// The boulevards of every corner can be decided with `i16` parcels.
pub open spec fn boulevards_fit(roads: RoadsData, p: Parcel) -> bool {
    &&& boulevard_fits(roads, p, BoulevardType::TopLeft)
    &&& boulevard_fits(roads, p, BoulevardType::TopRight)
    &&& boulevard_fits(roads, p, BoulevardType::BottomLeft)
    &&& boulevard_fits(roads, p, BoulevardType::BottomRight)
}

/// Every parcel looked at to build the road scene of `p` has coordinates
/// that fit in an `i16`.
pub open spec fn road_scene_fits(roads: RoadsData, p: Parcel) -> bool {
    neighbours_fit(p) && boulevards_fit(roads, p)
}

/// Whether the parcel at offset (`dx`, `dy`) holds a road.
pub open spec fn road_at(roads: RoadsData, p: Parcel, dx: int, dy: int) -> bool {
    roads.has(offset(p, dx, dy))
}

/// Entities laid out on a grid of `nx` columns of `ny` tiles, column by
/// column.
pub open spec fn grid(nx: int, ny: int, f: spec_fn(int, int) -> EntityView) -> Seq<EntityView>
    decreases nx,
{
    if nx <= 0 {
        Seq::empty()
    } else {
        grid(nx - 1, ny, f) + Seq::new(ny as nat, |y: int| f(nx - 1, y))
    }
}

/// The entity of an optional entity, as a sequence.
pub open spec fn opt_seq(e: Option<EntityView>) -> Seq<EntityView> {
    match e {
        Some(v) => seq![v],
        None => Seq::empty(),
    }
}

pub open spec fn entity_view(
    name: Seq<char>,
    sprite: Seq<char>,
    layer: int,
    anchor: Anchor,
    x: int,
    y: int,
    collider: Option<BoxColliderSpec>,
) -> EntityView {
    EntityView { name, sprite, layer, anchor, x, y, collider }
}

// ---------------------------------------------------------------- corners

/// The corner type that the roads beside and across a corner give.
pub open spec fn corner_type_of(x_neighbor_is_road: bool, y_neighbor_is_road: bool, diagonal_is_road: bool) -> CornerType {
    if !x_neighbor_is_road && !y_neighbor_is_road {
        CornerType::Closed
    } else if x_neighbor_is_road && y_neighbor_is_road && !diagonal_is_road {
        CornerType::Open
    } else if x_neighbor_is_road && !y_neighbor_is_road {
        CornerType::Horizontal
    } else if !x_neighbor_is_road && y_neighbor_is_road {
        CornerType::Vertical
    } else {
        CornerType::Empty
    }
}

/// Horizontal and vertical direction of a corner.
pub open spec fn corner_dx(position: CornerPosition) -> int {
    match position {
        CornerPosition::TopLeft | CornerPosition::BottomLeft => -1,
        _ => 1,
    }
}

pub open spec fn corner_dy(position: CornerPosition) -> int {
    match position {
        CornerPosition::TopLeft | CornerPosition::TopRight => 1,
        _ => -1,
    }
}

/// The corner type of a corner of a road parcel.
pub open spec fn spec_corner_type(roads: RoadsData, p: Parcel, position: CornerPosition) -> CornerType {
    let dx = corner_dx(position);
    let dy = corner_dy(position);
    corner_type_of(road_at(roads, p, dx, 0), road_at(roads, p, 0, dy), road_at(roads, p, dx, dy))
}

/// The sprite drawn at a corner, if any.
pub open spec fn corner_sprite(corner_type: CornerType, position: CornerPosition) -> Option<Seq<char>> {
    match (position, corner_type) {
        (_, CornerType::Empty) => None,
        (CornerPosition::TopLeft, CornerType::Closed) => Some("road-closed-top-left.png"@),
        (CornerPosition::TopLeft, CornerType::Open) => Some("road-open-top-left.png"@),
        (CornerPosition::TopLeft, CornerType::Vertical) => Some("road-left.png"@),
        (CornerPosition::TopLeft, CornerType::Horizontal) => Some("road-top.png"@),
        (CornerPosition::TopRight, CornerType::Closed) => Some("road-closed-top-right.png"@),
        (CornerPosition::TopRight, CornerType::Open) => Some("road-open-top-right.png"@),
        (CornerPosition::TopRight, CornerType::Vertical) => Some("road-right.png"@),
        (CornerPosition::TopRight, CornerType::Horizontal) => Some("road-top.png"@),
        (CornerPosition::BottomRight, CornerType::Closed) => Some("road-closed-bottom-right.png"@),
        (CornerPosition::BottomRight, CornerType::Open) => Some("road-open-bottom-right.png"@),
        (CornerPosition::BottomRight, CornerType::Vertical) => Some("road-right.png"@),
        (CornerPosition::BottomRight, CornerType::Horizontal) => Some("road-bottom.png"@),
        (CornerPosition::BottomLeft, CornerType::Closed) => Some("road-closed-bottom-left.png"@),
        (CornerPosition::BottomLeft, CornerType::Open) => Some("road-open-bottom-left.png"@),
        (CornerPosition::BottomLeft, CornerType::Vertical) => Some("road-left.png"@),
        (CornerPosition::BottomLeft, CornerType::Horizontal) => Some("road-bottom.png"@),
    }
}

/// The anchor of the corner sprite.
pub open spec fn corner_anchor(position: CornerPosition) -> Anchor {
    match position {
        CornerPosition::TopLeft => Anchor::TopLeft,
        CornerPosition::TopRight => Anchor::TopRight,
        CornerPosition::BottomLeft => Anchor::BottomLeft,
        CornerPosition::BottomRight => Anchor::BottomRight,
    }
}

/// The corner entity, placed on the parcel's corner, above the road.
pub open spec fn corner_entity(corner_type: CornerType, position: CornerPosition) -> Option<EntityView> {
    match corner_sprite(corner_type, position) {
        Some(sprite) => Some(entity_view(
            "Corner"@,
            sprite,
            -1,
            corner_anchor(position),
            corner_dx(position) * ((PARCEL_SIZE_X as int) / 2),
            corner_dy(position) * ((PARCEL_SIZE_Y as int) / 2),
            None,
        )),
        None => None,
    }
}

/// The corner entities of a road parcel: top left, top right, bottom
/// left, bottom right.
pub open spec fn road_corner_entities(roads: RoadsData, p: Parcel) -> Seq<EntityView> {
    opt_seq(corner_entity(spec_corner_type(roads, p, CornerPosition::TopLeft), CornerPosition::TopLeft))
        + opt_seq(corner_entity(spec_corner_type(roads, p, CornerPosition::TopRight), CornerPosition::TopRight))
        + opt_seq(corner_entity(spec_corner_type(roads, p, CornerPosition::BottomLeft), CornerPosition::BottomLeft))
        + opt_seq(corner_entity(spec_corner_type(roads, p, CornerPosition::BottomRight), CornerPosition::BottomRight))
}

/// The kind of corner that the neighbouring roads give.
pub fn get_corner_type(roads_data: &RoadsData, parcel: &Parcel, position: CornerPosition) -> (corner_type: CornerType)
    requires
        corner_fits(*parcel, position),
    ensures
        corner_type == spec_corner_type(*roads_data, *parcel, position),
{
    let x_neighbor_is_road;
    let y_neighbor_is_road;
    let diagonal_is_road;

    match position {
        CornerPosition::TopLeft => {
            x_neighbor_is_road = is_road(&Parcel(parcel.0 - 1, parcel.1), roads_data);
            y_neighbor_is_road = is_road(&Parcel(parcel.0, parcel.1 + 1), roads_data);
            diagonal_is_road = is_road(&Parcel(parcel.0 - 1, parcel.1 + 1), roads_data);
        },
        CornerPosition::TopRight => {
            x_neighbor_is_road = is_road(&Parcel(parcel.0 + 1, parcel.1), roads_data);
            y_neighbor_is_road = is_road(&Parcel(parcel.0, parcel.1 + 1), roads_data);
            diagonal_is_road = is_road(&Parcel(parcel.0 + 1, parcel.1 + 1), roads_data);
        },
        CornerPosition::BottomLeft => {
            x_neighbor_is_road = is_road(&Parcel(parcel.0 - 1, parcel.1), roads_data);
            y_neighbor_is_road = is_road(&Parcel(parcel.0, parcel.1 - 1), roads_data);
            diagonal_is_road = is_road(&Parcel(parcel.0 - 1, parcel.1 - 1), roads_data);
        },
        CornerPosition::BottomRight => {
            x_neighbor_is_road = is_road(&Parcel(parcel.0 + 1, parcel.1), roads_data);
            y_neighbor_is_road = is_road(&Parcel(parcel.0, parcel.1 - 1), roads_data);
            diagonal_is_road = is_road(&Parcel(parcel.0 + 1, parcel.1 - 1), roads_data);
        },
    }

    let mut corner_type = CornerType::Empty;
    if !x_neighbor_is_road && !y_neighbor_is_road {
        corner_type = CornerType::Closed;
    } else if x_neighbor_is_road && y_neighbor_is_road && !diagonal_is_road {
        corner_type = CornerType::Open;
    } else if x_neighbor_is_road && !y_neighbor_is_road {
        corner_type = CornerType::Horizontal;
    } else if !x_neighbor_is_road && y_neighbor_is_road {
        corner_type = CornerType::Vertical;
    }
    corner_type
}

/// The sidewalk piece drawn at a corner, if the corner type draws one.
pub fn make_corner_entity(corner_type: &CornerType, position: &CornerPosition) -> (e: Option<EntitySpec>)
    ensures
        match e {
            Some(e) => corner_entity(*corner_type, *position) == Some(e@),
            None => corner_entity(*corner_type, *position) is None,
        },
{
    let sprite: &str = match position {
        CornerPosition::TopLeft => match corner_type {
            CornerType::Empty => return None,
            CornerType::Closed => "road-closed-top-left.png",
            CornerType::Open => "road-open-top-left.png",
            CornerType::Vertical => "road-left.png",
            CornerType::Horizontal => "road-top.png",
        },
        CornerPosition::TopRight => match corner_type {
            CornerType::Empty => return None,
            CornerType::Closed => "road-closed-top-right.png",
            CornerType::Open => "road-open-top-right.png",
            CornerType::Vertical => "road-right.png",
            CornerType::Horizontal => "road-top.png",
        },
        CornerPosition::BottomRight => match corner_type {
            CornerType::Empty => return None,
            CornerType::Closed => "road-closed-bottom-right.png",
            CornerType::Open => "road-open-bottom-right.png",
            CornerType::Vertical => "road-right.png",
            CornerType::Horizontal => "road-bottom.png",
        },
        CornerPosition::BottomLeft => match corner_type {
            CornerType::Empty => return None,
            CornerType::Closed => "road-closed-bottom-left.png",
            CornerType::Open => "road-open-bottom-left.png",
            CornerType::Vertical => "road-left.png",
            CornerType::Horizontal => "road-bottom.png",
        },
    };

    let (x, y) = match position {
        CornerPosition::TopLeft => (PARCEL_SIZE_X / -2, PARCEL_SIZE_Y / 2),
        CornerPosition::TopRight => (PARCEL_SIZE_X / 2, PARCEL_SIZE_Y / 2),
        CornerPosition::BottomRight => (PARCEL_SIZE_X / 2, PARCEL_SIZE_Y / -2),
        CornerPosition::BottomLeft => (PARCEL_SIZE_X / -2, PARCEL_SIZE_Y / -2),
    };

    let anchor = match position {
        CornerPosition::TopLeft => Anchor::TopLeft,
        CornerPosition::TopRight => Anchor::TopRight,
        CornerPosition::BottomLeft => Anchor::BottomLeft,
        CornerPosition::BottomRight => Anchor::BottomRight,
    };

    Some(make_entity("Corner", sprite, -1, anchor, x, y, None))
}

/// The kind of a corner follows from the three neighbours around it:
/// closed when neither the side nor the edge neighbour is a road;
/// vertical when only the edge neighbour (above or below) is, so the
/// side sidewalk runs on; horizontal when only the side neighbour is;
/// open when both are but the diagonal is not; no corner at all when the
/// three are roads.
pub proof fn lemma_corner_type_from_neighbours(roads: RoadsData, p: Parcel, position: CornerPosition)
    ensures
        ({
            let side = road_at(roads, p, corner_dx(position), 0);
            let edge = road_at(roads, p, 0, corner_dy(position));
            let diagonal = road_at(roads, p, corner_dx(position), corner_dy(position));
            let t = spec_corner_type(roads, p, position);
            &&& (t == CornerType::Closed) == (!side && !edge)
            &&& (t == CornerType::Vertical) == (!side && edge)
            &&& (t == CornerType::Horizontal) == (side && !edge)
            &&& (t == CornerType::Open) == (side && edge && !diagonal)
            &&& (t == CornerType::Empty) == (side && edge && diagonal)
        }),
{
}

/// The side of the parcel a corner lies on, left or right.
pub open spec fn corner_side(position: CornerPosition) -> Border {
    match position {
        CornerPosition::TopLeft | CornerPosition::BottomLeft => Border::Left,
        CornerPosition::TopRight | CornerPosition::BottomRight => Border::Right,
    }
}

/// The edge of the parcel a corner lies on, top or bottom.
pub open spec fn corner_edge(position: CornerPosition) -> Border {
    match position {
        CornerPosition::TopLeft | CornerPosition::TopRight => Border::Top,
        CornerPosition::BottomLeft | CornerPosition::BottomRight => Border::Bottom,
    }
}

/// A corner where the sidewalk runs straight on continues the sidewalk
/// of its side: a vertical corner looks like the sidewalk of its side
/// (left or right), a horizontal one like that of its edge (top or
/// bottom). Every corner piece lies where the sidewalks of its side and
/// of its edge meet, and is drawn over them.
pub proof fn lemma_corners_continue_the_sidewalks(corner_type: CornerType, position: CornerPosition)
    ensures
        corner_entity(CornerType::Vertical, position) matches Some(e)
            && e.sprite == border_sprite(corner_side(position)),
        corner_entity(CornerType::Horizontal, position) matches Some(e)
            && e.sprite == border_sprite(corner_edge(position)),
        corner_entity(corner_type, position) matches Some(e) ==> {
            &&& e.x == sidewalk_tile(corner_side(position), 0).x
            &&& e.y == sidewalk_tile(corner_edge(position), 0).y
            &&& e.layer > sidewalk_tile(corner_side(position), 0).layer
        },
        corner_entity(corner_type, position) is None <==> corner_type == CornerType::Empty,
{
}

/// The corner pieces of a road parcel.
pub fn make_corners(roads_data: &RoadsData, parcel: &Parcel) -> (entities: Vec<EntitySpec>)
    requires
        neighbours_fit(*parcel),
    ensures
        views(entities@) == road_corner_entities(*roads_data, *parcel),
{
    let mut corner_entities: Vec<EntitySpec> = Vec::new();

    let top_left_corner = get_corner_type(roads_data, parcel, CornerPosition::TopLeft);
    if let Some(v) = make_corner_entity(&top_left_corner, &CornerPosition::TopLeft) {
        proof { lemma_views_push(corner_entities@, v); }
        corner_entities.push(v);
    }
    let ghost s1 = views(corner_entities@);

    let top_right_corner = get_corner_type(roads_data, parcel, CornerPosition::TopRight);
    if let Some(v) = make_corner_entity(&top_right_corner, &CornerPosition::TopRight) {
        proof { lemma_views_push(corner_entities@, v); }
        corner_entities.push(v);
    }
    let ghost s2 = views(corner_entities@);

    let bottom_left_corner = get_corner_type(roads_data, parcel, CornerPosition::BottomLeft);
    if let Some(v) = make_corner_entity(&bottom_left_corner, &CornerPosition::BottomLeft) {
        proof { lemma_views_push(corner_entities@, v); }
        corner_entities.push(v);
    }
    let ghost s3 = views(corner_entities@);

    let bottom_right_corner = get_corner_type(roads_data, parcel, CornerPosition::BottomRight);
    if let Some(v) = make_corner_entity(&bottom_right_corner, &CornerPosition::BottomRight) {
        proof { lemma_views_push(corner_entities@, v); }
        corner_entities.push(v);
    }
    proof {
        let t1 = opt_seq(corner_entity(top_left_corner, CornerPosition::TopLeft));
        let t2 = opt_seq(corner_entity(top_right_corner, CornerPosition::TopRight));
        let t3 = opt_seq(corner_entity(bottom_left_corner, CornerPosition::BottomLeft));
        let t4 = opt_seq(corner_entity(bottom_right_corner, CornerPosition::BottomRight));
        assert(s1 =~= t1);
        assert(s2 =~= t1 + t2);
        assert(s3 =~= t1 + t2 + t3);
        assert(views(corner_entities@) =~= t1 + t2 + t3 + t4);
    }
    corner_entities
}

// --------------------------------------------------------------- sidewalks

/// Tiles along a side of a parcel.
pub open spec fn border_tile_count(border: Border) -> int {
    match border {
        Border::Left | Border::Right => (PARCEL_SIZE_Y as int) / (TILE_SIZE_Y * 2),
        Border::Top | Border::Bottom => (PARCEL_SIZE_X as int) / (TILE_SIZE_X * 2),
    }
}

pub open spec fn border_sprite(border: Border) -> Seq<char> {
    match border {
        Border::Left => "road-left.png"@,
        Border::Right => "road-right.png"@,
        Border::Top => "road-top.png"@,
        Border::Bottom => "road-bottom.png"@,
    }
}

pub open spec fn border_anchor(border: Border) -> Anchor {
    match border {
        Border::Left => Anchor::BottomLeft,
        Border::Right => Anchor::BottomRight,
        Border::Top => Anchor::TopLeft,
        Border::Bottom => Anchor::BottomLeft,
    }
}

/// The `i`-th sidewalk tile along a side of the parcel.
pub open spec fn sidewalk_tile(border: Border, i: int) -> EntityView {
    let x = match border {
        Border::Left => (PARCEL_SIZE_X as int) / -2,
        Border::Right => (PARCEL_SIZE_X as int) / 2,
        Border::Top | Border::Bottom => TILE_SIZE_X * 2 * i - (PARCEL_SIZE_X as int) / 2,
    };
    let y = match border {
        Border::Left | Border::Right => TILE_SIZE_Y * 2 * i - (PARCEL_SIZE_Y as int) / 2,
        Border::Top => (PARCEL_SIZE_Y as int) / 2,
        Border::Bottom => (PARCEL_SIZE_Y as int) / -2,
    };
    entity_view("Sidewalk"@, border_sprite(border), -2, border_anchor(border), x, y, None)
}

/// The sidewalk along one side: every tile but the two at the corners.
pub open spec fn sidewalk_border(border: Border) -> Seq<EntityView> {
    Seq::new((border_tile_count(border) - 2) as nat, |k: int| sidewalk_tile(border, k + 1))
}

/// The sidewalks of a road parcel: one along each side that does not
/// continue into a road (left, right, bottom, top).
pub open spec fn road_sidewalk_entities(roads: RoadsData, p: Parcel) -> Seq<EntityView> {
    (if !road_at(roads, p, -1, 0) { sidewalk_border(Border::Left) } else { Seq::empty() })
        + (if !road_at(roads, p, 1, 0) { sidewalk_border(Border::Right) } else { Seq::empty() })
        + (if !road_at(roads, p, 0, -1) { sidewalk_border(Border::Bottom) } else { Seq::empty() })
        + (if !road_at(roads, p, 0, 1) { sidewalk_border(Border::Top) } else { Seq::empty() })
}

/// The sidewalk tiles along one side of a parcel.
pub fn make_sidewalk_entity(border: &Border) -> (entities: Vec<EntitySpec>)
    ensures
        views(entities@) == sidewalk_border(*border),
{
    let mut entities: Vec<EntitySpec> = Vec::new();
    let total_tiles: i32 = match border {
        Border::Left => PARCEL_SIZE_Y / (TILE_SIZE_Y * 2),
        Border::Right => PARCEL_SIZE_Y / (TILE_SIZE_Y * 2),
        Border::Top => PARCEL_SIZE_X / (TILE_SIZE_X * 2),
        Border::Bottom => PARCEL_SIZE_X / (TILE_SIZE_X * 2),
    };
    assert(total_tiles == border_tile_count(*border));
    let mut i: i32 = 1;
    while i < total_tiles - 1
        invariant
            1 <= i <= total_tiles - 1,
            total_tiles == border_tile_count(*border),
            total_tiles == 3,
            views(entities@) == Seq::new((i - 1) as nat, |k: int| sidewalk_tile(*border, k + 1)),
        decreases total_tiles - i,
    {
        assert(TILE_SIZE_X * 2 * i == 128 * i && TILE_SIZE_Y * 2 * i == 128 * i);
        let location_x = match border {
            Border::Left => PARCEL_SIZE_X / -2,
            Border::Right => PARCEL_SIZE_X / 2,
            Border::Top => TILE_SIZE_X * 2 * i - PARCEL_SIZE_X / 2,
            Border::Bottom => TILE_SIZE_X * 2 * i - PARCEL_SIZE_X / 2,
        };
        let location_y = match border {
            Border::Left => TILE_SIZE_Y * 2 * i - PARCEL_SIZE_Y / 2,
            Border::Right => TILE_SIZE_Y * 2 * i - PARCEL_SIZE_Y / 2,
            Border::Top => PARCEL_SIZE_Y / 2,
            Border::Bottom => PARCEL_SIZE_Y / -2,
        };
        let sprite: &str = match border {
            Border::Left => "road-left.png",
            Border::Right => "road-right.png",
            Border::Top => "road-top.png",
            Border::Bottom => "road-bottom.png",
        };
        let anchor = match border {
            Border::Left => Anchor::BottomLeft,
            Border::Right => Anchor::BottomRight,
            Border::Top => Anchor::TopLeft,
            Border::Bottom => Anchor::BottomLeft,
        };
        let entity = make_entity("Sidewalk", sprite, -2, anchor, location_x, location_y, None);
        proof {
            lemma_views_push(entities@, entity);
            assert(entity@ == sidewalk_tile(*border, i as int));
            assert(Seq::new(i as nat, |k: int| sidewalk_tile(*border, k + 1))
                =~= Seq::new((i - 1) as nat, |k: int| sidewalk_tile(*border, k + 1)).push(sidewalk_tile(*border, i as int)));
        }
        entities.push(entity);
        i = i + 1;
    }
    entities
}

/// The sidewalks of a road parcel, along each side that has no road
/// beyond it.
pub fn make_sidewalk_entities(roads_data: &RoadsData, parcel: &Parcel) -> (entities: Vec<EntitySpec>)
    requires
        neighbours_fit(*parcel),
    ensures
        views(entities@) == road_sidewalk_entities(*roads_data, *parcel),
{
    let mut border: Vec<EntitySpec> = Vec::new();
    let ghost e = Seq::<EntityView>::empty();
    if !is_road(&Parcel(parcel.0 - 1, parcel.1), roads_data) {
        let mut side = make_sidewalk_entity(&Border::Left);
        append_entities(&mut border, &mut side);
    }
    let ghost s1 = views(border@);
    if !is_road(&Parcel(parcel.0 + 1, parcel.1), roads_data) {
        let mut side = make_sidewalk_entity(&Border::Right);
        append_entities(&mut border, &mut side);
    }
    let ghost s2 = views(border@);
    if !is_road(&Parcel(parcel.0, parcel.1 - 1), roads_data) {
        let mut side = make_sidewalk_entity(&Border::Bottom);
        append_entities(&mut border, &mut side);
    }
    let ghost s3 = views(border@);
    if !is_road(&Parcel(parcel.0, parcel.1 + 1), roads_data) {
        let mut side = make_sidewalk_entity(&Border::Top);
        append_entities(&mut border, &mut side);
    }
    proof {
        let p = *parcel;
        let t1 = if !road_at(*roads_data, p, -1, 0) { sidewalk_border(Border::Left) } else { e };
        let t2 = if !road_at(*roads_data, p, 1, 0) { sidewalk_border(Border::Right) } else { e };
        let t3 = if !road_at(*roads_data, p, 0, -1) { sidewalk_border(Border::Bottom) } else { e };
        let t4 = if !road_at(*roads_data, p, 0, 1) { sidewalk_border(Border::Top) } else { e };
        assert(s1 =~= t1);
        assert(s2 =~= t1 + t2);
        assert(s3 =~= t1 + t2 + t3);
        assert(views(border@) =~= t1 + t2 + t3 + t4);
    }
    border
}

// ------------------------------------------------------------ background

/// One road background tile per cell of four by four road tiles.
pub open spec fn road_background_tile() -> spec_fn(int, int) -> EntityView {
    |x: int, y: int| entity_view(
        "Background"@,
        "road-background.png"@,
        -3,
        Anchor::BottomLeft,
        TILE_SIZE_X * x * 4 - (PARCEL_SIZE_X as int) / 2,
        TILE_SIZE_Y * y * 4 - (PARCEL_SIZE_Y as int) / 2,
        None,
    )
}

/// The road background of a parcel.
pub open spec fn road_background_entities() -> Seq<EntityView> {
    grid((PARCEL_SIZE_X as int) / (TILE_SIZE_X * 4), (PARCEL_SIZE_Y as int) / (TILE_SIZE_Y * 4), road_background_tile())
}

/// The asphalt under a road parcel.
pub fn make_road_background_entities() -> (entities: Vec<EntitySpec>)
    ensures
        views(entities@) == road_background_entities(),
{
    let mut entities: Vec<EntitySpec> = Vec::new();
    let total_tiles_x: i32 = PARCEL_SIZE_X / (TILE_SIZE_X * 4);
    let total_tiles_y: i32 = PARCEL_SIZE_Y / (TILE_SIZE_Y * 4);
    let ghost f = road_background_tile();
    let mut x: i32 = 0;
    while x < total_tiles_x
        invariant
            0 <= x <= total_tiles_x,
            total_tiles_x == 1,
            total_tiles_y == 1,
            f == road_background_tile(),
            views(entities@) == grid(x as int, total_tiles_y as int, f),
        decreases total_tiles_x - x,
    {
        let ghost before = views(entities@);
        let mut y: i32 = 0;
        while y < total_tiles_y
            invariant
                0 <= x < total_tiles_x,
                0 <= y <= total_tiles_y,
                total_tiles_x == 1,
                total_tiles_y == 1,
                f == road_background_tile(),
                views(entities@) == before + Seq::new(y as nat, |j: int| f(x as int, j)),
            decreases total_tiles_y - y,
        {
            let location_x = TILE_SIZE_X * x * 4 - PARCEL_SIZE_X / 2;
            let location_y = TILE_SIZE_Y * y * 4 - PARCEL_SIZE_Y / 2;
            let entity = make_entity("Background", "road-background.png", -3, Anchor::BottomLeft, location_x, location_y, None);
            proof {
                lemma_views_push(entities@, entity);
                assert(Seq::new((y + 1) as nat, |j: int| f(x as int, j))
                    =~= Seq::new(y as nat, |j: int| f(x as int, j)).push(f(x as int, y as int)));
            }
            entities.push(entity);
            y = y + 1;
        }
        proof {
            assert(grid(x + 1, total_tiles_y as int, f) == grid(x as int, total_tiles_y as int, f) + Seq::new(total_tiles_y as nat, |j: int| f(x as int, j)));
        }
        x = x + 1;
    }
    entities
}

// ------------------------------------------------------------ boulevards

/// Number of tiles of a boulevard along each axis.
#[derive(Debug, Clone, Copy, PartialEq, Eq, Structural)]
pub struct GridSize {
    pub x: usize,
    pub y: usize,
}

/// The size of the boulevard that grows from a corner of a road parcel,
/// if one does: the three parcels around the corner must hold roads,
/// the parcel must stand on a boulevard line, and one side must be able
/// to stretch over two more road parcels.
pub open spec fn boulevard_size(roads: RoadsData, p: Parcel, boulevard_type: BoulevardType) -> Option<(int, int)> {
    let x = p.0 as int;
    let y = p.1 as int;
    let x_line_1 = x % 4 == 1;
    let x_line_0 = x % 4 == 0;
    let y_line_1 = y % 4 == 1;
    let y_line_0 = y % 4 == 0;
    let (on_line, corner, x_long, y_long) = match boulevard_type {
        BoulevardType::TopLeft => (
            x_line_1 || y_line_0,
            road_at(roads, p, -1, 0) && road_at(roads, p, 0, 1) && road_at(roads, p, -1, 1),
            x_line_1 && road_at(roads, p, -2, 0) && road_at(roads, p, -2, 1),
            y_line_0 && road_at(roads, p, 0, 2) && road_at(roads, p, -1, 2),
        ),
        BoulevardType::TopRight => (
            x_line_0 || y_line_0,
            road_at(roads, p, 1, 0) && road_at(roads, p, 0, 1) && road_at(roads, p, 1, 1),
            x_line_0 && road_at(roads, p, 2, 0) && road_at(roads, p, 2, 1),
            y_line_0 && road_at(roads, p, 0, 2) && road_at(roads, p, 1, 2),
        ),
        BoulevardType::BottomLeft => (
            x_line_1 || y_line_1,
            road_at(roads, p, -1, 0) && road_at(roads, p, 0, -1) && road_at(roads, p, -1, -1),
            x_line_1 && road_at(roads, p, -2, 0) && road_at(roads, p, -2, -1),
            y_line_1 && road_at(roads, p, 0, -2) && road_at(roads, p, -1, -2),
        ),
        BoulevardType::BottomRight => (
            x_line_0 || y_line_1,
            road_at(roads, p, 1, 0) && road_at(roads, p, 0, -1) && road_at(roads, p, 1, -1),
            x_line_0 && road_at(roads, p, 2, 0) && road_at(roads, p, 2, -1),
            y_line_1 && road_at(roads, p, 0, -2) && road_at(roads, p, 1, -2),
        ),
    };
    if on_line && corner && (x_long || y_long) {
        Some((if x_long { 3int } else { 1int }, if y_long { 3int } else { 1int }))
    } else {
        None
    }
}

/// Sprite of a boulevard tile: the edge pieces on the far row and
/// column, the plain background elsewhere.
pub open spec fn boulevard_tile_sprite(boulevard_type: BoulevardType, x: int, y: int, sx: int, sy: int) -> Seq<char> {
    let last_x = x == sx - 1;
    let last_y = y == sy - 1;
    match boulevard_type {
        BoulevardType::TopLeft => if last_x && last_y { "boulevard-bottom-right.png"@ } else if last_x { "boulevard-right.png"@ }
            else if last_y { "boulevard-bottom.png"@ } else { "boulevard-background.png"@ },
        BoulevardType::TopRight => if last_x && last_y { "boulevard-bottom-left.png"@ } else if last_x { "boulevard-left.png"@ }
            else if last_y { "boulevard-bottom.png"@ } else { "boulevard-background.png"@ },
        BoulevardType::BottomLeft => if last_x && last_y { "boulevard-top-right.png"@ } else if last_x { "boulevard-right.png"@ }
            else if last_y { "boulevard-top.png"@ } else { "boulevard-background.png"@ },
        BoulevardType::BottomRight => if last_x && last_y { "boulevard-top-left.png"@ } else if last_x { "boulevard-left.png"@ }
            else if last_y { "boulevard-top.png"@ } else { "boulevard-background.png"@ },
    }
}

pub open spec fn boulevard_anchor(boulevard_type: BoulevardType) -> Anchor {
    match boulevard_type {
        BoulevardType::TopLeft => Anchor::TopLeft,
        BoulevardType::TopRight => Anchor::TopRight,
        BoulevardType::BottomLeft => Anchor::BottomLeft,
        BoulevardType::BottomRight => Anchor::BottomRight,
    }
}

/// The tiles of a boulevard, two road tiles wide each, from the corner
/// of the parcel inwards.
pub open spec fn boulevard_tile(boulevard_type: BoulevardType, sx: int, sy: int) -> spec_fn(int, int) -> EntityView {
    |x: int, y: int| entity_view(
        "Boulevard"@,
        boulevard_tile_sprite(boulevard_type, x, y, sx, sy),
        -2,
        boulevard_anchor(boulevard_type),
        match boulevard_type {
            BoulevardType::TopLeft | BoulevardType::BottomLeft => (PARCEL_SIZE_X as int) / -2 + x * (TILE_SIZE_X as int) * 2,
            _ => (PARCEL_SIZE_X as int) / 2 - x * (TILE_SIZE_X as int) * 2,
        },
        match boulevard_type {
            BoulevardType::TopLeft | BoulevardType::TopRight => (PARCEL_SIZE_Y as int) / 2 - y * (TILE_SIZE_Y as int) * 2,
            _ => (PARCEL_SIZE_Y as int) / -2 + y * (TILE_SIZE_Y as int) * 2,
        },
        None,
    )
}

/// The bench of a boulevard, lying along its long side.
pub open spec fn bench(x: int, y: int, horizontal: bool) -> EntityView {
    entity_view(
        "Bench"@,
        if horizontal { "Bench_H.png"@ } else { "Bench_V.png"@ },
        0,
        Anchor::Center,
        x,
        y,
        Some(if horizontal {
            BoxColliderSpec { collision_type: CollisionType::Solid, center_x: 0, center_y: -20i32, width: 110, height: 40 }
        } else {
            BoxColliderSpec { collision_type: CollisionType::Solid, center_x: 0, center_y: -40i32, width: 60, height: 90 }
        }),
    )
}

pub open spec fn bench_shadow(x: int, y: int, horizontal: bool) -> EntityView {
    entity_view(
        "Bench_shadow"@,
        if horizontal { "Bench_H_shadow.png"@ } else { "Bench_V_shadow.png"@ },
        -1,
        Anchor::Center,
        x,
        y,
        None,
    )
}

/// The street furniture of a boulevard: a bench and its shadow on the
/// top left and bottom right boulevards, and a street lamp, with its
/// light and shadow, on the top left one.
pub open spec fn boulevard_obstacles(boulevard_type: BoulevardType, sx: int) -> Seq<EntityView> {
    let horizontal = sx == 3;
    let long = 3 * (TILE_SIZE_X as int);
    let half_x = (PARCEL_SIZE_X as int) / 2;
    let half_y = (PARCEL_SIZE_Y as int) / 2;
    match boulevard_type {
        BoulevardType::TopLeft => {
            let (bx, by) = if horizontal { (-half_x + long, half_y) } else { (-half_x, half_y - long) };
            seq![
                bench(bx, by, horizontal),
                bench_shadow(bx, by, horizontal),
                entity_view("Lamp"@, "Lamp.png"@, 0, Anchor::BottomCenter, -half_x, LAMP_LOCATION_Y as int,
                    Some(BoxColliderSpec { collision_type: CollisionType::Solid, center_x: 0, center_y: 10, width: 25, height: 25 })),
                entity_view("Lamp_light"@, "Lamp_light.png"@, 1, Anchor::BottomCenter, -half_x, LAMP_LOCATION_Y as int, None),
                entity_view("Lamp_shadow"@, "Lamp_shadow.png"@, -1, Anchor::BottomCenter, -half_x, LAMP_LOCATION_Y as int, None),
            ]
        },
        BoulevardType::BottomRight => {
            let (bx, by) = if horizontal { (half_x - long, -half_y) } else { (half_x, -half_y + long) };
            seq![bench(bx, by, horizontal), bench_shadow(bx, by, horizontal)]
        },
        _ => Seq::empty(),
    }
}

/// A whole boulevard: its furniture, then its tiles.
pub open spec fn boulevard_entity(boulevard_type: BoulevardType, sx: int, sy: int) -> Seq<EntityView> {
    boulevard_obstacles(boulevard_type, sx) + grid(sx, sy, boulevard_tile(boulevard_type, sx, sy))
}

pub open spec fn boulevard_at(roads: RoadsData, p: Parcel, boulevard_type: BoulevardType) -> Seq<EntityView> {
    match boulevard_size(roads, p, boulevard_type) {
        Some((sx, sy)) => boulevard_entity(boulevard_type, sx, sy),
        None => Seq::empty(),
    }
}

/// The boulevards of a road parcel: top left, top right, bottom left,
/// bottom right.
pub open spec fn road_boulevard_entities(roads: RoadsData, p: Parcel) -> Seq<EntityView> {
    boulevard_at(roads, p, BoulevardType::TopLeft) + boulevard_at(roads, p, BoulevardType::TopRight)
        + boulevard_at(roads, p, BoulevardType::BottomLeft) + boulevard_at(roads, p, BoulevardType::BottomRight)
}

/// The boulevards of a road parcel depend on the parcel only modulo 4 and
/// on the roads around it: a parcel moved by a multiple of 4 each way,
/// with the same roads at every offset up to two parcels away, gets the
/// same boulevards.
pub proof fn lemma_boulevards_translate(roads: RoadsData, p: Parcel, k: int, m: int, moved_roads: RoadsData, moved: Parcel)
    requires
        moved.0 == p.0 + 4 * k,
        moved.1 == p.1 + 4 * m,
        forall|dx: int, dy: int| -2 <= dx <= 2 && -2 <= dy <= 2
            ==> #[trigger] road_at(moved_roads, moved, dx, dy) == road_at(roads, p, dx, dy),
    ensures
        road_boulevard_entities(moved_roads, moved) == road_boulevard_entities(roads, p),
{
    vstd::arithmetic::div_mod::lemma_mod_multiples_vanish(k, p.0 as int, 4);
    vstd::arithmetic::div_mod::lemma_mod_multiples_vanish(m, p.1 as int, 4);
    assert((moved.0 as int) % 4 == (p.0 as int) % 4);
    assert((moved.1 as int) % 4 == (p.1 as int) % 4);
}

/// The furniture of a boulevard.
pub fn make_boulevard_obstacles(boulevard_type: &BoulevardType, size: &GridSize) -> (obstacles: Vec<EntitySpec>)
    ensures
        views(obstacles@) == boulevard_obstacles(*boulevard_type, size.x as int),
{
    let mut obstacles: Vec<EntitySpec> = Vec::new();
    let horizontal = size.x == BOULEVARD_LONG_SIDE_SIZE;
    let long: i32 = BOULEVARD_LONG_SIDE_SIZE as i32 * TILE_SIZE_X;
    match boulevard_type {
        BoulevardType::TopLeft => {
            let (x, y) = if horizontal {
                (PARCEL_SIZE_X / -2 + long, PARCEL_SIZE_Y / 2)
            } else {
                (PARCEL_SIZE_X / -2, PARCEL_SIZE_Y / 2 - long)
            };
            let (sprite, shadow_sprite, collider) = if horizontal {
                ("Bench_H.png", "Bench_H_shadow.png",
                    BoxColliderSpec { collision_type: CollisionType::Solid, center_x: 0, center_y: -20i32, width: 110, height: 40 })
            } else {
                ("Bench_V.png", "Bench_V_shadow.png",
                    BoxColliderSpec { collision_type: CollisionType::Solid, center_x: 0, center_y: -40i32, width: 60, height: 90 })
            };
            obstacles.push(make_entity("Bench", sprite, 0, Anchor::Center, x, y, Some(collider)));
            obstacles.push(make_entity("Bench_shadow", shadow_sprite, -1, Anchor::Center, x, y, None));
            let lamp_collider = BoxColliderSpec { collision_type: CollisionType::Solid, center_x: 0, center_y: 10, width: 25, height: 25 };
            obstacles.push(make_entity("Lamp", "Lamp.png", 0, Anchor::BottomCenter, PARCEL_SIZE_X / -2, LAMP_LOCATION_Y, Some(lamp_collider)));
            obstacles.push(make_entity("Lamp_light", "Lamp_light.png", 1, Anchor::BottomCenter, PARCEL_SIZE_X / -2, LAMP_LOCATION_Y, None));
            obstacles.push(make_entity("Lamp_shadow", "Lamp_shadow.png", -1, Anchor::BottomCenter, PARCEL_SIZE_X / -2, LAMP_LOCATION_Y, None));
        },
        BoulevardType::TopRight => {},
        BoulevardType::BottomLeft => {},
        BoulevardType::BottomRight => {
            let (x, y) = if horizontal {
                (PARCEL_SIZE_X / 2 - long, PARCEL_SIZE_Y / -2)
            } else {
                (PARCEL_SIZE_X / 2, PARCEL_SIZE_Y / -2 + long)
            };
            let (sprite, shadow_sprite, collider) = if horizontal {
                ("Bench_H.png", "Bench_H_shadow.png",
                    BoxColliderSpec { collision_type: CollisionType::Solid, center_x: 0, center_y: -20i32, width: 110, height: 40 })
            } else {
                ("Bench_V.png", "Bench_V_shadow.png",
                    BoxColliderSpec { collision_type: CollisionType::Solid, center_x: 0, center_y: -40i32, width: 60, height: 90 })
            };
            obstacles.push(make_entity("Bench", sprite, 0, Anchor::Center, x, y, Some(collider)));
            obstacles.push(make_entity("Bench_shadow", shadow_sprite, -1, Anchor::Center, x, y, None));
        },
    }
    proof {
        assert(views(obstacles@) =~= boulevard_obstacles(*boulevard_type, size.x as int));
    }
    obstacles
}

/// One tile of a boulevard.
fn make_boulevard_tile(boulevard_type: &BoulevardType, size: &GridSize, x: usize, y: usize) -> (e: EntitySpec)
    requires
        x < size.x <= MAX_BOULEVARD_SIDE,
        y < size.y <= MAX_BOULEVARD_SIDE,
    ensures
        e@ == (boulevard_tile(*boulevard_type, size.x as int, size.y as int))(x as int, y as int),
{
    let xi = x as i32;
    let yi = y as i32;
    let sprite: &str = match boulevard_type {
        BoulevardType::TopLeft => {
            if x == size.x - 1 && y == size.y - 1 { "boulevard-bottom-right.png" } else if x == size.x - 1 { "boulevard-right.png" }
            else if y == size.y - 1 { "boulevard-bottom.png" } else { "boulevard-background.png" }
        },
        BoulevardType::TopRight => {
            if x == size.x - 1 && y == size.y - 1 { "boulevard-bottom-left.png" } else if x == size.x - 1 { "boulevard-left.png" }
            else if y == size.y - 1 { "boulevard-bottom.png" } else { "boulevard-background.png" }
        },
        BoulevardType::BottomLeft => {
            if x == size.x - 1 && y == size.y - 1 { "boulevard-top-right.png" } else if x == size.x - 1 { "boulevard-right.png" }
            else if y == size.y - 1 { "boulevard-top.png" } else { "boulevard-background.png" }
        },
        BoulevardType::BottomRight => {
            if x == size.x - 1 && y == size.y - 1 { "boulevard-top-left.png" } else if x == size.x - 1 { "boulevard-left.png" }
            else if y == size.y - 1 { "boulevard-top.png" } else { "boulevard-background.png" }
        },
    };
    let (location_x, location_y, anchor) = match boulevard_type {
        BoulevardType::TopLeft => (
            PARCEL_SIZE_X / -2 + xi * TILE_SIZE_X * 2,
            PARCEL_SIZE_Y / 2 - yi * TILE_SIZE_Y * 2,
            Anchor::TopLeft,
        ),
        BoulevardType::TopRight => (
            PARCEL_SIZE_X / 2 - xi * TILE_SIZE_X * 2,
            PARCEL_SIZE_Y / 2 - yi * TILE_SIZE_Y * 2,
            Anchor::TopRight,
        ),
        BoulevardType::BottomLeft => (
            PARCEL_SIZE_X / -2 + xi * TILE_SIZE_X * 2,
            PARCEL_SIZE_Y / -2 + yi * TILE_SIZE_Y * 2,
            Anchor::BottomLeft,
        ),
        BoulevardType::BottomRight => (
            PARCEL_SIZE_X / 2 - xi * TILE_SIZE_X * 2,
            PARCEL_SIZE_Y / -2 + yi * TILE_SIZE_Y * 2,
            Anchor::BottomRight,
        ),
    };
    make_entity("Boulevard", sprite, -2, anchor, location_x, location_y, None)
}

/// A boulevard of the given size growing from the given corner. When it
/// has tiles, each side may have up to `MAX_BOULEVARD_SIDE` of them, so
/// that the offset of every tile from the parcel's edge fits an `i32`.
pub fn make_boulevard_entity(boulevard_type: BoulevardType, size: GridSize) -> (boulevard: Vec<EntitySpec>)
    requires
        size.x == 0 || size.y == 0 || (size.x <= MAX_BOULEVARD_SIDE && size.y <= MAX_BOULEVARD_SIDE),
    ensures
        views(boulevard@) == boulevard_entity(boulevard_type, size.x as int, size.y as int),
{
    let mut boulevard = make_boulevard_obstacles(&boulevard_type, &size);
    let ghost obstacles = views(boulevard@);
    let ghost f = boulevard_tile(boulevard_type, size.x as int, size.y as int);
    let mut x: usize = 0;
    while x < size.x
        invariant
            x <= size.x,
            size.x == 0 || size.y == 0 || (size.x <= MAX_BOULEVARD_SIDE && size.y <= MAX_BOULEVARD_SIDE),
            f == boulevard_tile(boulevard_type, size.x as int, size.y as int),
            views(boulevard@) == obstacles + grid(x as int, size.y as int, f),
        decreases size.x - x,
    {
        let ghost before = views(boulevard@);
        let mut y: usize = 0;
        while y < size.y
            invariant
                x < size.x,
                y <= size.y,
                size.y == 0 || (size.x <= MAX_BOULEVARD_SIDE && size.y <= MAX_BOULEVARD_SIDE),
                f == boulevard_tile(boulevard_type, size.x as int, size.y as int),
                views(boulevard@) == before + Seq::new(y as nat, |j: int| f(x as int, j)),
            decreases size.y - y,
        {
            let entity = make_boulevard_tile(&boulevard_type, &size, x, y);
            proof {
                lemma_views_push(boulevard@, entity);
                assert(Seq::new((y + 1) as nat, |j: int| f(x as int, j))
                    =~= Seq::new(y as nat, |j: int| f(x as int, j)).push(f(x as int, y as int)));
            }
            boulevard.push(entity);
            y = y + 1;
        }
        proof {
            assert(grid(x + 1, size.y as int, f) == grid(x as int, size.y as int, f) + Seq::new(size.y as nat, |j: int| f(x as int, j)));
            assert(views(boulevard@) =~= obstacles + grid(x + 1, size.y as int, f));
        }
        x = x + 1;
    }
    boulevard
}

/// The boulevards of a road parcel.
pub fn make_boulevard_entities(roads_data: &RoadsData, parcel: &Parcel) -> (entities: Vec<EntitySpec>)
    requires
        boulevards_fit(*roads_data, *parcel),
    ensures
        views(entities@) == road_boulevard_entities(*roads_data, *parcel),
{
    let mut boulevard: Vec<EntitySpec> = Vec::new();
    let x_line_1 = parcel.0 % BOULEVARD_SPACING == 1 || parcel.0 % BOULEVARD_SPACING == -(BOULEVARD_SPACING - 1);
    let y_line_1 = parcel.1 % BOULEVARD_SPACING == 1 || parcel.1 % BOULEVARD_SPACING == -(BOULEVARD_SPACING - 1);
    let x_line_0 = parcel.0 % BOULEVARD_SPACING == 0;
    let y_line_0 = parcel.1 % BOULEVARD_SPACING == 0;
    assert(x_line_1 == (parcel.0 as int % 4 == 1));
    assert(y_line_1 == (parcel.1 as int % 4 == 1));
    assert(x_line_0 == (parcel.0 as int % 4 == 0));
    assert(y_line_0 == (parcel.1 as int % 4 == 0));

    if (x_line_1 || y_line_0)
        && is_road(&Parcel(parcel.0 - 1, parcel.1), roads_data)
        && is_road(&Parcel(parcel.0, parcel.1 + 1), roads_data)
        && is_road(&Parcel(parcel.0 - 1, parcel.1 + 1), roads_data)
    {
        let mut make_boulevard = false;
        let mut size = GridSize { x: BOULEVARD_SMALL_SIDE_SIZE, y: BOULEVARD_SMALL_SIDE_SIZE };
        if x_line_1
            && is_road(&Parcel(parcel.0 - 2, parcel.1), roads_data)
            && is_road(&Parcel(parcel.0 - 2, parcel.1 + 1), roads_data)
        {
            size.x = BOULEVARD_LONG_SIDE_SIZE;
            make_boulevard = true;
        }
        if y_line_0
            && is_road(&Parcel(parcel.0, parcel.1 + 2), roads_data)
            && is_road(&Parcel(parcel.0 - 1, parcel.1 + 2), roads_data)
        {
            size.y = BOULEVARD_LONG_SIDE_SIZE;
            make_boulevard = true;
        }
        if make_boulevard {
            let mut b = make_boulevard_entity(BoulevardType::TopLeft, size);
            append_entities(&mut boulevard, &mut b);
        }
    }
    let ghost s1 = views(boulevard@);

    if (x_line_0 || y_line_0)
        && is_road(&Parcel(parcel.0 + 1, parcel.1), roads_data)
        && is_road(&Parcel(parcel.0, parcel.1 + 1), roads_data)
        && is_road(&Parcel(parcel.0 + 1, parcel.1 + 1), roads_data)
    {
        let mut make_boulevard = false;
        let mut size = GridSize { x: BOULEVARD_SMALL_SIDE_SIZE, y: BOULEVARD_SMALL_SIDE_SIZE };
        if x_line_0
            && is_road(&Parcel(parcel.0 + 2, parcel.1), roads_data)
            && is_road(&Parcel(parcel.0 + 2, parcel.1 + 1), roads_data)
        {
            make_boulevard = true;
            size.x = BOULEVARD_LONG_SIDE_SIZE;
        }
        if y_line_0
            && is_road(&Parcel(parcel.0, parcel.1 + 2), roads_data)
            && is_road(&Parcel(parcel.0 + 1, parcel.1 + 2), roads_data)
        {
            make_boulevard = true;
            size.y = BOULEVARD_LONG_SIDE_SIZE;
        }
        if make_boulevard {
            let mut b = make_boulevard_entity(BoulevardType::TopRight, size);
            append_entities(&mut boulevard, &mut b);
        }
    }
    let ghost s2 = views(boulevard@);

    if (x_line_1 || y_line_1)
        && is_road(&Parcel(parcel.0 - 1, parcel.1), roads_data)
        && is_road(&Parcel(parcel.0, parcel.1 - 1), roads_data)
        && is_road(&Parcel(parcel.0 - 1, parcel.1 - 1), roads_data)
    {
        let mut make_boulevard = false;
        let mut size = GridSize { x: BOULEVARD_SMALL_SIDE_SIZE, y: BOULEVARD_SMALL_SIDE_SIZE };
        if x_line_1
            && is_road(&Parcel(parcel.0 - 2, parcel.1), roads_data)
            && is_road(&Parcel(parcel.0 - 2, parcel.1 - 1), roads_data)
        {
            make_boulevard = true;
            size.x = BOULEVARD_LONG_SIDE_SIZE;
        }
        if y_line_1
            && is_road(&Parcel(parcel.0, parcel.1 - 2), roads_data)
            && is_road(&Parcel(parcel.0 - 1, parcel.1 - 2), roads_data)
        {
            make_boulevard = true;
            size.y = BOULEVARD_LONG_SIDE_SIZE;
        }
        if make_boulevard {
            let mut b = make_boulevard_entity(BoulevardType::BottomLeft, size);
            append_entities(&mut boulevard, &mut b);
        }
    }
    let ghost s3 = views(boulevard@);

    if (x_line_0 || y_line_1)
        && is_road(&Parcel(parcel.0 + 1, parcel.1), roads_data)
        && is_road(&Parcel(parcel.0, parcel.1 - 1), roads_data)
        && is_road(&Parcel(parcel.0 + 1, parcel.1 - 1), roads_data)
    {
        let mut make_boulevard = false;
        let mut size = GridSize { x: BOULEVARD_SMALL_SIDE_SIZE, y: BOULEVARD_SMALL_SIDE_SIZE };
        if x_line_0
            && is_road(&Parcel(parcel.0 + 2, parcel.1), roads_data)
            && is_road(&Parcel(parcel.0 + 2, parcel.1 - 1), roads_data)
        {
            make_boulevard = true;
            size.x = BOULEVARD_LONG_SIDE_SIZE;
        }
        if y_line_1
            && is_road(&Parcel(parcel.0, parcel.1 - 2), roads_data)
            && is_road(&Parcel(parcel.0 + 1, parcel.1 - 2), roads_data)
        {
            make_boulevard = true;
            size.y = BOULEVARD_LONG_SIDE_SIZE;
        }
        if make_boulevard {
            let mut b = make_boulevard_entity(BoulevardType::BottomRight, size);
            append_entities(&mut boulevard, &mut b);
        }
    }
    proof {
        let t1 = boulevard_at(*roads_data, *parcel, BoulevardType::TopLeft);
        let t2 = boulevard_at(*roads_data, *parcel, BoulevardType::TopRight);
        let t3 = boulevard_at(*roads_data, *parcel, BoulevardType::BottomLeft);
        let t4 = boulevard_at(*roads_data, *parcel, BoulevardType::BottomRight);
        assert(s1 =~= t1);
        assert(s2 =~= t1 + t2);
        assert(s3 =~= t1 + t2 + t3);
        assert(views(boulevard@) =~= t1 + t2 + t3 + t4);
    }
    boulevard
}

// ------------------------------------------------------------ road scene

/// A scene made for a parcel, ready to be spawned: its name, its single
/// level and where its assets are found, by path components.
#[derive(Debug)]
pub struct SceneData {
    pub name: String,
    pub level_name: String,
    pub entities: Vec<EntitySpec>,
    pub parcels: Vec<Parcel>,
    pub path: Vec<String>,
}

/// Name of the road scene of a parcel: `Road <x> - <y>`.
pub open spec fn road_scene_name(p: Parcel) -> Seq<char> {
    "Road "@ + int_decimal(p.0 as int) + " - "@ + int_decimal(p.1 as int)
}

/// Everything drawn on a road parcel, back to front: the asphalt, the
/// boulevards, the sidewalks and the sidewalk corners.
pub open spec fn road_scene_entities(roads: RoadsData, p: Parcel) -> Seq<EntityView> {
    road_background_entities() + road_boulevard_entities(roads, p) + road_sidewalk_entities(roads, p)
        + road_corner_entities(roads, p)
}

fn fits_in_i16(v: i32) -> (r: bool)
    ensures
        r == fits_i16(v as int),
{
    -32768 <= v && v <= 32767
}

fn boulevard_direction(boulevard_type: BoulevardType) -> (d: (i32, i32))
    ensures
        d.0 == boulevard_dx(boulevard_type),
        d.1 == boulevard_dy(boulevard_type),
{
    match boulevard_type {
        BoulevardType::TopLeft => (-1, 1),
        BoulevardType::TopRight => (1, 1),
        BoulevardType::BottomLeft => (-1, -1),
        BoulevardType::BottomRight => (1, -1),
    }
}

fn lines_of(parcel: &Parcel, boulevard_type: BoulevardType) -> (lines: (bool, bool, bool))
    ensures
        lines == boulevard_lines(*parcel, boulevard_type),
{
    let x_line_1 = parcel.0 % BOULEVARD_SPACING == 1 || parcel.0 % BOULEVARD_SPACING == -(BOULEVARD_SPACING - 1);
    let y_line_1 = parcel.1 % BOULEVARD_SPACING == 1 || parcel.1 % BOULEVARD_SPACING == -(BOULEVARD_SPACING - 1);
    let x_line_0 = parcel.0 % BOULEVARD_SPACING == 0;
    let y_line_0 = parcel.1 % BOULEVARD_SPACING == 0;
    assert(x_line_1 == (parcel.0 as int % 4 == 1));
    assert(y_line_1 == (parcel.1 as int % 4 == 1));
    assert(x_line_0 == (parcel.0 as int % 4 == 0));
    assert(y_line_0 == (parcel.1 as int % 4 == 0));
    match boulevard_type {
        BoulevardType::TopLeft => (x_line_1 || y_line_0, x_line_1, y_line_0),
        BoulevardType::TopRight => (x_line_0 || y_line_0, x_line_0, y_line_0),
        BoulevardType::BottomLeft => (x_line_1 || y_line_1, x_line_1, y_line_1),
        BoulevardType::BottomRight => (x_line_0 || y_line_1, x_line_0, y_line_1),
    }
}

/// Whether the boulevard of a corner can be decided with `i16` parcels.
fn boulevard_can_be_decided(roads_data: &RoadsData, parcel: &Parcel, boulevard_type: BoulevardType) -> (r: bool)
    ensures
        r == boulevard_fits(*roads_data, *parcel, boulevard_type),
{
    let (dx, dy) = boulevard_direction(boulevard_type);
    let (on_line, x_long, y_long) = lines_of(parcel, boulevard_type);
    if !on_line {
        return true;
    }
    let x1: i32 = parcel.0 as i32 + dx;
    if !fits_in_i16(x1) {
        return false;
    }
    if !is_road(&Parcel(x1 as i16, parcel.1), roads_data) {
        return true;
    }
    let y1: i32 = parcel.1 as i32 + dy;
    if !fits_in_i16(y1) {
        return false;
    }
    if !is_road(&Parcel(parcel.0, y1 as i16), roads_data) || !is_road(&Parcel(x1 as i16, y1 as i16), roads_data) {
        return true;
    }
    let x_ok = !x_long || fits_in_i16(parcel.0 as i32 + 2 * dx);
    let y_ok = !y_long || fits_in_i16(parcel.1 as i32 + 2 * dy);
    x_ok && y_ok
}

/// Whether every parcel looked at to build the road scene of `parcel`
/// fits in an `i16`, so that `make_road_scene` can build it.
pub fn road_scene_can_be_built(roads_data: &RoadsData, parcel: &Parcel) -> (r: bool)
    ensures
        r == road_scene_fits(*roads_data, *parcel),
{
    let neighbours = -32767 <= parcel.0 && parcel.0 <= 32766 && -32767 <= parcel.1 && parcel.1 <= 32766;
    neighbours
        && boulevard_can_be_decided(roads_data, parcel, BoulevardType::TopLeft)
        && boulevard_can_be_decided(roads_data, parcel, BoulevardType::TopRight)
        && boulevard_can_be_decided(roads_data, parcel, BoulevardType::BottomLeft)
        && boulevard_can_be_decided(roads_data, parcel, BoulevardType::BottomRight)
}

/// The road scene of a parcel, built from the roads around it.
pub fn make_road_scene(roads_data: &RoadsData, parcel: &Parcel) -> (scene_data: SceneData)
    requires
        road_scene_fits(*roads_data, *parcel),
    ensures
        scene_data.name@ == road_scene_name(*parcel),
        scene_data.level_name@ == road_scene_name(*parcel),
        views(scene_data.entities@) == road_scene_entities(*roads_data, *parcel),
        scene_data.parcels@ == seq![*parcel],
        scene_data.path@.map_values(|c: String| c@) == seq![".."@, "assets"@, "roads"@],
{
    let mut entities: Vec<EntitySpec> = Vec::new();
    let mut corner_entities = make_corners(roads_data, parcel);
    let mut background = make_road_background_entities();
    append_entities(&mut entities, &mut background);
    let mut boulevards = make_boulevard_entities(roads_data, parcel);
    append_entities(&mut entities, &mut boulevards);
    let mut sidewalks = make_sidewalk_entities(roads_data, parcel);
    append_entities(&mut entities, &mut sidewalks);
    append_entities(&mut entities, &mut corner_entities);

    let mut name = String::from_str("Road ");
    let x = i16_to_string(parcel.0);
    name.append(x.as_str());
    name.append(" - ");
    let y = i16_to_string(parcel.1);
    name.append(y.as_str());
    let level_name = name.clone();

    let mut path: Vec<String> = Vec::new();
    path.push(String::from_str(".."));
    path.push(String::from_str("assets"));
    path.push(String::from_str("roads"));

    let mut parcels: Vec<Parcel> = Vec::new();
    parcels.push(*parcel);

    proof {
        assert(path@.map_values(|c: String| c@) =~= seq![".."@, "assets"@, "roads"@]);
        assert(views(entities@) =~= road_scene_entities(*roads_data, *parcel));
    }
    SceneData { name, level_name, entities, parcels, path }
}

} // verus!
