use vstd::prelude::*;
use vstd::string::*;

verus! {

/// Point of a sprite that its location refers to.
#[derive(Debug, Clone, Copy, PartialEq, Eq, Structural)]
pub enum Anchor {
    BottomCenter,
    BottomLeft,
    BottomRight,
    Center,
    CenterLeft,
    CenterRight,
    Custom(i32, i32),
    TopCenter,
    TopLeft,
    TopRight,
}

/// How a collider reacts when the player walks into it.
#[derive(Debug, Clone, Copy, PartialEq, Eq, Structural)]
pub enum CollisionType {
    Solid,
    Trigger,
}

/// An axis-aligned box collider, relative to its entity.
#[derive(Debug, Clone, Copy, PartialEq, Eq, Structural)]
pub struct BoxColliderSpec {
    pub collision_type: CollisionType,
    pub center_x: i32,
    pub center_y: i32,
    pub width: u32,
    pub height: u32,
}

/// A scene entity made of one sprite, a location (no rotation, unit
/// scale) and, for obstacles, a box collider.
#[derive(Debug)]
pub struct EntitySpec {
    pub name: String,
    pub sprite: String,
    pub layer: i32,
    pub anchor: Anchor,
    pub location_x: i32,
    pub location_y: i32,
    pub collider: Option<BoxColliderSpec>,
}

/// The mathematical content of an entity.
pub struct EntityView {
    pub name: Seq<char>,
    pub sprite: Seq<char>,
    pub layer: int,
    pub anchor: Anchor,
    pub x: int,
    pub y: int,
    pub collider: Option<BoxColliderSpec>,
}

impl View for EntitySpec {
    type V = EntityView;

    open spec fn view(&self) -> EntityView {
        EntityView {
            name: self.name@,
            sprite: self.sprite@,
            layer: self.layer as int,
            anchor: self.anchor,
            x: self.location_x as int,
            y: self.location_y as int,
            collider: self.collider,
        }
    }
}

/// The views of a sequence of entities.
pub open spec fn views(s: Seq<EntitySpec>) -> Seq<EntityView> {
    s.map_values(|e: EntitySpec| e@)
}

/// Builds an entity from its parts.
pub fn make_entity(
    name: &str,
    sprite: &str,
    layer: i32,
    anchor: Anchor,
    location_x: i32,
    location_y: i32,
    collider: Option<BoxColliderSpec>,
) -> (e: EntitySpec)
    ensures
        e@ == (EntityView {
            name: name@,
            sprite: sprite@,
            layer: layer as int,
            anchor,
            x: location_x as int,
            y: location_y as int,
            collider,
        }),
{
    EntitySpec {
        name: String::from_str(name),
        sprite: String::from_str(sprite),
        layer,
        anchor,
        location_x,
        location_y,
        collider,
    }
}

/// The views of a sequence with one more entity.
pub proof fn lemma_views_push(s: Seq<EntitySpec>, e: EntitySpec)
    ensures
        views(s.push(e)) == views(s).push(e@),
{
    assert(views(s.push(e)) =~= views(s).push(e@));
}

/// The views of two sequences one after the other.
pub proof fn lemma_views_add(s: Seq<EntitySpec>, t: Seq<EntitySpec>)
    ensures
        views(s + t) == views(s) + views(t),
{
    assert(views(s + t) =~= views(s) + views(t));
}

/// Appends `other` to `v`, leaving `other` empty.
pub fn append_entities(v: &mut Vec<EntitySpec>, other: &mut Vec<EntitySpec>)
    ensures
        views(final(v)@) == views(old(v)@) + views(old(other)@),
        final(other)@.len() == 0,
{
    proof { lemma_views_add(v@, other@); }
    v.append(other);
}

} // verus!
