use vstd::prelude::*;
use crate::parcel::Parcel;
use crate::entity::CollisionType;
use crate::scene_loader::{SpawnedScene, contains_parcel};

verus! {

/// The outcome of testing the player's collider against one collider
/// or against the collision map; `L` is the level change that a trigger
/// carries.
#[derive(Debug)]
pub struct CollisionResult<L> {
    pub hit: bool,
    pub collision_type: CollisionType,
    pub level_change: Option<L>,
}

/// Whether two parcel lists are equal, element by element.
pub fn same_parcels(a: &Vec<Parcel>, b: &Vec<Parcel>) -> (r: bool)
    ensures
        r == (a@ == b@),
{
    if a.len() != b.len() {
        return false;
    }
    let mut k: usize = 0;
    while k < a.len()
        invariant
            a.len() == b.len(),
            k <= a.len(),
            forall|j: int| 0 <= j < k ==> a@[j] == b@[j],
        decreases a.len() - k,
    {
        if a[k] != b[k] {
            return false;
        }
        k = k + 1;
    }
    proof {
        assert(a@ =~= b@);
    }
    true
}

/// Whether a collider of a scene covering `collider_parcels` stops the
/// player: always inside a level; in the overworld when the collider
/// belongs to the player's parcel, or when both the player's parcel and
/// the collider's parcels are default scenes.
pub open spec fn collision_applies(
    current_parcel: Parcel,
    current_level: int,
    collider_parcels: Seq<Parcel>,
    scenes: Seq<SpawnedScene>,
) -> bool {
    ||| current_level > 0
    ||| collider_parcels.contains(current_parcel)
    ||| ((exists|i: int| 0 <= i < scenes.len() && (#[trigger] scenes[i]).is_default && scenes[i].parcels@.contains(current_parcel))
        && (exists|j: int| 0 <= j < scenes.len() && (#[trigger] scenes[j]).is_default && scenes[j].parcels@ == collider_parcels))
}

/// Whether a collider counts for the player where the player stands.
pub fn collision_applies_for_current_parcel(
    current_parcel: &Parcel,
    current_level: usize,
    collider_parcels: &Vec<Parcel>,
    scenes: &Vec<SpawnedScene>,
) -> (r: bool)
    ensures
        r == collision_applies(*current_parcel, current_level as int, collider_parcels@, scenes@),
{
    if current_level > 0 || contains_parcel(collider_parcels, current_parcel) {
        return true;
    }
    let mut current_parcel_is_default = false;
    let mut collider_parcel_is_default = false;
    let mut k: usize = 0;
    while k < scenes.len()
        invariant
            k <= scenes.len(),
            !collider_parcels@.contains(*current_parcel),
            current_parcel_is_default == exists|i: int| 0 <= i < k && (#[trigger] scenes@[i]).is_default && scenes@[i].parcels@.contains(*current_parcel),
            collider_parcel_is_default == exists|j: int| 0 <= j < k && (#[trigger] scenes@[j]).is_default && scenes@[j].parcels@ == collider_parcels@,
            !(current_parcel_is_default && collider_parcel_is_default),
        decreases scenes.len() - k,
    {
        if scenes[k].is_default {
            if contains_parcel(&scenes[k].parcels, current_parcel) {
                current_parcel_is_default = true;
            } else if same_parcels(&scenes[k].parcels, collider_parcels) {
                collider_parcel_is_default = true;
            }
            proof {
                if scenes@[k as int].parcels@ == collider_parcels@ {
                    assert(!scenes@[k as int].parcels@.contains(*current_parcel));
                }
            }
            if current_parcel_is_default && collider_parcel_is_default {
                return true;
            }
        }
        k = k + 1;
    }
    false
}

/// When a collider stops the player. Inside a level every collider does.
/// In the overworld, a collider on the player's own parcel does; so does
/// the collider of a default scene while the player stands in a default
/// scene, even a neighbouring one; and no other collider does.
pub proof fn lemma_when_colliders_stop_the_player(
    current_parcel: Parcel,
    current_level: int,
    collider_parcels: Seq<Parcel>,
    scenes: Seq<SpawnedScene>,
    i: int,
    j: int,
)
    ensures
        current_level > 0 ==> collision_applies(current_parcel, current_level, collider_parcels, scenes),
        collider_parcels.contains(current_parcel)
            ==> collision_applies(current_parcel, current_level, collider_parcels, scenes),
        0 <= i < scenes.len() && scenes[i].is_default && scenes[i].parcels@.contains(current_parcel)
            && 0 <= j < scenes.len() && scenes[j].is_default && scenes[j].parcels@ == collider_parcels
            ==> collision_applies(current_parcel, current_level, collider_parcels, scenes),
        current_level <= 0 && !collider_parcels.contains(current_parcel)
            && (forall|k: int| 0 <= k < scenes.len() && (#[trigger] scenes[k]).is_default
                ==> !scenes[k].parcels@.contains(current_parcel))
            ==> !collision_applies(current_parcel, current_level, collider_parcels, scenes),
        current_level <= 0 && !collider_parcels.contains(current_parcel)
            && (forall|k: int| 0 <= k < scenes.len() && (#[trigger] scenes[k]).is_default
                ==> scenes[k].parcels@ != collider_parcels)
            ==> !collision_applies(current_parcel, current_level, collider_parcels, scenes),
{
}

/// Whether some result hits a solid collider.
pub open spec fn hits_solid<L>(collisions: Seq<CollisionResult<L>>) -> bool {
    exists|i: int| 0 <= i < collisions.len() && (#[trigger] collisions[i]).hit && collisions[i].collision_type == CollisionType::Solid
}

fn any_solid_hit<L>(collisions: &Vec<CollisionResult<L>>) -> (r: bool)
    ensures
        r == hits_solid(collisions@),
{
    let mut k: usize = 0;
    while k < collisions.len()
        invariant
            k <= collisions.len(),
            forall|i: int| 0 <= i < k ==> !((#[trigger] collisions@[i]).hit && collisions@[i].collision_type == CollisionType::Solid),
        decreases collisions.len() - k,
    {
        if collisions[k].hit && collisions[k].collision_type == CollisionType::Solid {
            return true;
        }
        k = k + 1;
    }
    false
}

/// Whether a step is blocked: it never is when the player already
/// stands inside a solid collider (so that a stuck player can walk
/// out); otherwise it is when the target position hits one.
pub fn check_player_collision<L>(
    collisions_at_current: &Vec<CollisionResult<L>>,
    collisions_at_target: &Vec<CollisionResult<L>>,
) -> (blocked: bool)
    ensures
        blocked == (!hits_solid(collisions_at_current@) && hits_solid(collisions_at_target@)),
{
    if any_solid_hit(collisions_at_current) {
        return false;
    }
    any_solid_hit(collisions_at_target)
}

/// Whether the result is a trigger that leads to a level.
pub open spec fn is_level_trigger<L>(c: CollisionResult<L>) -> bool {
    c.collision_type == CollisionType::Trigger && c.level_change is Some
}

/// The level change of the first trigger the player stands in that
/// carries one.
pub fn is_in_level_change_trigger<L>(collisions: &Vec<CollisionResult<L>>) -> (level_change: Option<&L>)
    ensures
        match level_change {
            Some(l) => exists|i: int| 0 <= i < collisions@.len() && is_level_trigger(#[trigger] collisions@[i])
                && collisions@[i].level_change == Some(*l)
                && forall|j: int| 0 <= j < i ==> !is_level_trigger(#[trigger] collisions@[j]),
            None => forall|i: int| 0 <= i < collisions@.len() ==> !is_level_trigger(#[trigger] collisions@[i]),
        },
{
    let mut k: usize = 0;
    while k < collisions.len()
        invariant
            k <= collisions.len(),
            forall|j: int| 0 <= j < k ==> !is_level_trigger(#[trigger] collisions@[j]),
        decreases collisions.len() - k,
    {
        if collisions[k].collision_type == CollisionType::Trigger {
            match &collisions[k].level_change {
                Some(l) => {
                    assert(is_level_trigger(collisions@[k as int]));
                    return Some(l);
                },
                None => {},
            }
        }
        k = k + 1;
    }
    None
}

/// Whether some result is a trigger.
pub open spec fn in_trigger<L>(collisions: Seq<CollisionResult<L>>) -> bool {
    exists|i: int| 0 <= i < collisions.len() && (#[trigger] collisions[i]).collision_type == CollisionType::Trigger
}

/// Whether the player stands in a trigger.
pub fn player_is_in_trigger<L>(collisions: &Vec<CollisionResult<L>>) -> (r: bool)
    ensures
        r == in_trigger(collisions@),
{
    let mut k: usize = 0;
    while k < collisions.len()
        invariant
            k <= collisions.len(),
            forall|i: int| 0 <= i < k ==> (#[trigger] collisions@[i]).collision_type != CollisionType::Trigger,
        decreases collisions.len() - k,
    {
        if collisions[k].collision_type == CollisionType::Trigger {
            return true;
        }
        k = k + 1;
    }
    false
}

/// What the collision map tells of one of its tiles where the player
/// would stand: whether the tile counts where the player is, whether it
/// lies inside the player's box, its kind, and whether it belongs to an
/// entity (a trigger counts only then).
#[derive(Debug, Clone, Copy, PartialEq, Eq, Structural)]
pub struct TileProbe {
    pub applies: bool,
    pub inside: bool,
    pub collision_type: CollisionType,
    pub has_entity: bool,
}

/// Whether a tile stops or triggers the player.
pub open spec fn tile_hit(t: TileProbe) -> bool {
    t.applies && t.inside && (t.collision_type == CollisionType::Solid || t.has_entity)
}

/// The tile of the collision map the player hits: the first tile that
/// counts, lies inside the player's box, and is solid or a trigger of an
/// entity; `None` when the player hits none.
pub fn get_mask_collision(tiles: &Vec<TileProbe>) -> (hit: Option<usize>)
    ensures
        match hit {
            Some(k) => k < tiles@.len() && tile_hit(tiles@[k as int])
                && forall|j: int| 0 <= j < k ==> !tile_hit(#[trigger] tiles@[j]),
            None => forall|j: int| 0 <= j < tiles@.len() ==> !tile_hit(#[trigger] tiles@[j]),
        },
{
    let mut k: usize = 0;
    while k < tiles.len()
        invariant
            k <= tiles@.len(),
            forall|j: int| 0 <= j < k ==> !tile_hit(#[trigger] tiles@[j]),
        decreases tiles@.len() - k,
    {
        let t = tiles[k];
        if t.applies && t.inside {
            match t.collision_type {
                CollisionType::Trigger => {
                    if t.has_entity {
                        return Some(k);
                    }
                },
                CollisionType::Solid => {
                    return Some(k);
                },
            }
        }
        k = k + 1;
    }
    None
}

/// What a box collider tells where the player would stand: whether it
/// counts where the player is, and whether it overlaps the player's box.
#[derive(Debug, Clone, Copy, PartialEq, Eq, Structural)]
pub struct BoxProbe {
    pub applies: bool,
    pub overlaps: bool,
}

/// The indices, in order, of the box colliders the player hits.
pub open spec fn box_hits(colliders: Seq<BoxProbe>) -> Seq<usize>
    decreases colliders.len(),
{
    if colliders.len() == 0 {
        Seq::empty()
    } else {
        let rest = box_hits(colliders.drop_last());
        let last = colliders.last();
        if last.applies && last.overlaps {
            rest.push((colliders.len() - 1) as usize)
        } else {
            rest
        }
    }
}

/// The box colliders the player hits, in order: one collision each.
pub fn get_box_collisions(colliders: &Vec<BoxProbe>) -> (hits: Vec<usize>)
    ensures
        hits@ == box_hits(colliders@),
{
    let mut hits: Vec<usize> = Vec::new();
    let mut k: usize = 0;
    while k < colliders.len()
        invariant
            k <= colliders@.len(),
            hits@ == box_hits(colliders@.subrange(0, k as int)),
        decreases colliders@.len() - k,
    {
        proof {
            assert(colliders@.subrange(0, k + 1).drop_last() =~= colliders@.subrange(0, k as int));
        }
        let c = colliders[k];
        if c.applies && c.overlaps {
            hits.push(k);
        }
        k = k + 1;
    }
    proof {
        assert(colliders@.subrange(0, colliders@.len() as int) =~= colliders@);
    }
    hits
}

/// The cells of a collision mask image (`width` pixels wide, four bytes
/// a pixel, row by row) among its first `n` pixels whose byte `channel`
/// is not zero, in order: each as its column and its row.
pub open spec fn mask_cells(data: Seq<u8>, width: int, channel: int, n: int) -> Seq<(usize, usize)>
    decreases n,
{
    if n <= 0 {
        Seq::empty()
    } else {
        let k = n - 1;
        let rest = mask_cells(data, width, channel, k);
        if data[4 * k + channel] > 0 {
            rest.push(((k % width) as usize, (k / width) as usize))
        } else {
            rest
        }
    }
}

/// The cells of a collision mask image that collide: those whose byte
/// `channel` (0 to 3: red, green, blue, alpha) is not zero, row by row.
pub fn mask_collision_cells(data: &Vec<u8>, width: u32, channel: usize) -> (cells: Vec<(usize, usize)>)
    requires
        width > 0,
        channel < 4,
    ensures
        cells@ == mask_cells(data@, width as int, channel as int, (data@.len() / 4) as int),
{
    let pixels: usize = data.len() / 4;
    let w: usize = width as usize;
    let mut cells: Vec<(usize, usize)> = Vec::new();
    let mut k: usize = 0;
    while k < pixels
        invariant
            pixels == data@.len() / 4,
            w == width,
            w > 0,
            channel < 4,
            k <= pixels,
            cells@ == mask_cells(data@, width as int, channel as int, k as int),
        decreases pixels - k,
    {
        let len = data.len();
        assert(4 * k + channel < len);
        if data[4 * k + channel] > 0 {
            cells.push((k % w, k / w));
        }
        k = k + 1;
    }
    cells
}

} // verus!
