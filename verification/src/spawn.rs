use vstd::prelude::*;
use crate::parcel::Parcel;
use crate::scene_maker::{PARCEL_SIZE_X, PARCEL_SIZE_Y};

verus! {

/// The smallest and largest coordinates of parcels, on the x axis
/// (`axis` false) or on the y axis (`axis` true).
pub open spec fn coordinate_range(parcels: Seq<Parcel>, axis: bool) -> (int, int)
    decreases parcels.len(),
{
    let last = parcels.last();
    let c = if axis { last.1 as int } else { last.0 as int };
    if parcels.len() <= 1 {
        (c, c)
    } else {
        let (lo, hi) = coordinate_range(parcels.drop_last(), axis);
        (if c < lo { c } else { lo }, if c > hi { c } else { hi })
    }
}

/// The world location of the center of the parcels' bounding box, in
/// world units: the middle of the smallest and largest parcel centers on
/// each axis; the origin for no parcel.
pub open spec fn parcels_center_of(parcels: Seq<Parcel>) -> (int, int) {
    if parcels.len() == 0 {
        (0, 0)
    } else {
        let (x0, x1) = coordinate_range(parcels, false);
        let (y0, y1) = coordinate_range(parcels, true);
        ((x0 + x1) * (PARCEL_SIZE_X / 2), (y0 + y1) * (PARCEL_SIZE_Y / 2))
    }
}

proof fn lemma_range_bounds(parcels: Seq<Parcel>, axis: bool)
    requires
        parcels.len() > 0,
    ensures
        i16::MIN <= coordinate_range(parcels, axis).0 <= coordinate_range(parcels, axis).1 <= i16::MAX,
    decreases parcels.len(),
{
    if parcels.len() > 1 {
        lemma_range_bounds(parcels.drop_last(), axis);
    }
}

/// The center of the bounding box of parcels, in world units.
pub fn get_parcels_center_location(parcels: &Vec<Parcel>) -> (center: (i32, i32))
    ensures
        center.0 as int == parcels_center_of(parcels@).0,
        center.1 as int == parcels_center_of(parcels@).1,
{
    if parcels.len() == 0 {
        return (0, 0);
    }
    let mut min_x: i16 = parcels[0].0;
    let mut max_x: i16 = parcels[0].0;
    let mut min_y: i16 = parcels[0].1;
    let mut max_y: i16 = parcels[0].1;
    let mut i: usize = 1;
    proof {
        assert(parcels@.subrange(0, 1).drop_last().len() == 0);
    }
    while i < parcels.len()
        invariant
            1 <= i <= parcels@.len(),
            coordinate_range(parcels@.subrange(0, i as int), false) == (min_x as int, max_x as int),
            coordinate_range(parcels@.subrange(0, i as int), true) == (min_y as int, max_y as int),
        decreases parcels@.len() - i,
    {
        let p = parcels[i];
        proof {
            assert(parcels@.subrange(0, i + 1).drop_last() =~= parcels@.subrange(0, i as int));
        }
        if p.0 < min_x {
            min_x = p.0;
        }
        if p.0 > max_x {
            max_x = p.0;
        }
        if p.1 < min_y {
            min_y = p.1;
        }
        if p.1 > max_y {
            max_y = p.1;
        }
        i = i + 1;
    }
    proof {
        assert(parcels@.subrange(0, parcels@.len() as int) =~= parcels@);
    }
    let x: i32 = (min_x as i32 + max_x as i32) * (PARCEL_SIZE_X / 2);
    let y: i32 = (min_y as i32 + max_y as i32) * (PARCEL_SIZE_Y / 2);
    (x, y)
}

/// Where the player appears in a level of a scene over `parcels`: the
/// level's spawn point, relative to the scene's center, or the center
/// itself for a level the scene does not have.
pub open spec fn level_spawn_location_of(parcels: Seq<Parcel>, spawn_points: Seq<(i32, i32)>, level: int) -> (int, int) {
    let center = parcels_center_of(parcels);
    if 0 <= level < spawn_points.len() {
        (spawn_points[level].0 + center.0, spawn_points[level].1 + center.1)
    } else {
        center
    }
}

/// Where the player appears in level `level` of a scene over `parcels`
/// whose levels have the spawn points given, in world units.
pub fn level_spawn_location(parcels: &Vec<Parcel>, spawn_points: &Vec<(i32, i32)>, level: usize) -> (at: (i64, i64))
    ensures
        at.0 as int == level_spawn_location_of(parcels@, spawn_points@, level as int).0,
        at.1 as int == level_spawn_location_of(parcels@, spawn_points@, level as int).1,
{
    let center = get_parcels_center_location(parcels);
    if level < spawn_points.len() {
        let spawn = spawn_points[level];
        (spawn.0 as i64 + center.0 as i64, spawn.1 as i64 + center.1 as i64)
    } else {
        (center.0 as i64, center.1 as i64)
    }
}

/// What the previewer does when the player's level may have changed:
/// whether the scene shown must be despawned (a level other than the
/// player's is shown) and whether the player's level must be spawned
/// (it is not shown yet).
pub open spec fn level_sync_of(current_level: usize, shown_levels: Seq<usize>) -> (bool, bool) {
    (exists|i: int| 0 <= i < shown_levels.len() && #[trigger] shown_levels[i] != current_level,
     forall|i: int| 0 <= i < shown_levels.len() ==> #[trigger] shown_levels[i] != current_level)
}

/// Decides, from the ids of the levels shown, whether to despawn the
/// scene shown and whether to spawn the player's level.
pub fn level_change(current_level: usize, shown_levels: &Vec<usize>) -> (sync: (bool, bool))
    ensures
        sync == level_sync_of(current_level, shown_levels@),
{
    let mut despawn = false;
    let mut spawn = true;
    let mut i: usize = 0;
    while i < shown_levels.len()
        invariant
            i <= shown_levels@.len(),
            despawn == exists|k: int| 0 <= k < i && #[trigger] shown_levels@[k] != current_level,
            spawn == forall|k: int| 0 <= k < i ==> #[trigger] shown_levels@[k] != current_level,
        decreases shown_levels@.len() - i,
    {
        if shown_levels[i] != current_level {
            despawn = true;
        } else {
            spawn = false;
        }
        i = i + 1;
    }
    (despawn, spawn)
}

} // verus!
