use vstd::prelude::*;
use std::collections::HashMap;
use crate::parcel::Parcel;
use crate::roads::{RoadsData, parcel_key, key_of, lemma_key_round_trip, lemma_key_injective, is_road};
use crate::scene_maker::{SceneData, make_road_scene, road_scene_fits, road_scene_name,
    road_scene_entities};
use crate::entity::views;

verus! {

broadcast use vstd::std_specs::hash::group_hash_axioms;

/// Where the 2D scene of a group of parcels is stored: the path of its
/// scene file and the parcels the scene covers.
#[derive(Debug)]
pub struct SceneFileData {
    pub path: String,
    pub parcels: Vec<Parcel>,
}

/// A copy of a list of parcels.
pub fn copy_parcels(parcels: &Vec<Parcel>) -> (copy: Vec<Parcel>)
    ensures
        copy@ == parcels@,
{
    let mut copy: Vec<Parcel> = Vec::new();
    let mut i: usize = 0;
    while i < parcels.len()
        invariant
            i <= parcels.len(),
            copy@ == parcels@.subrange(0, i as int),
        decreases parcels.len() - i,
    {
        copy.push(parcels[i]);
        proof {
            assert(copy@ =~= parcels@.subrange(0, i + 1));
        }
        i = i + 1;
    }
    proof {
        assert(parcels@.subrange(0, parcels@.len() as int) =~= parcels@);
    }
    copy
}

impl Clone for SceneFileData {
    fn clone(&self) -> (copy: Self)
        ensures
            copy.path@ == self.path@,
            copy.parcels@ == self.parcels@,
    {
        SceneFileData { path: self.path.clone(), parcels: copy_parcels(&self.parcels) }
    }
}

/// Whether two scene file records hold the same path and parcels.
pub open spec fn same_file_data(a: SceneFileData, b: SceneFileData) -> bool {
    a.path@ == b.path@ && a.parcels@ == b.parcels@
}

/// The scene file of each parcel that has one on disk.
#[derive(Debug)]
pub struct SceneFilesMap {
    pub map: HashMap<u32, SceneFileData>,
}

impl SceneFilesMap {
    /// The scene file recorded for a parcel.
    pub closed spec fn entry(&self, p: Parcel) -> Option<SceneFileData> {
        let k = parcel_key(p) as u32;
        if self.map@.contains_key(k) {
            Some(self.map@[k])
        } else {
            None
        }
    }

    /// A map with no scene file.
    pub fn new() -> (m: SceneFilesMap)
        ensures
            forall|p: Parcel| m.entry(p) is None,
    {
        SceneFilesMap { map: HashMap::new() }
    }
}

/// The scene file recorded for a parcel, if any.
pub fn get_parcel_file_data(parcel: &Parcel, scene_files_map: &SceneFilesMap) -> (r: Option<SceneFileData>)
    ensures
        match scene_files_map.entry(*parcel) {
            Some(d) => r matches Some(c) && same_file_data(c, d),
            None => r is None,
        },
{
    let k = key_of(parcel);
    match scene_files_map.map.get(&k) {
        Some(d) => Some(d.clone()),
        None => None,
    }
}

/// Records the scene file at `path` for each parcel the scene covers;
/// the other parcels keep their record.
pub fn register_scene_file(scene_files_map: &mut SceneFilesMap, path: String, parcels: Vec<Parcel>)
    ensures
        forall|q: Parcel| #![trigger final(scene_files_map).entry(q)]
            if parcels@.contains(q) {
                final(scene_files_map).entry(q) matches Some(d) && d.path@ == path@ && d.parcels@ == parcels@
            } else {
                final(scene_files_map).entry(q) == old(scene_files_map).entry(q)
            },
{
    let data = SceneFileData { path, parcels };
    let mut i: usize = 0;
    while i < data.parcels.len()
        invariant
            i <= data.parcels.len(),
            forall|q: Parcel| #![trigger scene_files_map.entry(q)]
                if data.parcels@.subrange(0, i as int).contains(q) {
                    scene_files_map.entry(q) matches Some(d) && same_file_data(d, data)
                } else {
                    scene_files_map.entry(q) == old(scene_files_map).entry(q)
                },
        decreases data.parcels.len() - i,
    {
        let p = data.parcels[i];
        let k = key_of(&p);
        let copy = data.clone();
        let ghost before = scene_files_map.map@;
        let ghost pre = *scene_files_map;
        scene_files_map.map.insert(k, copy);
        proof {
            assert(scene_files_map.map@ == before.insert(k, copy));
            assert(same_file_data(copy, data));
            assert forall|q: Parcel| #![trigger scene_files_map.entry(q)]
                if data.parcels@.subrange(0, i + 1).contains(q) {
                    scene_files_map.entry(q) matches Some(d) && same_file_data(d, data)
                } else {
                    scene_files_map.entry(q) == old(scene_files_map).entry(q)
                } by {
                let _ = pre.entry(q);
                lemma_key_injective(q, p);
                lemma_key_round_trip(q);
                lemma_key_round_trip(p);
                if q == p {
                    assert(data.parcels@.subrange(0, i + 1)[i as int] == q);
                } else {
                    if data.parcels@.subrange(0, i + 1).contains(q) {
                        let m = choose|m: int| 0 <= m < i + 1 && #[trigger] data.parcels@.subrange(0, i + 1)[m] == q;
                        assert(data.parcels@.subrange(0, i as int)[m] == q);
                    }
                    if data.parcels@.subrange(0, i as int).contains(q) {
                        let m = choose|m: int| 0 <= m < i && #[trigger] data.parcels@.subrange(0, i as int)[m] == q;
                        assert(data.parcels@.subrange(0, i + 1)[m] == q);
                    }
                }
            }
        }
        i = i + 1;
    }
    proof {
        assert(data.parcels@.subrange(0, data.parcels@.len() as int) =~= data.parcels@);
    }
}

/// What a read gives back of a registration: after the scene file of a
/// scene is recorded, each of its parcels reads that path and those
/// parcels, and every other parcel reads what it read before.
pub proof fn lemma_read_after_register(
    before: SceneFilesMap,
    after: SceneFilesMap,
    path: Seq<char>,
    parcels: Seq<Parcel>,
    q: Parcel,
)
    requires
        forall|p: Parcel| #![trigger after.entry(p)]
            if parcels.contains(p) {
                after.entry(p) matches Some(d) && d.path@ == path && d.parcels@ == parcels
            } else {
                after.entry(p) == before.entry(p)
            },
    ensures
        parcels.contains(q) ==> (after.entry(q) matches Some(d) && d.path@ == path && d.parcels@ == parcels),
        !parcels.contains(q) ==> after.entry(q) == before.entry(q),
{
    let _ = after.entry(q);
}

/// Where the scene of a parcel comes from: the road scene built for a
/// road parcel, the scene file recorded for it, or nothing.
#[derive(Debug)]
pub enum SceneSource {
    Road(SceneData),
    File(SceneFileData),
    Missing,
}

/// The scene of a parcel: a road parcel gets its road scene; another
/// parcel the scene file recorded for it, which the caller reads.
pub fn get_scene(roads_data: &RoadsData, scene_files_map: &SceneFilesMap, parcel: &Parcel) -> (r: SceneSource)
    requires
        roads_data.has(*parcel) ==> road_scene_fits(*roads_data, *parcel),
    ensures
        roads_data.has(*parcel) ==> (r matches SceneSource::Road(scene) && {
            &&& scene.name@ == road_scene_name(*parcel)
            &&& views(scene.entities@) == road_scene_entities(*roads_data, *parcel)
            &&& scene.parcels@ == seq![*parcel]
        }),
        !roads_data.has(*parcel) ==> match scene_files_map.entry(*parcel) {
            Some(d) => r matches SceneSource::File(c) && same_file_data(c, d),
            None => r is Missing,
        },
{
    if is_road(parcel, roads_data) {
        return SceneSource::Road(make_road_scene(roads_data, parcel));
    }
    match get_parcel_file_data(parcel, scene_files_map) {
        Some(d) => SceneSource::File(d),
        None => SceneSource::Missing,
    }
}

} // verus!
