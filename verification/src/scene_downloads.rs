use vstd::prelude::*;
use crate::parcel::Parcel;
use crate::text::{has_suffix, ends_with_text};
use crate::deploy::{pointer_parcel, parcel_from_pointer};

verus! {

/// The names of a list of texts.
pub open spec fn texts(names: Seq<String>) -> Seq<Seq<char>> {
    names.map_values(|s: String| s@)
}

/// The index of the first name that ends with `suffix`.
pub open spec fn first_with_suffix(names: Seq<Seq<char>>, suffix: Seq<char>) -> Option<int>
    decreases names.len(),
{
    if names.len() == 0 {
        None
    } else if has_suffix(names[0], suffix) {
        Some(0)
    } else {
        match first_with_suffix(names.drop_first(), suffix) {
            Some(i) => Some(i + 1),
            None => None,
        }
    }
}

/// The first file of a scene's content whose name ends with `suffix`
/// (the scene file is the first one ending with `scene.2dcl`).
pub fn find_first_with_suffix(names: &Vec<String>, suffix: &str) -> (r: Option<usize>)
    ensures
        match first_with_suffix(texts(names@), suffix@) {
            Some(i) => r matches Some(j) && j as int == i,
            None => r is None,
        },
{
    let ghost all = texts(names@);
    let mut k: usize = 0;
    proof {
        assert(all.subrange(0, all.len() as int) =~= all);
    }
    while k < names.len()
        invariant
            k <= names@.len(),
            all == texts(names@),
            first_with_suffix(all, suffix@) == (match first_with_suffix(all.subrange(k as int, all.len() as int), suffix@) {
                Some(i) => Some(i + k),
                None => None,
            }),
        decreases names@.len() - k,
    {
        proof {
            assert(all.subrange(k as int, all.len() as int).drop_first() =~= all.subrange(k + 1, all.len() as int));
        }
        if ends_with_text(names[k].as_str(), suffix) {
            return Some(k);
        }
        k = k + 1;
    }
    None
}

/// The scene description and the 2D scene file chosen among a scene's
/// content, going through the files in order and stopping as soon as
/// both are found: until then, a later `scene.2dcl` (or `scene.json`)
/// file replaces an earlier one.
pub open spec fn scene_downloads(names: Seq<Seq<char>>) -> (Option<int>, Option<int>)
    decreases names.len(),
{
    if names.len() == 0 {
        (None, None)
    } else {
        let (json, scene_2d) = scene_downloads(names.drop_last());
        let i = names.len() - 1;
        if json is Some && scene_2d is Some {
            (json, scene_2d)
        } else if has_suffix(names[i], "scene.2dcl"@) {
            (json, Some(i))
        } else if has_suffix(names[i], "scene.json"@) {
            (Some(i), scene_2d)
        } else {
            (json, scene_2d)
        }
    }
}

/// Chooses the scene description (`scene.json`) and the 2D scene file
/// (`scene.2dcl`) to download among a scene's content files.
pub fn select_scene_downloads(names: &Vec<String>) -> (r: (Option<usize>, Option<usize>))
    ensures
        r.0 matches Some(j) ==> j < names@.len(),
        r.1 matches Some(j) ==> j < names@.len(),
        (match r.0 { Some(j) => Some(j as int), None => None }) == scene_downloads(texts(names@)).0,
        (match r.1 { Some(j) => Some(j as int), None => None }) == scene_downloads(texts(names@)).1,
{
    let ghost all = texts(names@);
    let mut json: Option<usize> = None;
    let mut scene_2d: Option<usize> = None;
    let mut k: usize = 0;
    while k < names.len()
        invariant
            k <= names@.len(),
            all == texts(names@),
            json matches Some(j) ==> j < k,
            scene_2d matches Some(j) ==> j < k,
            (match json { Some(j) => Some(j as int), None => None }) == scene_downloads(all.subrange(0, k as int)).0,
            (match scene_2d { Some(j) => Some(j as int), None => None }) == scene_downloads(all.subrange(0, k as int)).1,
            !(json is Some && scene_2d is Some),
        decreases names@.len() - k,
    {
        proof {
            assert(all.subrange(0, k + 1).drop_last() =~= all.subrange(0, k as int));
            assert(all.subrange(0, k + 1)[k as int] == names@[k as int]@);
        }
        if ends_with_text(names[k].as_str(), "scene.2dcl") {
            scene_2d = Some(k);
            if json.is_some() {
                proof {
                    lemma_downloads_complete(all, k as int + 1);
                }
                return (json, scene_2d);
            }
        } else if ends_with_text(names[k].as_str(), "scene.json") {
            json = Some(k);
            if scene_2d.is_some() {
                proof {
                    lemma_downloads_complete(all, k as int + 1);
                }
                return (json, scene_2d);
            }
        }
        k = k + 1;
    }
    proof {
        assert(all.subrange(0, all.len() as int) =~= all);
    }
    (json, scene_2d)
}

/// Once both files are chosen in a prefix of the content, later files
/// change nothing.
proof fn lemma_downloads_complete(names: Seq<Seq<char>>, k: int)
    requires
        0 <= k <= names.len(),
        scene_downloads(names.subrange(0, k)).0 is Some,
        scene_downloads(names.subrange(0, k)).1 is Some,
    ensures
        scene_downloads(names) == scene_downloads(names.subrange(0, k)),
    decreases names.len() - k,
{
    if k < names.len() {
        assert(names.subrange(0, k + 1).drop_last() =~= names.subrange(0, k));
        lemma_downloads_complete(names, k + 1);
    } else {
        assert(names.subrange(0, k) =~= names);
    }
}

/// The parcels named by a scene's pointers, leaving out the pointers
/// that name none.
pub open spec fn pointer_parcels(pointers: Seq<Seq<char>>) -> Seq<Parcel>
    decreases pointers.len(),
{
    if pointers.len() == 0 {
        Seq::empty()
    } else {
        let rest = pointer_parcels(pointers.drop_last());
        match pointer_parcel(pointers.last()) {
            Some(p) => rest.push(p),
            None => rest,
        }
    }
}

/// The parcels of a scene, read from its pointers.
pub fn parcels_of_pointers(pointers: &Vec<String>) -> (parcels: Vec<Parcel>)
    ensures
        parcels@ == pointer_parcels(texts(pointers@)),
{
    let ghost all = texts(pointers@);
    let mut parcels: Vec<Parcel> = Vec::new();
    let mut k: usize = 0;
    while k < pointers.len()
        invariant
            k <= pointers@.len(),
            all == texts(pointers@),
            parcels@ == pointer_parcels(all.subrange(0, k as int)),
        decreases pointers@.len() - k,
    {
        proof {
            assert(all.subrange(0, k + 1).drop_last() =~= all.subrange(0, k as int));
            assert(all.subrange(0, k + 1).last() == pointers@[k as int]@);
        }
        match parcel_from_pointer(pointers[k].as_str()) {
            Some(p) => parcels.push(p),
            None => {},
        }
        k = k + 1;
    }
    proof {
        assert(all.subrange(0, all.len() as int) =~= all);
    }
    parcels
}

} // verus!
