use vstd::prelude::*;
use crate::parcel::{Parcel, get_all_parcels_around, in_square, square_fits, ring_of, parcels_around};

verus! {

broadcast use vstd::seq_lib::group_seq_properties;

/// What the streaming decisions read of a spawned scene.
#[derive(Debug, Clone)]
pub struct SpawnedScene {
    pub parcels: Vec<Parcel>,
    pub is_default: bool,
    /// Id of the level spawned under the scene, once there is one.
    pub level_id: Option<usize>,
}

/// Whether some scene of `scenes` covers `p`.
pub open spec fn covered(scenes: Seq<SpawnedScene>, p: Parcel) -> bool {
    exists|k: int| 0 <= k < scenes.len() && (#[trigger] scenes[k]).parcels@.contains(p)
}

/// The parcels of `s`, in order, that satisfy `keep`.
pub open spec fn keep_parcels(s: Seq<Parcel>, keep: spec_fn(Parcel) -> bool) -> Seq<Parcel>
    decreases s.len(),
{
    if s.len() == 0 {
        Seq::empty()
    } else {
        (if keep(s[0]) { seq![s[0]] } else { Seq::empty() }) + keep_parcels(s.drop_first(), keep)
    }
}

pub proof fn lemma_keep_parcels_contains(s: Seq<Parcel>, keep: spec_fn(Parcel) -> bool, p: Parcel)
    ensures
        keep_parcels(s, keep).contains(p) <==> (s.contains(p) && keep(p)),
    decreases s.len(),
{
    if s.len() > 0 {
        lemma_keep_parcels_contains(s.drop_first(), keep, p);
        assert(s.contains(p) <==> (s[0] == p || s.drop_first().contains(p))) by {
            if s.contains(p) {
                let k = choose|k: int| 0 <= k < s.len() && s[k] == p;
                if k > 0 {
                    assert(s.drop_first()[k - 1] == p);
                }
            }
            if s.drop_first().contains(p) {
                let k = choose|k: int| 0 <= k < s.drop_first().len() && s.drop_first()[k] == p;
                assert(s[k + 1] == p);
            }
        }
    }
}

/// Whether a scene of `scenes` covers `parcel`.
pub fn is_covered(scenes: &Vec<SpawnedScene>, parcel: &Parcel) -> (r: bool)
    ensures
        r == covered(scenes@, *parcel),
{
    let mut k: usize = 0;
    while k < scenes.len()
        invariant
            k <= scenes.len(),
            forall|j: int| 0 <= j < k ==> !(#[trigger] scenes@[j]).parcels@.contains(*parcel),
        decreases scenes.len() - k,
    {
        if contains_parcel(&scenes[k].parcels, parcel) {
            return true;
        }
        k = k + 1;
    }
    false
}

/// Whether `parcels` holds `parcel`.
pub fn contains_parcel(parcels: &Vec<Parcel>, parcel: &Parcel) -> (r: bool)
    ensures
        r == parcels@.contains(*parcel),
{
    let mut k: usize = 0;
    while k < parcels.len()
        invariant
            k <= parcels.len(),
            forall|j: int| 0 <= j < k ==> parcels@[j] != *parcel,
        decreases parcels.len() - k,
    {
        if parcels[k] == *parcel {
            return true;
        }
        k = k + 1;
    }
    false
}

/// Drops from the queue of parcels being spawned those that a spawned
/// scene covers by now; the others keep their order.
pub fn spawning_queue_cleaner(spawning_queue: &mut Vec<Parcel>, scenes: &Vec<SpawnedScene>)
    ensures
        final(spawning_queue)@ == keep_parcels(old(spawning_queue)@, |p: Parcel| !covered(scenes@, p)),
{
    let ghost initial = spawning_queue@;
    let ghost keep = |p: Parcel| !covered(scenes@, p);
    let mut i: usize = spawning_queue.len();
    proof {
        assert(initial.subrange(i as int, initial.len() as int).len() == 0);
        assert(spawning_queue@ =~= initial.subrange(0, i as int) + keep_parcels(initial.subrange(i as int, initial.len() as int), keep));
    }
    while i > 0
        invariant
            i <= initial.len(),
            keep == (|p: Parcel| !covered(scenes@, p)),
            spawning_queue@ == initial.subrange(0, i as int) + keep_parcels(initial.subrange(i as int, initial.len() as int), keep),
        decreases i,
    {
        i = i - 1;
        let ghost tail = initial.subrange(i as int + 1, initial.len() as int);
        proof {
            let s = initial.subrange(i as int, initial.len() as int);
            assert(s.drop_first() =~= tail);
            assert(s[0] == initial[i as int]);
            assert(spawning_queue@[i as int] == initial[i as int]);
        }
        let parcel = spawning_queue[i];
        if is_covered(scenes, &parcel) {
            spawning_queue.remove(i);
            proof {
                assert(spawning_queue@ =~= initial.subrange(0, i as int) + keep_parcels(initial.subrange(i as int, initial.len() as int), keep));
            }
        } else {
            proof {
                assert(spawning_queue@ =~= initial.subrange(0, i as int) + keep_parcels(initial.subrange(i as int, initial.len() as int), keep));
            }
        }
    }
    proof {
        assert(initial.subrange(0, initial.len() as int) =~= initial);
    }
}

/// Drops from `parcels` those that `spawning` holds; the others keep
/// their order.
fn remove_spawning(parcels: &mut Vec<Parcel>, spawning: &Vec<Parcel>)
    ensures
        final(parcels)@ == keep_parcels(old(parcels)@, |p: Parcel| !spawning@.contains(p)),
{
    let ghost initial = parcels@;
    let ghost keep = |p: Parcel| !spawning@.contains(p);
    let mut i: usize = parcels.len();
    proof {
        assert(parcels@ =~= initial.subrange(0, i as int) + keep_parcels(initial.subrange(i as int, initial.len() as int), keep));
    }
    while i > 0
        invariant
            i <= initial.len(),
            keep == (|p: Parcel| !spawning@.contains(p)),
            parcels@ == initial.subrange(0, i as int) + keep_parcels(initial.subrange(i as int, initial.len() as int), keep),
        decreases i,
    {
        i = i - 1;
        proof {
            let s = initial.subrange(i as int, initial.len() as int);
            assert(s.drop_first() =~= initial.subrange(i as int + 1, initial.len() as int));
            assert(parcels@[i as int] == initial[i as int]);
        }
        let parcel = parcels[i];
        if contains_parcel(spawning, &parcel) {
            parcels.remove(i);
        }
        proof {
            assert(parcels@ =~= initial.subrange(0, i as int) + keep_parcels(initial.subrange(i as int, initial.len() as int), keep));
        }
    }
    proof {
        assert(initial.subrange(0, initial.len() as int) =~= initial);
    }
}

proof fn lemma_keep_parcels_no_dup(s: Seq<Parcel>, keep: spec_fn(Parcel) -> bool)
    requires
        s.no_duplicates(),
    ensures
        keep_parcels(s, keep).no_duplicates(),
    decreases s.len(),
{
    if s.len() > 0 {
        let rest = s.drop_first();
        assert(rest.no_duplicates());
        lemma_keep_parcels_no_dup(rest, keep);
        lemma_keep_parcels_contains(rest, keep, s[0]);
        assert(!rest.contains(s[0])) by {
            if rest.contains(s[0]) {
                let k = choose|k: int| 0 <= k < rest.len() && rest[k] == s[0];
                assert(s[k + 1] == s[0]);
            }
        }
        let head: Seq<Parcel> = if keep(s[0]) { seq![s[0]] } else { Seq::empty() };
        let t = keep_parcels(rest, keep);
        assert forall|a: int, b: int| 0 <= a < b < (head + t).len() implies (head + t)[a] != (head + t)[b] by {
            if a < head.len() {
                assert(t.contains((head + t)[b]));
            }
        }
    }
}

/// Whether parcels come ring by ring, outwards from `center`.
pub open spec fn ring_sorted(s: Seq<Parcel>, center: Parcel) -> bool {
    forall|a: int, b: int| 0 <= a < b < s.len() ==> ring_of(center, #[trigger] s[a]) <= ring_of(center, #[trigger] s[b])
}

proof fn lemma_keep_parcels_ring_sorted(s: Seq<Parcel>, keep: spec_fn(Parcel) -> bool, center: Parcel)
    requires
        ring_sorted(s, center),
    ensures
        ring_sorted(keep_parcels(s, keep), center),
    decreases s.len(),
{
    if s.len() > 0 {
        let rest = s.drop_first();
        assert(ring_sorted(rest, center)) by {
            assert forall|a: int, b: int| 0 <= a < b < rest.len()
                implies ring_of(center, #[trigger] rest[a]) <= ring_of(center, #[trigger] rest[b]) by {
                assert(rest[a] == s[a + 1] && rest[b] == s[b + 1]);
            }
        }
        lemma_keep_parcels_ring_sorted(rest, keep, center);
        let head: Seq<Parcel> = if keep(s[0]) { seq![s[0]] } else { Seq::empty() };
        let t = keep_parcels(rest, keep);
        assert forall|a: int, b: int| 0 <= a < b < (head + t).len()
            implies ring_of(center, #[trigger] (head + t)[a]) <= ring_of(center, #[trigger] (head + t)[b]) by {
            if a < head.len() {
                let q = (head + t)[b];
                lemma_keep_parcels_contains(rest, keep, q);
                assert(t.contains(q));
                let k = choose|k: int| 0 <= k < rest.len() && rest[k] == q;
                assert(s[k + 1] == q);
                assert(ring_of(center, s[0]) <= ring_of(center, s[k + 1]));
            }
        }
    }
}

/// Chooses the parcels to download around the player: in the overworld
/// (level 0), every parcel less than `min_render_distance` rings away
/// that no spawned scene covers and that is not being spawned; in a
/// level, the queue is left as it is.
pub fn scene_manager(
    current_level: usize,
    player_parcel: &Parcel,
    min_render_distance: usize,
    scenes: &Vec<SpawnedScene>,
    spawning_queue: &Vec<Parcel>,
    download_queue: &mut Vec<Parcel>,
)
    requires
        current_level == 0 ==> square_fits(*player_parcel, (min_render_distance as i16) as int),
    ensures
        current_level != 0 ==> final(download_queue)@ == old(download_queue)@,
        current_level == 0 ==> forall|p: Parcel| final(download_queue)@.contains(p) <==> (
            in_square(*player_parcel, (min_render_distance as i16) as int, p)
            && !covered(scenes@, p) && !spawning_queue@.contains(p)),
        current_level == 0 ==> final(download_queue)@.no_duplicates(),
        current_level == 0 ==> ring_sorted(final(download_queue)@, *player_parcel),
        current_level == 0 ==> final(download_queue)@ == keep_parcels(
            keep_parcels(parcels_around(*player_parcel, (min_render_distance as i16) as int), |p: Parcel| !covered(scenes@, p)),
            |p: Parcel| !spawning_queue@.contains(p)),
{
    if current_level != 0 {
        return;
    }
    let mut parcels_to_spawn = get_all_parcels_around(player_parcel, min_render_distance);
    let ghost around = parcels_to_spawn@;
    spawning_queue_cleaner(&mut parcels_to_spawn, scenes);
    let ghost first = parcels_to_spawn@;
    remove_spawning(&mut parcels_to_spawn, spawning_queue);
    proof {
        let k1 = |p: Parcel| !covered(scenes@, p);
        let k2 = |p: Parcel| !spawning_queue@.contains(p);
        lemma_keep_parcels_no_dup(around, k1);
        lemma_keep_parcels_no_dup(first, k2);
        lemma_keep_parcels_ring_sorted(around, k1, *player_parcel);
        lemma_keep_parcels_ring_sorted(first, k2, *player_parcel);
        assert forall|p: Parcel| parcels_to_spawn@.contains(p) <==> (
            in_square(*player_parcel, (min_render_distance as i16) as int, p)
            && !covered(scenes@, p) && !spawning_queue@.contains(p)) by {
            lemma_keep_parcels_contains(around, k1, p);
            lemma_keep_parcels_contains(first, k2, p);
        }
    }
    *download_queue = parcels_to_spawn;
}

/// Whether a scene covers a parcel that lies in the square of radius
/// `n - 1` around `center`.
pub open spec fn in_range(scene: SpawnedScene, center: Parcel, n: int) -> bool {
    exists|p: Parcel| #[trigger] scene.parcels@.contains(p) && in_square(center, n, p)
}

/// Whether two scenes cover a common parcel.
pub open spec fn overlap(a: SpawnedScene, b: SpawnedScene) -> bool {
    exists|p: Parcel| #[trigger] a.parcels@.contains(p) && b.parcels@.contains(p)
}

/// Whether the two parcel lists hold a common parcel.
fn share_parcel(a: &Vec<Parcel>, b: &Vec<Parcel>) -> (r: bool)
    ensures
        r == exists|p: Parcel| #[trigger] a@.contains(p) && b@.contains(p),
{
    let mut k: usize = 0;
    while k < a.len()
        invariant
            k <= a.len(),
            forall|j: int| 0 <= j < k ==> !b@.contains(#[trigger] a@[j]),
        decreases a.len() - k,
    {
        if contains_parcel(b, &a[k]) {
            assert(a@.contains(a@[k as int]));
            return true;
        }
        k = k + 1;
    }
    proof {
        assert forall|p: Parcel| !(#[trigger] a@.contains(p) && b@.contains(p)) by {
            if a@.contains(p) {
                let j = choose|j: int| 0 <= j < a@.len() && a@[j] == p;
            }
        }
    }
    false
}

fn contains_index(v: &Vec<usize>, i: usize) -> (r: bool)
    ensures
        r == v@.contains(i),
{
    let mut k: usize = 0;
    while k < v.len()
        invariant
            k <= v.len(),
            forall|j: int| 0 <= j < k ==> v@[j] != i,
        decreases v.len() - k,
    {
        if v[k] == i {
            return true;
        }
        k = k + 1;
    }
    false
}

/// The first pass of the despawner: the indices, in order, of the first
/// `i` scenes that have no parcel in range.
pub open spec fn out_of_range_indices(scenes: Seq<SpawnedScene>, center: Parcel, n: int, i: int) -> Seq<usize>
    decreases i,
{
    if i <= 0 {
        Seq::empty()
    } else {
        let before = out_of_range_indices(scenes, center, n, i - 1);
        if !in_range(scenes[i - 1], center, n) {
            before.push((i - 1) as usize)
        } else {
            before
        }
    }
}

/// Scene `e1` met with scene `e2`, `d` despawned so far: when `e2` is not
/// despawned yet and two different scenes, one of them a default scene,
/// overlap, the default one (`e1` first) is despawned.
pub open spec fn overlap_step(scenes: Seq<SpawnedScene>, d: Seq<usize>, e1: int, e2: int) -> Seq<usize> {
    if !d.contains(e2 as usize) && e1 != e2 && (scenes[e1].is_default || scenes[e2].is_default)
        && overlap(scenes[e1], scenes[e2]) {
        if scenes[e1].is_default {
            d.push(e1 as usize)
        } else {
            d.push(e2 as usize)
        }
    } else {
        d
    }
}

/// Scene `e1` met, in order, with the first `e2` scenes.
pub open spec fn overlap_row(scenes: Seq<SpawnedScene>, d: Seq<usize>, e1: int, e2: int) -> Seq<usize>
    decreases e2,
{
    if e2 <= 0 {
        d
    } else {
        overlap_step(scenes, overlap_row(scenes, d, e1, e2 - 1), e1, e2 - 1)
    }
}

/// The second pass of the despawner over the first `e1` scenes: each
/// scene not despawned yet is met with every scene, in order.
pub open spec fn overlap_pass(scenes: Seq<SpawnedScene>, d: Seq<usize>, e1: int) -> Seq<usize>
    decreases e1,
{
    if e1 <= 0 {
        d
    } else {
        let before = overlap_pass(scenes, d, e1 - 1);
        if before.contains((e1 - 1) as usize) {
            before
        } else {
            overlap_row(scenes, before, e1 - 1, scenes.len() as int)
        }
    }
}

/// The indices the despawner lists, in the order it lists them.
pub open spec fn despawned_scenes(scenes: Seq<SpawnedScene>, center: Parcel, n: int) -> Seq<usize> {
    overlap_pass(scenes, out_of_range_indices(scenes, center, n, scenes.len() as int), scenes.len() as int)
}

/// Chooses the scenes to despawn, by index: every scene with no parcel
/// less than `max_render_distance` rings from the player, then, of two
/// remaining scenes that overlap where one of them is a default scene,
/// the default one, meeting the scenes in the order given. An index may
/// be listed more than once.
pub fn default_scenes_despawner(player_parcel: &Parcel, max_render_distance: usize, scenes: &Vec<SpawnedScene>) -> (despawned: Vec<usize>)
    requires
        square_fits(*player_parcel, (max_render_distance as i16) as int),
    ensures
        despawned@ == despawned_scenes(scenes@, *player_parcel, (max_render_distance as i16) as int),
        forall|i: int| 0 <= i < scenes@.len() && !in_range(#[trigger] scenes@[i], *player_parcel, (max_render_distance as i16) as int)
            ==> despawned@.contains(i as usize),
        forall|k: int| 0 <= k < despawned@.len() ==> {
            let i = #[trigger] despawned@[k] as int;
            &&& 0 <= i < scenes@.len()
            &&& (!in_range(scenes@[i], *player_parcel, (max_render_distance as i16) as int)
                || (scenes@[i].is_default && exists|j: int| 0 <= j < scenes@.len() && j != i && overlap(scenes@[i], #[trigger] scenes@[j])))
        },
        forall|a: int, b: int| 0 <= a < scenes@.len() && 0 <= b < scenes@.len() && a != b
            && (scenes@[a].is_default || scenes@[b].is_default) && overlap(#[trigger] scenes@[a], #[trigger] scenes@[b])
            ==> despawned@.contains(a as usize) || despawned@.contains(b as usize),
{
    let ghost n = (max_render_distance as i16) as int;
    let c = *player_parcel;
    let parcels_to_keep = get_all_parcels_around(player_parcel, max_render_distance);
    let mut despawned: Vec<usize> = Vec::new();
    let len = scenes.len();

    let mut i: usize = 0;
    while i < len
        invariant
            len == scenes@.len(),
            i <= len,
            c == *player_parcel,
            n == (max_render_distance as i16) as int,
            forall|p: Parcel| parcels_to_keep@.contains(p) <==> in_square(c, n, p),
            despawned@ == out_of_range_indices(scenes@, c, n, i as int),
            forall|j: int| 0 <= j < i && !in_range(#[trigger] scenes@[j], c, n) ==> despawned@.contains(j as usize),
            forall|k: int| 0 <= k < despawned@.len() ==> {
                let j = #[trigger] despawned@[k] as int;
                0 <= j < scenes@.len() && !in_range(scenes@[j], c, n)
            },
        decreases len - i,
    {
        let keep = share_parcel(&parcels_to_keep, &scenes[i].parcels);
        proof {
            if keep {
                let p = choose|p: Parcel| parcels_to_keep@.contains(p) && scenes@[i as int].parcels@.contains(p);
                assert(scenes@[i as int].parcels@.contains(p) && in_square(c, n, p));
            } else {
                assert forall|p: Parcel| !(#[trigger] scenes@[i as int].parcels@.contains(p) && in_square(c, n, p)) by {
                    if in_square(c, n, p) {
                        assert(parcels_to_keep@.contains(p));
                    }
                }
            }
        }
        if !keep {
            despawned.push(i);
        }
        i = i + 1;
    }

    let ghost first = despawned@;
    let mut e1: usize = 0;
    while e1 < len
        invariant
            len == scenes@.len(),
            e1 <= len,
            first == out_of_range_indices(scenes@, c, n, len as int),
            despawned@ == overlap_pass(scenes@, first, e1 as int),
            c == *player_parcel,
            n == (max_render_distance as i16) as int,
            forall|j: int| 0 <= j < len && !in_range(#[trigger] scenes@[j], c, n) ==> despawned@.contains(j as usize),
            forall|k: int| 0 <= k < despawned@.len() ==> {
                let j = #[trigger] despawned@[k] as int;
                &&& 0 <= j < scenes@.len()
                &&& (!in_range(scenes@[j], c, n)
                    || (scenes@[j].is_default && exists|m: int| 0 <= m < scenes@.len() && m != j && overlap(scenes@[j], #[trigger] scenes@[m])))
            },
            forall|a: int, b: int| 0 <= a < e1 && 0 <= b < len && a != b
                && (scenes@[a].is_default || scenes@[b].is_default) && overlap(#[trigger] scenes@[a], #[trigger] scenes@[b])
                ==> despawned@.contains(a as usize) || despawned@.contains(b as usize),
        decreases len - e1,
    {
        if !contains_index(&despawned, e1) {
            let ghost start = despawned@;
            let mut e2: usize = 0;
            while e2 < len
                invariant
                    len == scenes@.len(),
                    e1 < len,
                    e2 <= len,
                    despawned@ == overlap_row(scenes@, start, e1 as int, e2 as int),
                    c == *player_parcel,
                    n == (max_render_distance as i16) as int,
                    forall|j: int| 0 <= j < len && !in_range(#[trigger] scenes@[j], c, n) ==> despawned@.contains(j as usize),
                    forall|k: int| 0 <= k < despawned@.len() ==> {
                        let j = #[trigger] despawned@[k] as int;
                        &&& 0 <= j < scenes@.len()
                        &&& (!in_range(scenes@[j], c, n)
                            || (scenes@[j].is_default && exists|m: int| 0 <= m < scenes@.len() && m != j && overlap(scenes@[j], #[trigger] scenes@[m])))
                    },
                    forall|a: int, b: int| 0 <= a < e1 && 0 <= b < len && a != b
                        && (scenes@[a].is_default || scenes@[b].is_default) && overlap(#[trigger] scenes@[a], #[trigger] scenes@[b])
                        ==> despawned@.contains(a as usize) || despawned@.contains(b as usize),
                    forall|b: int| 0 <= b < e2 && e1 != b
                        && (scenes@[e1 as int].is_default || scenes@[b].is_default) && overlap(scenes@[e1 as int], #[trigger] scenes@[b])
                        ==> despawned@.contains(e1) || despawned@.contains(b as usize),
                decreases len - e2,
            {
                if !contains_index(&despawned, e2) {
                    let d1 = scenes[e1].is_default;
                    let d2 = scenes[e2].is_default;
                    if e1 != e2 && (d1 || d2) {
                        if share_parcel(&scenes[e1].parcels, &scenes[e2].parcels) {
                            proof {
                                let p = choose|p: Parcel| scenes@[e1 as int].parcels@.contains(p) && scenes@[e2 as int].parcels@.contains(p);
                                assert(overlap(scenes@[e1 as int], scenes@[e2 as int]));
                                assert(overlap(scenes@[e2 as int], scenes@[e1 as int]));
                            }
                            if d1 {
                                despawned.push(e1);
                            } else if d2 {
                                despawned.push(e2);
                            }
                        }
                    }
                }
                e2 = e2 + 1;
            }
        }
        proof {
            assert forall|a: int, b: int| 0 <= a < e1 + 1 && 0 <= b < len && a != b
                && (scenes@[a].is_default || scenes@[b].is_default) && overlap(#[trigger] scenes@[a], #[trigger] scenes@[b])
                implies despawned@.contains(a as usize) || despawned@.contains(b as usize) by {
                if a == e1 as int && despawned@.contains(e1) {
                }
            }
        }
        e1 = e1 + 1;
    }
    despawned
}

/// Decides whether the player's level must be respawned: the first
/// scene that covers the player's parcel, if its spawned level is not
/// the player's level, is returned, to be spawned again at the player's
/// level after every scene is despawned.
pub fn level_changer(current_level: usize, current_parcel: &Parcel, scenes: &Vec<SpawnedScene>) -> (respawn: Option<usize>)
    ensures
        match respawn {
            Some(k) => {
                &&& 0 <= k < scenes@.len()
                &&& scenes@[k as int].parcels@.contains(*current_parcel)
                &&& forall|j: int| 0 <= j < k ==> !(#[trigger] scenes@[j]).parcels@.contains(*current_parcel)
                &&& scenes@[k as int].level_id matches Some(id) && id != current_level
            },
            None => forall|k: int| 0 <= k < scenes@.len() && (#[trigger] scenes@[k]).parcels@.contains(*current_parcel)
                && (forall|j: int| 0 <= j < k ==> !(#[trigger] scenes@[j]).parcels@.contains(*current_parcel))
                ==> !(scenes@[k].level_id matches Some(id) && id != current_level),
        },
{
    let mut k: usize = 0;
    while k < scenes.len()
        invariant
            k <= scenes.len(),
            forall|j: int| 0 <= j < k ==> !(#[trigger] scenes@[j]).parcels@.contains(*current_parcel),
        decreases scenes.len() - k,
    {
        if contains_parcel(&scenes[k].parcels, current_parcel) {
            match scenes[k].level_id {
                Some(id) => {
                    if id != current_level {
                        return Some(k);
                    }
                },
                None => {},
            }
            return None;
        }
        k = k + 1;
    }
    None
}

/// Index of the first level named `name`, or 0 when none is: the level
/// a level-change trigger leads to.
pub fn level_index_by_name(level_names: &Vec<String>, name: &String) -> (index: usize)
    ensures
        (exists|i: int| 0 <= i < level_names@.len() && (#[trigger] level_names@[i])@ == name@) ==> {
            &&& index < level_names@.len()
            &&& level_names@[index as int]@ == name@
            &&& forall|j: int| 0 <= j < index ==> (#[trigger] level_names@[j])@ != name@
        },
        !(exists|i: int| 0 <= i < level_names@.len() && (#[trigger] level_names@[i])@ == name@) ==> index == 0,
{
    let mut i: usize = 0;
    while i < level_names.len()
        invariant
            i <= level_names.len(),
            forall|j: int| 0 <= j < i ==> (#[trigger] level_names@[j])@ != name@,
        decreases level_names.len() - i,
    {
        if level_names[i] == *name {
            return i;
        }
        i = i + 1;
    }
    0
}

} // verus!
