use vstd::prelude::*;
use std::collections::HashMap;
use crate::parcel::Parcel;
use vstd::std_specs::iter::IteratorSpec;

verus! {

broadcast use {vstd::std_specs::hash::group_hash_axioms, vstd::seq_lib::group_seq_properties};

/// Injective numbering of the parcels, used as the key of the road map.
pub open spec fn parcel_key(p: Parcel) -> int {
    (p.0 + 32768) * 65536 + (p.1 + 32768)
}

/// The parcel that a key stands for.
pub open spec fn key_parcel(k: int) -> Parcel {
    Parcel((k / 65536 - 32768) as i16, (k % 65536 - 32768) as i16)
}

pub proof fn lemma_key_round_trip(p: Parcel)
    ensures
        0 <= parcel_key(p) <= u32::MAX,
        key_parcel(parcel_key(p)) == p,
{
    let a = p.0 + 32768;
    let b = p.1 + 32768;
    assert(0 <= a < 65536 && 0 <= b < 65536);
    vstd::arithmetic::div_mod::lemma_fundamental_div_mod_converse(parcel_key(p), 65536, a, b);
}

pub proof fn lemma_key_injective(p: Parcel, q: Parcel)
    ensures
        parcel_key(p) == parcel_key(q) ==> p == q,
{
    lemma_key_round_trip(p);
    lemma_key_round_trip(q);
}

/// The set of parcels that hold a road.
#[derive(Debug, Clone)]
pub struct RoadsData {
    pub parcel_map: HashMap<u32, ()>,
}

impl RoadsData {
    /// The parcels of the map: those whose key the map holds.
    pub closed spec fn has(&self, p: Parcel) -> bool {
        self.parcel_map@.contains_key(parcel_key(p) as u32)
    }

    /// An empty road map.
    pub fn new() -> (r: RoadsData)
        ensures
            forall|p: Parcel| !r.has(p),
    {
        RoadsData { parcel_map: HashMap::new() }
    }
}

pub(crate) fn key_of(p: &Parcel) -> (k: u32)
    ensures
        k as int == parcel_key(*p),
{
    proof { lemma_key_round_trip(*p); }
    let a: u32 = (p.0 as i32 + 32768) as u32;
    let b: u32 = (p.1 as i32 + 32768) as u32;
    a * 65536 + b
}

/// Whether `parcel` holds a road.
pub fn is_road(parcel: &Parcel, roads_data: &RoadsData) -> (r: bool)
    ensures
        r == roads_data.has(*parcel),
{
    let k = key_of(parcel);
    roads_data.parcel_map.get(&k).is_some()
}

/// Marks `parcel` as a road; every other parcel keeps its state.
pub fn add_road_at_parcel(parcel: &Parcel, roads_data: &mut RoadsData)
    ensures
        forall|q: Parcel| #[trigger] final(roads_data).has(q) == (q == *parcel || old(roads_data).has(q)),
{
    let k = key_of(parcel);
    roads_data.parcel_map.insert(k, ());
    proof {
        assert forall|q: Parcel| #[trigger] roads_data.has(q) == (q == *parcel || old(roads_data).has(q)) by {
            lemma_key_injective(q, *parcel);
            lemma_key_round_trip(q);
            lemma_key_round_trip(*parcel);
        }
    }
}

/// Removes the road of `parcel`; every other parcel keeps its state.
pub fn remove_road_at_parcel(parcel: &Parcel, roads_data: &mut RoadsData)
    ensures
        forall|q: Parcel| #[trigger] final(roads_data).has(q) == (q != *parcel && old(roads_data).has(q)),
{
    let k = key_of(parcel);
    roads_data.parcel_map.remove(&k);
    proof {
        assert forall|q: Parcel| #[trigger] roads_data.has(q) == (q != *parcel && old(roads_data).has(q)) by {
            lemma_key_injective(q, *parcel);
            lemma_key_round_trip(q);
            lemma_key_round_trip(*parcel);
        }
    }
}

/// Adding the road of a parcel and then removing it leaves that parcel
/// without a road and every other parcel as it was.
pub proof fn lemma_remove_undoes_add(before: RoadsData, added: RoadsData, after: RoadsData, parcel: Parcel)
    requires
        forall|q: Parcel| #[trigger] added.has(q) == (q == parcel || before.has(q)),
        forall|q: Parcel| #[trigger] after.has(q) == (q != parcel && added.has(q)),
    ensures
        !after.has(parcel),
        forall|q: Parcel| q != parcel ==> #[trigger] after.has(q) == before.has(q),
{
    assert forall|q: Parcel| q != parcel implies #[trigger] after.has(q) == before.has(q) by {
        assert(added.has(q) == before.has(q));
    }
}

/// The road map that holds exactly the given parcels.
pub fn roads_data_from_parcels(parcels: &Vec<Parcel>) -> (r: RoadsData)
    ensures
        forall|p: Parcel| r.has(p) <==> parcels@.contains(p),
{
    let mut roads_data = RoadsData::new();
    let mut i: usize = 0;
    while i < parcels.len()
        invariant
            i <= parcels.len(),
            forall|p: Parcel| roads_data.has(p) <==> parcels@.subrange(0, i as int).contains(p),
        decreases parcels.len() - i,
    {
        let p = parcels[i];
        add_road_at_parcel(&p, &mut roads_data);
        proof {
            assert(parcels@.subrange(0, i as int + 1) == parcels@.subrange(0, i as int).push(p));
        }
        i = i + 1;
    }
    proof {
        assert(parcels@.subrange(0, parcels.len() as int) == parcels@);
    }
    roads_data
}

proof fn lemma_parcel_of_key(k: u32)
    ensures
        parcel_key(key_parcel(k as int)) == k as int,
{
    vstd::arithmetic::div_mod::lemma_fundamental_div_mod(k as int, 65536);
    assert(0 <= k as int / 65536 < 65536) by {
        vstd::arithmetic::div_mod::lemma_div_is_ordered(k as int, u32::MAX as int, 65536);
    }
}

fn parcel_of_key(k: u32) -> (p: Parcel)
    ensures
        p == key_parcel(k as int),
{
    proof { lemma_parcel_of_key(k); }
    let x: i32 = (k / 65536) as i32 - 32768;
    let y: i32 = (k % 65536) as i32 - 32768;
    Parcel(x as i16, y as i16)
}

impl RoadsData {
    /// Every road parcel of the map, each once, in the order in which
    /// the map is walked.
    pub fn road_parcels(&self) -> (parcels: Vec<Parcel>)
        ensures
            forall|p: Parcel| parcels@.contains(p) <==> self.has(p),
            parcels@.no_duplicates(),
    {
        let mut parcels: Vec<Parcel> = Vec::new();
        let ghost keys_seq = vstd::std_specs::hash::spec_keys_iter(&self.parcel_map).remaining().unref();
        for k in it: self.parcel_map.keys()
            invariant
                keys_seq == it.seq().unref(),
                keys_seq.to_set() == self.parcel_map@.dom(),
                keys_seq.no_duplicates(),
                parcels@.len() == it.index(),
                forall|j: int| 0 <= j < it.index() ==> #[trigger] parcels@[j] == key_parcel(keys_seq[j] as int),
        {
            let p = parcel_of_key(*k);
            parcels.push(p);
        }
        proof {
            assert forall|p: Parcel| parcels@.contains(p) <==> self.has(p) by {
                lemma_key_round_trip(p);
                if parcels@.contains(p) {
                    let j = choose|j: int| 0 <= j < parcels@.len() && parcels@[j] == p;
                    lemma_parcel_of_key(keys_seq[j]);
                    assert(keys_seq.to_set().contains(keys_seq[j]));
                }
                if self.has(p) {
                    let k = parcel_key(p) as u32;
                    assert(keys_seq.to_set().contains(k));
                    let j = choose|j: int| 0 <= j < keys_seq.len() && keys_seq[j] == k;
                    assert(parcels@[j] == p);
                }
            }
            assert forall|a: int, b: int| 0 <= a < b < parcels@.len() implies parcels@[a] != parcels@[b] by {
                lemma_parcel_of_key(keys_seq[a]);
                lemma_parcel_of_key(keys_seq[b]);
            }
        }
        parcels
    }
}

} // verus!
