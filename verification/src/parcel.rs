use vstd::prelude::*;

verus! {

broadcast use vstd::seq_lib::group_seq_properties;

/// A land parcel, addressed by its integer coordinates on the map.
#[derive(Debug, Clone, Copy, PartialEq, Eq, Structural)]
pub struct Parcel(pub i16, pub i16);

/// Absolute value of an integer.
pub open spec fn abs(x: int) -> int {
    if x < 0 { -x } else { x }
}

/// Chebyshev distance between two parcels: the number of parcel rings
/// that separate them.
pub open spec fn ring_of(center: Parcel, p: Parcel) -> int {
    let dx = abs(p.0 - center.0);
    let dy = abs(p.1 - center.1);
    if dx < dy { dy } else { dx }
}

/// The parcels that lie at fewer than `n` rings from `center`.
pub open spec fn in_square(center: Parcel, n: int, p: Parcel) -> bool {
    ring_of(center, p) < n
}

/// Every coordinate of the square of radius `n - 1` around `center`
/// fits in an `i16`.
pub open spec fn square_fits(center: Parcel, n: int) -> bool {
    n <= 0 || (i16::MIN <= center.0 - (n - 1) && center.0 + (n - 1) <= i16::MAX
        && i16::MIN <= center.1 - (n - 1) && center.1 + (n - 1) <= i16::MAX)
}

/// Parcels of ring `i` that are not corners and whose smaller offset
/// is below `e`.
spec fn ring_partial(center: Parcel, i: int, e: int, p: Parcel) -> bool {
    let dx = abs(p.0 - center.0);
    let dy = abs(p.1 - center.1);
    &&& ring_of(center, p) == i
    &&& dx != dy
    &&& (if dx < dy { dx } else { dy }) < e
}

proof fn lemma_push_no_dup(s: Seq<Parcel>, x: Parcel)
    requires
        s.no_duplicates(),
        !s.contains(x),
    ensures
        s.push(x).no_duplicates(),
{
    assert forall|a: int, b: int| 0 <= a < b < s.push(x).len() implies s.push(x)[a] != s.push(x)[b] by {
        if b == s.len() {
            assert(s[a] == s.push(x)[a]);
        }
    }
}

proof fn lemma_odd_square_step(k: int)
    ensures
        (2 * (k + 1) - 1) * (2 * (k + 1) - 1) == (2 * k - 1) * (2 * k - 1) + 8 * k,
        k == 0 ==> (2 * (k + 1) - 1) * (2 * (k + 1) - 1) == 1,
{
    assert((2 * (k + 1) - 1) * (2 * (k + 1) - 1) == (2 * k - 1) * (2 * k - 1) + 8 * k) by (nonlinear_arith);
    assert(k == 0 ==> (2 * (k + 1) - 1) * (2 * (k + 1) - 1) == 1) by (nonlinear_arith);
}

/// The parcel at offset `(dx, dy)` from `c`.
pub open spec fn at(c: Parcel, dx: int, dy: int) -> Parcel {
    Parcel((c.0 + dx) as i16, (c.1 + dy) as i16)
}

/// The parcels listed for step `e` along ring `i`: the four sides at
/// offset `e`, then, past the middle, the four mirrored ones.
pub open spec fn ring_step(c: Parcel, i: int, e: int) -> Seq<Parcel> {
    seq![at(c, i, e), at(c, e, i), at(c, -i, e), at(c, e, -i)]
        + if e > 0 { seq![at(c, i, -e), at(c, -e, i), at(c, -i, -e), at(c, -e, -i)] } else { Seq::empty() }
}

/// The side parcels of ring `i` listed for the first `e` steps.
pub open spec fn ring_sides(c: Parcel, i: int, e: int) -> Seq<Parcel>
    decreases e,
{
    if e <= 0 {
        Seq::empty()
    } else {
        ring_sides(c, i, e - 1) + ring_step(c, i, e - 1)
    }
}

/// Ring `i` around `c` in the order the client lists it: the sides, then
/// three corners, then the top right corner.
pub open spec fn ring_order(c: Parcel, i: int) -> Seq<Parcel> {
    ring_sides(c, i, i)
        + (if i > 0 { seq![at(c, -i, i), at(c, i, -i), at(c, -i, -i)] } else { Seq::empty() })
        + seq![at(c, i, i)]
}

/// The first `n` rings around `c`, from the center outwards.
pub open spec fn parcels_around(c: Parcel, n: int) -> Seq<Parcel>
    decreases n,
{
    if n <= 0 {
        Seq::empty()
    } else {
        parcels_around(c, n - 1) + ring_order(c, n - 1)
    }
}

/// Every parcel whose ring around `parcel` is below `distance` (taken
/// as an `i16`, as the client does), each exactly once: ring 0 first,
/// then each ring outwards, each ring in the order of `ring_order`.
#[verifier::rlimit(60)]
pub fn get_all_parcels_around(parcel: &Parcel, distance: usize) -> (parcels: Vec<Parcel>)
    requires
        square_fits(*parcel, (distance as i16) as int),
    ensures
        forall|p: Parcel| parcels@.contains(p) <==> in_square(*parcel, (distance as i16) as int, p),
        parcels@.no_duplicates(),
        forall|a: int, b: int| 0 <= a < b < parcels@.len()
            ==> ring_of(*parcel, #[trigger] parcels@[a]) <= ring_of(*parcel, #[trigger] parcels@[b]),
        (distance as i16) > 0 ==> parcels@.len() == (2 * (distance as i16) - 1) * (2 * (distance as i16) - 1),
        (distance as i16) <= 0 ==> parcels@.len() == 0,
        parcels@ == parcels_around(*parcel, (distance as i16) as int),
{
    let n: i16 = distance as i16;
    let c = *parcel;
    let mut parcels: Vec<Parcel> = Vec::new();
    let mut i: i16 = 0;
    while i < n
        invariant
            0 <= i,
            n > 0 ==> i <= n,
            n <= 0 ==> i == 0,
            c == *parcel,
            n == distance as i16,
            square_fits(c, n as int),
            forall|p: Parcel| parcels@.contains(p) <==> in_square(c, i as int, p),
            parcels@.no_duplicates(),
            forall|a: int, b: int| 0 <= a < b < parcels@.len()
                ==> ring_of(c, #[trigger] parcels@[a]) <= ring_of(c, #[trigger] parcels@[b]),
            i > 0 ==> parcels@.len() == (2 * i - 1) * (2 * i - 1),
            i == 0 ==> parcels@.len() == 0,
            parcels@ == parcels_around(c, i as int),
        decreases n - i,
    {
        let ghost before = parcels@;
        proof {
            assert forall|k: int| 0 <= k < parcels@.len() implies ring_of(c, #[trigger] parcels@[k]) <= i by {
                assert(parcels@.contains(parcels@[k]));
            }
        }
        let mut e: i16 = 0;
        while e < i
            invariant
                0 <= e <= i < n,
                c == *parcel,
                square_fits(c, n as int),
                forall|p: Parcel| parcels@.contains(p) <==>
                    (in_square(c, i as int, p) || ring_partial(c, i as int, e as int, p)),
                parcels@.no_duplicates(),
                forall|a: int, b: int| 0 <= a < b < parcels@.len()
                    ==> ring_of(c, #[trigger] parcels@[a]) <= ring_of(c, #[trigger] parcels@[b]),
                forall|k: int| 0 <= k < parcels@.len() ==> ring_of(c, #[trigger] parcels@[k]) <= i,
                parcels@.len() == before.len() + (if e == 0 { 0int } else { 8 * e - 4 }),
                before == parcels_around(c, i as int),
                parcels@ == before + ring_sides(c, i as int, e as int),
            decreases i - e,
        {
            let a = Parcel(c.0 + i, c.1 + e);
            proof { lemma_push_no_dup(parcels@, a); }
            parcels.push(a);
            let b = Parcel(c.0 + e, c.1 + i);
            proof { lemma_push_no_dup(parcels@, b); }
            parcels.push(b);
            let a2 = Parcel(c.0 - i, c.1 + e);
            proof { lemma_push_no_dup(parcels@, a2); }
            parcels.push(a2);
            let b2 = Parcel(c.0 + e, c.1 - i);
            proof { lemma_push_no_dup(parcels@, b2); }
            parcels.push(b2);
            if e > 0 {
                let a3 = Parcel(c.0 + i, c.1 - e);
                proof { lemma_push_no_dup(parcels@, a3); }
                parcels.push(a3);
                let b3 = Parcel(c.0 - e, c.1 + i);
                proof { lemma_push_no_dup(parcels@, b3); }
                parcels.push(b3);
                let a4 = Parcel(c.0 - i, c.1 - e);
                proof { lemma_push_no_dup(parcels@, a4); }
                parcels.push(a4);
                let b4 = Parcel(c.0 - e, c.1 - i);
                proof { lemma_push_no_dup(parcels@, b4); }
                parcels.push(b4);
            }
            proof {
                assert(parcels@ =~= before + ring_sides(c, i as int, e + 1));
            }
            e = e + 1;
        }
        let ghost sides = parcels@;
        if i > 0 {
            let d1 = Parcel(c.0 - i, c.1 + i);
            proof { lemma_push_no_dup(parcels@, d1); }
            parcels.push(d1);
            let d2 = Parcel(c.0 + i, c.1 - i);
            proof { lemma_push_no_dup(parcels@, d2); }
            parcels.push(d2);
            let d3 = Parcel(c.0 - i, c.1 - i);
            proof { lemma_push_no_dup(parcels@, d3); }
            parcels.push(d3);
        }
        let d4 = Parcel(c.0 + i, c.1 + i);
        proof { lemma_push_no_dup(parcels@, d4); }
        parcels.push(d4);
        proof {
            assert(parcels@ =~= before + ring_order(c, i as int));
            assert(parcels_around(c, i + 1) == parcels_around(c, i as int) + ring_order(c, i as int));
            let ii = i as int;
            lemma_odd_square_step(ii);
            if ii > 0 {
                assert(before.len() == (2 * ii - 1) * (2 * ii - 1));
                assert(parcels@.len() == before.len() + 8 * ii);
            } else {
                assert(parcels@.len() == 1);
            }
            assert(parcels@.len() == (2 * (ii + 1) - 1) * (2 * (ii + 1) - 1));
        }
        i = i + 1;
    }
    parcels
}

} // verus!
