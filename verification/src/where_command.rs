use vstd::prelude::*;
use vstd::string::*;
use crate::parcel::Parcel;
use crate::text::{int_decimal, i16_to_string};

verus! {

/// Half the side of the square of parcels searched for 2D scenes.
pub const SEARCH_RADIUS: i16 = 152;

/// Number of parcels on a side of the searched square.
pub const SEARCH_SIDE: usize = 304;

/// A parcel written as `(<x>, <y>)`.
pub open spec fn parcel_tuple_text(p: Parcel) -> Seq<char> {
    "("@ + int_decimal(p.0 as int) + ", "@ + int_decimal(p.1 as int) + ")"@
}

/// Each parcel written as ` (<x>, <y>),`, one after the other.
pub open spec fn parcel_list_items(ps: Seq<Parcel>) -> Seq<char>
    decreases ps.len(),
{
    if ps.len() == 0 {
        Seq::empty()
    } else {
        parcel_list_items(ps.drop_last()) + " "@ + parcel_tuple_text(ps.last()) + ","@
    }
}

/// The parcels of a scene as text: nothing for none, `(<x>, <y>)` for
/// one, and `[ (<x>, <y>), ... ]` for more.
pub open spec fn parcels_text(ps: Seq<Parcel>) -> Seq<char> {
    if ps.len() == 0 {
        Seq::empty()
    } else if ps.len() == 1 {
        parcel_tuple_text(ps[0])
    } else {
        "["@ + parcel_list_items(ps).drop_last() + " ]"@
    }
}

/// Appends `(<x>, <y>)` to `s`.
fn append_parcel_tuple(s: &mut String, p: Parcel)
    ensures
        final(s)@ == old(s)@ + parcel_tuple_text(p),
{
    s.append("(");
    let x = i16_to_string(p.0);
    s.append(x.as_str());
    s.append(", ");
    let y = i16_to_string(p.1);
    s.append(y.as_str());
    s.append(")");
}

/// The parcels of a scene as printed by the search for 2D scenes.
pub fn parcels_to_string(parcels: &Vec<Parcel>) -> (s: String)
    ensures
        s@ == parcels_text(parcels@),
{
    if parcels.len() == 0 {
        return String::new();
    }
    if parcels.len() == 1 {
        let mut s = String::new();
        append_parcel_tuple(&mut s, parcels[0]);
        return s;
    }
    let mut s = String::from_str("[");
    let mut i: usize = 0;
    while i < parcels.len()
        invariant
            i <= parcels.len(),
            i == 0 ==> s@ == "["@,
            i > 0 ==> s@ + ","@ == "["@ + parcel_list_items(parcels@.subrange(0, i as int)),
        decreases parcels.len() - i,
    {
        proof {
            assert(parcels@.subrange(0, i + 1).drop_last() =~= parcels@.subrange(0, i as int));
            if i == 0 {
                assert(parcel_list_items(parcels@.subrange(0, 0)) =~= Seq::<char>::empty());
            }
        }
        if i > 0 {
            s.append(",");
        }
        s.append(" ");
        append_parcel_tuple(&mut s, parcels[i]);
        i = i + 1;
    }
    proof {
        reveal_strlit(",");
        assert(parcels@.subrange(0, parcels@.len() as int) =~= parcels@);
        let items = parcel_list_items(parcels@);
        assert(("["@ + items).drop_last() =~= "["@ + items.drop_last());
        assert(s@ =~= (s@ + ","@).drop_last());
    }
    s.append(" ]");
    s
}

/// The parcels searched for 2D scenes: the square from -152 to 151 on
/// both axes, column by column.
pub fn where_parcels() -> (parcels: Vec<Parcel>)
    ensures
        parcels@.len() == SEARCH_SIDE * SEARCH_SIDE,
        forall|a: int, b: int| 0 <= a < SEARCH_SIDE && 0 <= b < SEARCH_SIDE
            ==> #[trigger] parcels@[a * SEARCH_SIDE + b] == Parcel((a - SEARCH_RADIUS) as i16, (b - SEARCH_RADIUS) as i16),
{
    let mut parcels: Vec<Parcel> = Vec::new();
    let mut x: i16 = -SEARCH_RADIUS;
    while x < SEARCH_RADIUS
        invariant
            -SEARCH_RADIUS <= x <= SEARCH_RADIUS,
            parcels@.len() == (x + SEARCH_RADIUS) * SEARCH_SIDE,
            forall|a: int, b: int| 0 <= a < x + SEARCH_RADIUS && 0 <= b < SEARCH_SIDE
                ==> #[trigger] parcels@[a * SEARCH_SIDE + b] == Parcel((a - SEARCH_RADIUS) as i16, (b - SEARCH_RADIUS) as i16),
        decreases SEARCH_RADIUS - x,
    {
        let mut y: i16 = -SEARCH_RADIUS;
        while y < SEARCH_RADIUS
            invariant
                -SEARCH_RADIUS <= x < SEARCH_RADIUS,
                -SEARCH_RADIUS <= y <= SEARCH_RADIUS,
                parcels@.len() == (x + SEARCH_RADIUS) * SEARCH_SIDE + (y + SEARCH_RADIUS),
                forall|a: int, b: int| 0 <= a < x + SEARCH_RADIUS && 0 <= b < SEARCH_SIDE
                    ==> #[trigger] parcels@[a * SEARCH_SIDE + b] == Parcel((a - SEARCH_RADIUS) as i16, (b - SEARCH_RADIUS) as i16),
                forall|b: int| 0 <= b < y + SEARCH_RADIUS
                    ==> #[trigger] parcels@[(x + SEARCH_RADIUS) * SEARCH_SIDE + b] == Parcel(x, (b - SEARCH_RADIUS) as i16),
            decreases SEARCH_RADIUS - y,
        {
            parcels.push(Parcel(x, y));
            y = y + 1;
        }
        x = x + 1;
    }
    parcels
}

} // verus!
