use vstd::prelude::*;
use vstd::string::*;
use vstd::relations::{sorted_by, total_ordering};
use crate::text::{has_suffix, ends_with_text, lowercase, to_lowercase};

verus! {

broadcast use vstd::seq_lib::group_to_multiset_ensures;

// ------------------------------------------------------------ text order

/// Lexicographic order of texts, character by character (the order of
/// file paths in one folder).
pub open spec fn text_le(a: Seq<char>, b: Seq<char>) -> bool
    decreases a.len(),
{
    if a.len() == 0 {
        true
    } else if b.len() == 0 {
        false
    } else if a[0] != b[0] {
        a[0] < b[0]
    } else {
        text_le(a.drop_first(), b.drop_first())
    }
}

proof fn lemma_text_le_total(a: Seq<char>, b: Seq<char>)
    ensures
        text_le(a, b) || text_le(b, a),
    decreases a.len(),
{
    if a.len() > 0 && b.len() > 0 && a[0] == b[0] {
        lemma_text_le_total(a.drop_first(), b.drop_first());
    }
}

proof fn lemma_text_le_antisymmetric(a: Seq<char>, b: Seq<char>)
    requires
        text_le(a, b),
        text_le(b, a),
    ensures
        a == b,
    decreases a.len(),
{
    if a.len() > 0 {
        lemma_text_le_antisymmetric(a.drop_first(), b.drop_first());
        assert(a =~= seq![a[0]] + a.drop_first());
        assert(b =~= seq![b[0]] + b.drop_first());
    } else {
        assert(b.len() == 0);
        assert(a =~= b);
    }
}

proof fn lemma_text_le_transitive(a: Seq<char>, b: Seq<char>, c: Seq<char>)
    requires
        text_le(a, b),
        text_le(b, c),
    ensures
        text_le(a, c),
    decreases a.len(),
{
    if a.len() > 0 && b.len() > 0 && c.len() > 0 && a[0] == b[0] && b[0] == c[0] {
        lemma_text_le_transitive(a.drop_first(), b.drop_first(), c.drop_first());
    }
}

proof fn lemma_text_le_reflexive(a: Seq<char>)
    ensures
        text_le(a, a),
    decreases a.len(),
{
    if a.len() > 0 {
        lemma_text_le_reflexive(a.drop_first());
    }
}

/// Whether `a` comes before `b`, or is equal to it, in text order.
pub fn text_le_exec(a: &str, b: &str) -> (r: bool)
    ensures
        r == text_le(a@, b@),
{
    let n = a.unicode_len();
    let m = b.unicode_len();
    let mut i: usize = 0;
    proof {
        assert(a@.skip(0) =~= a@);
        assert(b@.skip(0) =~= b@);
    }
    while i < n && i < m
        invariant
            n == a@.len(),
            m == b@.len(),
            i <= n,
            i <= m,
            text_le(a@, b@) == text_le(a@.skip(i as int), b@.skip(i as int)),
        decreases n - i,
    {
        let ca = a.get_char(i);
        let cb = b.get_char(i);
        if ca != cb {
            return ca < cb;
        }
        proof {
            assert(a@.skip(i as int).drop_first() =~= a@.skip(i + 1));
            assert(b@.skip(i as int).drop_first() =~= b@.skip(i + 1));
        }
        i = i + 1;
    }
    i == n
}

// ------------------------------------------------------------ wearables

/// The kinds of wearable images, in the order they are drawn.
#[derive(Debug, Clone, Copy, PartialEq, Eq, Structural)]
pub enum WearableType {
    Background,
    Body,
    Feet,
    Lower,
    Upper,
    HeadAccesory,
    Hair,
}

/// The drawing order of a kind of wearable.
pub open spec fn wearable_rank(t: WearableType) -> int {
    match t {
        WearableType::Background => 0,
        WearableType::Body => 1,
        WearableType::Feet => 2,
        WearableType::Lower => 3,
        WearableType::Upper => 4,
        WearableType::HeadAccesory => 5,
        WearableType::Hair => 6,
    }
}

/// The drawing order of a kind of wearable.
fn wearable_rank_exec(t: WearableType) -> (r: u8)
    ensures
        r == wearable_rank(t),
{
    match t {
        WearableType::Background => 0,
        WearableType::Body => 1,
        WearableType::Feet => 2,
        WearableType::Lower => 3,
        WearableType::Upper => 4,
        WearableType::HeadAccesory => 5,
        WearableType::Hair => 6,
    }
}

/// A wearable sheet: its kind and the path of its description.
#[derive(Debug)]
pub struct WearableData {
    pub wearable_type: WearableType,
    pub json_path: String,
}

/// A file of the wearables folder: its path, its extension and its name
/// without the extension (`None` where the file has none or it is not
/// text).
#[derive(Debug)]
pub struct WearableEntry {
    pub path: String,
    pub extension: Option<String>,
    pub file_stem: Option<String>,
}

/// The kind of a wearable, by the end of its lower-case file name.
pub open spec fn wearable_type_of(lower: Seq<char>) -> Option<WearableType> {
    if has_suffix(lower, "body"@) {
        Some(WearableType::Body)
    } else if has_suffix(lower, "feet"@) {
        Some(WearableType::Feet)
    } else if has_suffix(lower, "lower"@) {
        Some(WearableType::Lower)
    } else if has_suffix(lower, "upper"@) {
        Some(WearableType::Upper)
    } else if has_suffix(lower, "headaccessory"@) {
        Some(WearableType::HeadAccesory)
    } else if has_suffix(lower, "hair"@) {
        Some(WearableType::Hair)
    } else if has_suffix(lower, "background"@) || has_suffix(lower, "bg"@) {
        Some(WearableType::Background)
    } else {
        None
    }
}

/// The kind of a wearable, given its lower-case file name.
pub fn wearable_type_of_name(lower: &str) -> (t: Option<WearableType>)
    ensures
        t == wearable_type_of(lower@),
{
    if ends_with_text(lower, "body") {
        Some(WearableType::Body)
    } else if ends_with_text(lower, "feet") {
        Some(WearableType::Feet)
    } else if ends_with_text(lower, "lower") {
        Some(WearableType::Lower)
    } else if ends_with_text(lower, "upper") {
        Some(WearableType::Upper)
    } else if ends_with_text(lower, "headaccessory") {
        Some(WearableType::HeadAccesory)
    } else if ends_with_text(lower, "hair") {
        Some(WearableType::Hair)
    } else if ends_with_text(lower, "background") || ends_with_text(lower, "bg") {
        Some(WearableType::Background)
    } else {
        None
    }
}

/// The wearable a file of the folder is: a `json` file whose name ends
/// with the name of a kind.
pub open spec fn entry_wearable(e: WearableEntry) -> Option<(WearableType, Seq<char>)> {
    match e.extension {
        Some(x) => if x@ == "json"@ {
            match e.file_stem {
                Some(stem) => match wearable_type_of(lowercase(stem@)) {
                    Some(t) => Some((t, e.path@)),
                    None => None,
                },
                None => None,
            }
        } else {
            None
        },
        None => None,
    }
}

/// The wearables of a folder, in the order of its files.
pub open spec fn folder_wearables(entries: Seq<WearableEntry>) -> Seq<(WearableType, Seq<char>)>
    decreases entries.len(),
{
    if entries.len() == 0 {
        Seq::empty()
    } else {
        let rest = folder_wearables(entries.drop_last());
        match entry_wearable(entries.last()) {
            Some(w) => rest.push(w),
            None => rest,
        }
    }
}

/// The order of wearables: by kind, then by path.
pub open spec fn wearable_le(a: (WearableType, Seq<char>), b: (WearableType, Seq<char>)) -> bool {
    wearable_rank(a.0) < wearable_rank(b.0) || (wearable_rank(a.0) == wearable_rank(b.0) && text_le(a.1, b.1))
}

/// The order of wearables, as a relation.
pub open spec fn wearable_order() -> spec_fn((WearableType, Seq<char>), (WearableType, Seq<char>)) -> bool {
    |a: (WearableType, Seq<char>), b: (WearableType, Seq<char>)| wearable_le(a, b)
}

/// The kind and path of a wearable.
pub open spec fn wearable_view(w: WearableData) -> (WearableType, Seq<char>) {
    (w.wearable_type, w.json_path@)
}

/// The kinds and paths of wearables.
pub open spec fn wearable_views(s: Seq<WearableData>) -> Seq<(WearableType, Seq<char>)> {
    s.map_values(|w: WearableData| wearable_view(w))
}

/// The order of wearables is total.
pub proof fn lemma_wearable_order_total()
    ensures
        total_ordering(wearable_order()),
{
    let r = wearable_order();
    assert forall|x: (WearableType, Seq<char>)| #[trigger] r(x, x) by {
        lemma_text_le_reflexive(x.1);
    }
    assert forall|x: (WearableType, Seq<char>), y: (WearableType, Seq<char>)|
        #[trigger] r(x, y) && #[trigger] r(y, x) implies x == y by {
        lemma_text_le_antisymmetric(x.1, y.1);
    }
    assert forall|x: (WearableType, Seq<char>), y: (WearableType, Seq<char>), z: (WearableType, Seq<char>)|
        #[trigger] r(x, y) && #[trigger] r(y, z) implies r(x, z) by {
        if wearable_rank(x.0) == wearable_rank(y.0) && wearable_rank(y.0) == wearable_rank(z.0) {
            lemma_text_le_transitive(x.1, y.1, z.1);
        }
    }
    assert forall|x: (WearableType, Seq<char>), y: (WearableType, Seq<char>)|
        #[trigger] r(x, y) || #[trigger] r(y, x) by {
        lemma_text_le_total(x.1, y.1);
    }
}

/// Wearable kinds are drawn in the order they are declared: background,
/// body, feet, lower body, upper body, head accessory, hair; each kind is
/// drawn over the ones before it.
pub proof fn lemma_kinds_drawn_in_declaration_order()
    ensures
        wearable_rank(WearableType::Background) < wearable_rank(WearableType::Body),
        wearable_rank(WearableType::Body) < wearable_rank(WearableType::Feet),
        wearable_rank(WearableType::Feet) < wearable_rank(WearableType::Lower),
        wearable_rank(WearableType::Lower) < wearable_rank(WearableType::Upper),
        wearable_rank(WearableType::Upper) < wearable_rank(WearableType::HeadAccesory),
        wearable_rank(WearableType::HeadAccesory) < wearable_rank(WearableType::Hair),
{
}

/// The wearables of a folder are listed kind by kind, in drawing order:
/// no wearable comes after one of a kind drawn later. So every
/// lower-body wearable comes before every upper-body one, and the body
/// before every piece of clothing. Wearables of one kind are listed by
/// path, and every wearable of the folder is listed, once.
pub proof fn lemma_wearables_listed_by_kind(entries: Seq<WearableEntry>)
    ensures
        ({
            let r = folder_wearables(entries).sort_by(wearable_order());
            &&& forall|i: int, j: int| 0 <= i < j < r.len() ==> wearable_rank(#[trigger] r[i].0) <= wearable_rank(#[trigger] r[j].0)
            &&& forall|i: int, j: int| 0 <= i < j < r.len() && #[trigger] r[j].0 == WearableType::Lower
                ==> #[trigger] r[i].0 != WearableType::Upper
            &&& forall|i: int, j: int| 0 <= i < j < r.len() && #[trigger] r[j].0 == WearableType::Body
                ==> #[trigger] r[i].0 == WearableType::Background || r[i].0 == WearableType::Body
            &&& forall|i: int, j: int| 0 <= i < j < r.len() && #[trigger] r[i].0 == #[trigger] r[j].0
                ==> text_le(r[i].1, r[j].1)
            &&& r.to_multiset() == folder_wearables(entries).to_multiset()
        }),
{
    let r = folder_wearables(entries).sort_by(wearable_order());
    lemma_wearable_order_total();
    folder_wearables(entries).lemma_sort_by_ensures(wearable_order());
    assert forall|i: int, j: int| 0 <= i < j < r.len() implies wearable_le(#[trigger] r[i], #[trigger] r[j]) by {
        assert(wearable_order()(r[i], r[j]));
    }
}

/// Whether wearable `a` comes before `b`, or is equal to it.
fn wearable_le_exec(a: &WearableData, b: &WearableData) -> (r: bool)
    ensures
        r == wearable_le(wearable_view(*a), wearable_view(*b)),
{
    let ra = wearable_rank_exec(a.wearable_type);
    let rb = wearable_rank_exec(b.wearable_type);
    if ra != rb {
        ra < rb
    } else {
        text_le_exec(a.json_path.as_str(), b.json_path.as_str())
    }
}

/// The wearables found among the files of a folder, in file order.
fn collect_wearables(entries: &Vec<WearableEntry>) -> (list: Vec<WearableData>)
    ensures
        wearable_views(list@) == folder_wearables(entries@),
{
    let mut list: Vec<WearableData> = Vec::new();
    let mut i: usize = 0;
    while i < entries.len()
        invariant
            i <= entries@.len(),
            wearable_views(list@) == folder_wearables(entries@.subrange(0, i as int)),
        decreases entries@.len() - i,
    {
        let e = &entries[i];
        proof {
            assert(entries@.subrange(0, i + 1).drop_last() =~= entries@.subrange(0, i as int));
        }
        let found: Option<WearableType> = match &e.extension {
            Some(x) => {
                if *x == String::from_str("json") {
                    match &e.file_stem {
                        Some(stem) => {
                            let lower = to_lowercase(stem.as_str());
                            wearable_type_of_name(lower.as_str())
                        },
                        None => None,
                    }
                } else {
                    None
                }
            },
            None => None,
        };
        match found {
            Some(t) => {
                let w = WearableData { wearable_type: t, json_path: e.path.clone() };
                proof {
                    assert(wearable_views(list@.push(w)) =~= wearable_views(list@).push(wearable_view(w)));
                }
                list.push(w);
            },
            None => {},
        }
        i = i + 1;
    }
    proof {
        assert(entries@.subrange(0, entries@.len() as int) =~= entries@);
    }
    list
}

/// Sorts wearables by kind, then by path.
fn sort_wearables(list: Vec<WearableData>) -> (sorted: Vec<WearableData>)
    ensures
        wearable_views(sorted@) == wearable_views(list@).sort_by(wearable_order()),
{
    let ghost leq = wearable_order();
    proof {
        lemma_wearable_order_total();
    }
    let mut sorted: Vec<WearableData> = Vec::new();
    let mut i: usize = 0;
    while i < list.len()
        invariant
            i <= list@.len(),
            leq == wearable_order(),
            total_ordering(leq),
            sorted_by(wearable_views(sorted@), leq),
            wearable_views(sorted@).to_multiset() == wearable_views(list@.subrange(0, i as int)).to_multiset(),
        decreases list@.len() - i,
    {
        let x = WearableData { wearable_type: list[i].wearable_type, json_path: list[i].json_path.clone() };
        let mut j: usize = 0;
        while j < sorted.len() && wearable_le_exec(&sorted[j], &x)
            invariant
                j <= sorted@.len(),
                forall|k: int| 0 <= k < j ==> wearable_le(wearable_view(#[trigger] sorted@[k]), wearable_view(x)),
            decreases sorted@.len() - j,
        {
            j = j + 1;
        }
        let ghost before = wearable_views(sorted@);
        let ghost vx = wearable_view(x);
        proof {
            if j < sorted@.len() {
                assert(!wearable_le(before[j as int], vx));
                assert(!leq(before[j as int], vx));
                assert(leq(vx, before[j as int]));
                assert forall|k: int| j <= k < before.len() implies #[trigger] leq(vx, before[k]) by {
                    if k > j {
                        assert(leq(before[j as int], before[k]));
                    }
                }
            }
            assert forall|k: int| 0 <= k < j implies #[trigger] leq(before[k], vx) by {
                assert(wearable_le(wearable_view(sorted@[k]), vx));
            }
        }
        sorted.insert(j, x);
        proof {
            let after = wearable_views(sorted@);
            assert(after =~= before.insert(j as int, vx));
            assert forall|a: int, b: int| 0 <= a < b < after.len() implies #[trigger] leq(after[a], after[b]) by {
                if a < j && b < j {
                } else if a < j && b == j {
                } else if a < j && b > j {
                    assert(leq(after[a], vx));
                    assert(leq(vx, after[b]));
                } else if a == j {
                    assert(leq(vx, before[b - 1]));
                } else {
                    assert(leq(before[a - 1], before[b - 1]));
                }
            }
            assert(wearable_views(list@.subrange(0, i + 1)) =~= wearable_views(list@.subrange(0, i as int)).push(vx));
            vstd::seq_lib::to_multiset_insert(before, j as int, vx);
            vstd::seq_lib::to_multiset_build(wearable_views(list@.subrange(0, i as int)), vx);
        }
        i = i + 1;
    }
    proof {
        assert(list@.subrange(0, list@.len() as int) =~= list@);
        let all = wearable_views(list@);
        all.lemma_sort_by_ensures(leq);
        vstd::seq_lib::lemma_sorted_unique(wearable_views(sorted@), all.sort_by(leq), leq);
    }
    sorted
}

/// The wearables of a folder, from its files: the `json` files whose
/// lower-case name ends with a kind's name (`body`, `feet`, `lower`,
/// `upper`, `headaccessory`, `hair`, `background` or `bg`, checked in
/// that order), sorted by kind and then by path.
pub fn get_wearables_data(entries: &Vec<WearableEntry>) -> (wearables: Vec<WearableData>)
    ensures
        wearable_views(wearables@) == folder_wearables(entries@).sort_by(wearable_order()),
{
    let list = collect_wearables(entries);
    sort_wearables(list)
}

/// Why a player sprite sheet cannot be made.
#[derive(Debug, Clone, PartialEq, Eq)]
pub enum SpriteMakerError {
    /// The folder holds no wearable.
    NoWearables,
    /// The folder holds no body.
    NoBody,
    /// The body's image is not RGBA; the path of the image.
    InvalidImageFormat(String),
}

/// The index of the last body among wearables, if any.
pub open spec fn last_body(s: Seq<(WearableType, Seq<char>)>) -> Option<int>
    decreases s.len(),
{
    if s.len() == 0 {
        None
    } else if s.last().0 == WearableType::Body {
        Some(s.len() - 1)
    } else {
        last_body(s.drop_last())
    }
}

/// The wearable the player sheet is built on: the last body; an error
/// when there is no wearable, or no body.
pub fn body_wearable(wearables: &Vec<WearableData>) -> (r: Result<usize, SpriteMakerError>)
    ensures
        wearables@.len() == 0 ==> r == Err::<usize, SpriteMakerError>(SpriteMakerError::NoWearables),
        wearables@.len() > 0 ==> match last_body(wearable_views(wearables@)) {
            Some(i) => r == Ok::<usize, SpriteMakerError>(i as usize),
            None => r == Err::<usize, SpriteMakerError>(SpriteMakerError::NoBody),
        },
{
    if wearables.len() == 0 {
        return Err(SpriteMakerError::NoWearables);
    }
    let ghost views = wearable_views(wearables@);
    let mut body: Option<usize> = None;
    let mut i: usize = 0;
    while i < wearables.len()
        invariant
            i <= wearables@.len(),
            views == wearable_views(wearables@),
            match last_body(views.subrange(0, i as int)) {
                Some(k) => body == Some(k as usize),
                None => body is None,
            },
        decreases wearables@.len() - i,
    {
        proof {
            assert(views.subrange(0, i + 1).drop_last() =~= views.subrange(0, i as int));
        }
        if wearables[i].wearable_type == WearableType::Body {
            body = Some(i);
        }
        i = i + 1;
    }
    proof {
        assert(views.subrange(0, views.len() as int) =~= views);
    }
    match body {
        Some(k) => Ok(k),
        None => Err(SpriteMakerError::NoBody),
    }
}

} // verus!
