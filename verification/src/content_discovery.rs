use vstd::prelude::*;
use vstd::string::*;
use crate::parcel::Parcel;
use crate::text::{digit_char, nat_decimal, int_decimal};

verus! {

// ------------------------------------------------------------ link pieces

/// Index of the last occurrence of `c` in `s`, or -1 when there is none.
pub open spec fn last_index_of(s: Seq<char>, c: char) -> int
    decreases s.len(),
{
    if s.len() == 0 {
        -1
    } else if s.last() == c {
        s.len() - 1
    } else {
        last_index_of(s.drop_last(), c)
    }
}

/// The last piece of `s` split at `c`: what follows the last `c`, or all
/// of `s` when `c` does not occur.
pub open spec fn last_piece(s: Seq<char>, c: char) -> Seq<char> {
    s.subrange(last_index_of(s, c) + 1, s.len() as int)
}

/// The last two pieces of `s` split at `/`, when it has two or more.
pub open spec fn last_two_pieces(s: Seq<char>) -> Option<(Seq<char>, Seq<char>)> {
    let k = last_index_of(s, '/');
    if k < 0 {
        None
    } else {
        Some((last_piece(s.subrange(0, k), '/'), s.subrange(k + 1, s.len() as int)))
    }
}

/// The parcel of a scene link (`.../<x>/<y>`), as shown to the user:
/// `<x> , <y>`, or nothing when the link has no `/`.
pub open spec fn parcel_text(link: Seq<char>) -> Seq<char> {
    match last_two_pieces(link) {
        Some(pieces) => pieces.0 + " , "@ + pieces.1,
        None => Seq::empty(),
    }
}

/// `last_index_of` is the index `k` of an occurrence of `c` (or -1) after
/// which `c` does not occur.
pub proof fn lemma_last_index_of(s: Seq<char>, c: char, k: int)
    requires
        -1 <= k < s.len(),
        k >= 0 ==> s[k] == c,
        forall|m: int| k < m < s.len() ==> s[m] != c,
    ensures
        last_index_of(s, c) == k,
    decreases s.len(),
{
    if s.len() > 0 && k < s.len() - 1 {
        assert(s.last() != c);
        assert forall|m: int| k < m < s.drop_last().len() implies s.drop_last()[m] != c by {
            assert(s.drop_last()[m] == s[m]);
        }
        lemma_last_index_of(s.drop_last(), c, k);
    }
}

/// The index of the last `c` among the first `end` characters of `s`.
pub fn find_last_char(s: &str, c: char, end: usize) -> (k: Option<usize>)
    requires
        end <= s@.len(),
    ensures
        match k {
            Some(i) => i < end && s@[i as int] == c && i as int == last_index_of(s@.subrange(0, end as int), c),
            None => last_index_of(s@.subrange(0, end as int), c) == -1,
        },
{
    let ghost prefix = s@.subrange(0, end as int);
    let mut i: usize = end;
    while i > 0
        invariant
            i <= end <= s@.len(),
            prefix == s@.subrange(0, end as int),
            forall|m: int| i <= m < end ==> s@[m] != c,
        decreases i,
    {
        let ch = s.get_char(i - 1);
        if ch == c {
            proof {
                lemma_last_index_of(prefix, c, i - 1);
            }
            return Some(i - 1);
        }
        i = i - 1;
    }
    proof {
        lemma_last_index_of(prefix, c, -1);
    }
    None
}

/// The last two pieces of `link` split at `/`, as character ranges
/// `(start, end)` of the second-to-last and of the last piece.
fn last_two_piece_ranges(link: &str) -> (r: Option<(usize, usize, usize)>)
    ensures
        match r {
            Some((j, k, n)) => {
                &&& j <= k < n <= link@.len()
                &&& n == link@.len()
                &&& last_two_pieces(link@) == Some((link@.subrange(j as int, k as int), link@.subrange(k + 1, n as int)))
            },
            None => last_two_pieces(link@) is None,
        },
{
    let n = link.unicode_len();
    proof {
        assert(link@.subrange(0, n as int) =~= link@);
    }
    match find_last_char(link, '/', n) {
        None => None,
        Some(k) => {
            let j: usize = match find_last_char(link, '/', k) {
                None => 0,
                Some(i) => i + 1,
            };
            proof {
                let head = link@.subrange(0, k as int);
                assert(head.subrange(last_index_of(head, '/') + 1, head.len() as int)
                    =~= link@.subrange(j as int, k as int));
            }
            Some((j, k, n))
        },
    }
}

// ------------------------------------------------------------ numbers

/// Whether a character is an ASCII decimal digit.
pub open spec fn is_digit(c: char) -> bool {
    '0' <= c && c <= '9'
}

/// Whether every character of `s` is a decimal digit.
pub open spec fn all_digits(s: Seq<char>) -> bool {
    forall|i: int| 0 <= i < s.len() ==> is_digit(#[trigger] s[i])
}

/// The value of a string of decimal digits.
pub open spec fn digits_value(s: Seq<char>) -> int
    decreases s.len(),
{
    if s.len() == 0 {
        0
    } else {
        digits_value(s.drop_last()) * 10 + (s.last() as int - '0' as int)
    }
}

/// The value of an optional `+` or `-` followed by one or more decimal
/// digits, and nothing else.
pub open spec fn decimal_value(s: Seq<char>) -> Option<int> {
    let signed = s.len() > 0 && (s[0] == '-' || s[0] == '+');
    let digits = if signed { s.drop_first() } else { s };
    if digits.len() > 0 && all_digits(digits) {
        Some(if signed && s[0] == '-' { -digits_value(digits) } else { digits_value(digits) })
    } else {
        None
    }
}

/// The `i16` written by a string, if it is one.
pub open spec fn i16_of(s: Seq<char>) -> Option<i16> {
    match decimal_value(s) {
        Some(v) => if i16::MIN <= v && v <= i16::MAX { Some(v as i16) } else { None },
        None => None,
    }
}

proof fn lemma_digit_char(d: int)
    requires
        0 <= d < 10,
    ensures
        is_digit(digit_char(d)),
        digit_char(d) as int - '0' as int == d,
{
}

proof fn lemma_nat_decimal(n: nat)
    ensures
        nat_decimal(n).len() > 0,
        forall|i: int| 0 <= i < nat_decimal(n).len() ==> is_digit(#[trigger] nat_decimal(n)[i]),
        digits_value(nat_decimal(n)) == n,
    decreases n,
{
    if n >= 10 {
        lemma_nat_decimal(n / 10);
        lemma_digit_char((n % 10) as int);
        let s = nat_decimal(n);
        assert(s.drop_last() =~= nat_decimal(n / 10));
        vstd::arithmetic::div_mod::lemma_fundamental_div_mod(n as int, 10);
        assert(digits_value(s) == digits_value(s.drop_last()) * 10 + (s.last() as int - '0' as int));
    } else {
        lemma_digit_char(n as int);
        let s = nat_decimal(n);
        assert(s.drop_last() =~= Seq::<char>::empty());
        assert(digits_value(s.drop_last()) == 0);
    }
}

/// The decimal text of an integer reads back as that integer, and holds
/// nothing but digits after an optional leading `-`.
pub proof fn lemma_int_decimal(x: int)
    ensures
        decimal_value(int_decimal(x)) == Some(x),
        forall|i: int| 0 <= i < int_decimal(x).len()
            ==> (#[trigger] int_decimal(x)[i] == '-' && i == 0) || is_digit(int_decimal(x)[i]),
{
    if x < 0 {
        let d = nat_decimal((-x) as nat);
        lemma_nat_decimal((-x) as nat);
        assert((seq!['-'] + d).drop_first() =~= d);
        assert forall|i: int| 0 <= i < int_decimal(x).len() implies
            (#[trigger] int_decimal(x)[i] == '-' && i == 0) || is_digit(int_decimal(x)[i]) by {
            if i > 0 {
                assert(int_decimal(x)[i] == d[i - 1]);
            }
        }
    } else {
        lemma_nat_decimal(x as nat);
        let d = nat_decimal(x as nat);
        assert(is_digit(d[0]));
    }
}

/// Printing an `i16` and reading it back gives the same value.
pub proof fn lemma_i16_round_trip(x: i16)
    ensures
        i16_of(int_decimal(x as int)) == Some(x),
{
    lemma_int_decimal(x as int);
}

/// A text with a character other than a digit after its optional sign
/// writes no number.
proof fn lemma_not_decimal(s: Seq<char>, k: int)
    requires
        ({
            let signed = s.len() > 0 && (s[0] == '-' || s[0] == '+');
            let digits = if signed { s.drop_first() } else { s };
            0 <= k < digits.len() && !is_digit(digits[k])
        }),
    ensures
        decimal_value(s) is None,
{
    let signed = s.len() > 0 && (s[0] == '-' || s[0] == '+');
    let digits = if signed { s.drop_first() } else { s };
    assert(!all_digits(digits));
}

/// Appending a digit to a string of digits multiplies its value by ten
/// and adds the digit, so the value never drops.
proof fn lemma_digits_value_push(t: Seq<char>, c: char)
    requires
        is_digit(c),
        digits_value(t) >= 0,
    ensures
        digits_value(t.push(c)) == digits_value(t) * 10 + (c as int - '0' as int),
        digits_value(t.push(c)) >= digits_value(t),
{
    assert(t.push(c).drop_last() =~= t);
}

/// The `i16` written by a text, as `str::parse::<i16>` reads it: an
/// optional `+` or `-`, then one or more decimal digits and nothing else,
/// with a value in the type's range.
pub fn parse_i16(s: &str) -> (r: Option<i16>)
    ensures
        r == i16_of(s@),
{
    let n = s.unicode_len();
    if n == 0 {
        return None;
    }
    let first = s.get_char(0);
    let signed = first == '-' || first == '+';
    let negative = first == '-';
    let start: usize = if signed { 1 } else { 0 };
    let ghost digits = if signed { s@.drop_first() } else { s@ };
    proof {
        assert(digits =~= s@.subrange(start as int, n as int));
    }
    if start >= n {
        return None;
    }
    let mut value: u32 = 0;
    let mut too_big = false;
    let mut i: usize = start;
    while i < n
        invariant
            start <= i <= n,
            n == s@.len(),
            start < n,
            signed == (s@[0] == '-' || s@[0] == '+'),
            negative == (s@[0] == '-'),
            start == (if signed { 1usize } else { 0usize }),
            digits == (if signed { s@.drop_first() } else { s@ }),
            digits == s@.subrange(start as int, n as int),
            forall|j: int| start <= j < i ==> is_digit(#[trigger] s@[j]),
            digits_value(s@.subrange(start as int, i as int)) >= 0,
            !too_big ==> value as int == digits_value(s@.subrange(start as int, i as int)) && value <= 32768,
            too_big ==> digits_value(s@.subrange(start as int, i as int)) > 32768,
        decreases n - i,
    {
        let c = s.get_char(i);
        if !('0' <= c && c <= '9') {
            proof {
                assert(digits[i - start] == c);
                lemma_not_decimal(s@, i - start);
            }
            return None;
        }
        proof {
            assert(s@.subrange(start as int, i + 1) =~= s@.subrange(start as int, i as int).push(c));
            lemma_digits_value_push(s@.subrange(start as int, i as int), c);
        }
        let d: u32 = (c as u32) - ('0' as u32);
        if !too_big {
            let v: u32 = value * 10 + d;
            if v > 32768 {
                too_big = true;
            } else {
                value = v;
            }
        }
        i = i + 1;
    }
    proof {
        assert(s@.subrange(start as int, n as int) =~= digits);
        assert forall|j: int| 0 <= j < digits.len() implies is_digit(#[trigger] digits[j]) by {
            assert(digits[j] == s@[j + start]);
        }
    }
    if too_big {
        None
    } else if negative {
        let v: i32 = 0 - (value as i32);
        Some(v as i16)
    } else if value <= 32767 {
        Some(value as i16)
    } else {
        None
    }
}

// ------------------------------------------------------------ scenes

/// A published 2D scene, as listed by the scene feed.
#[derive(Debug, Clone)]
pub struct SceneDiscoveryData {
    pub title: String,
    pub link: String,
    pub pub_date: String,
}

/// Why the parcel of a scene link could not be read: the piece of the
/// link that is not an `i16`.
#[derive(Debug, Clone)]
pub enum ParcelLinkError {
    InvalidCoordinate(String),
}

/// The parcel written at the end of a scene link: the last two pieces
/// split at `/` read as numbers; `(0, 0)` for a link without `/`.
pub open spec fn link_parcel(link: Seq<char>) -> Result<Parcel, Seq<char>> {
    match last_two_pieces(link) {
        None => Ok(Parcel(0, 0)),
        Some(pieces) => match i16_of(pieces.0) {
            None => Err(pieces.0),
            Some(x) => match i16_of(pieces.1) {
                None => Err(pieces.1),
                Some(y) => Ok(Parcel(x, y)),
            },
        },
    }
}

/// A scene link that ends in `/<x>/<y>`, whatever comes before, names
/// the parcel `(x, y)`, which is shown as `<x> , <y>`.
pub proof fn lemma_link_round_trip(prefix: Seq<char>, x: i16, y: i16)
    ensures
        ({
            let link = prefix + "/"@ + int_decimal(x as int) + "/"@ + int_decimal(y as int);
            &&& link_parcel(link) == Ok::<Parcel, Seq<char>>(Parcel(x, y))
            &&& parcel_text(link) == int_decimal(x as int) + " , "@ + int_decimal(y as int)
        }),
{
    reveal_strlit("/");
    let a = int_decimal(x as int);
    let b = int_decimal(y as int);
    let head = prefix + "/"@ + a;
    let link = head + "/"@ + b;
    lemma_int_decimal(x as int);
    lemma_int_decimal(y as int);
    lemma_i16_round_trip(x);
    lemma_i16_round_trip(y);
    let k = head.len() as int;
    assert(link[k] == '/');
    assert forall|m: int| k < m < link.len() implies link[m] != '/' by {
        assert(link[m] == b[m - k - 1]);
    }
    lemma_last_index_of(link, '/', k);
    assert(link.subrange(0, k) =~= head);
    assert(link.subrange(k + 1, link.len() as int) =~= b);
    let j = prefix.len() as int;
    assert(head[j] == '/');
    assert forall|m: int| j < m < head.len() implies head[m] != '/' by {
        assert(head[m] == a[m - j - 1]);
    }
    lemma_last_index_of(head, '/', j);
    assert(head.subrange(j + 1, head.len() as int) =~= a);
}

/// One row of the scene table: title, parcel and date, separated by
/// `\t|\t`, ending the line.
pub open spec fn scene_row(title: Seq<char>, link: Seq<char>, pub_date: Seq<char>) -> Seq<char> {
    title + "\t|\t"@ + parcel_text(link) + "\t|\t"@ + pub_date + "\n"@
}

/// The rows of a list of scenes.
pub open spec fn scene_rows(scenes: Seq<SceneDiscoveryData>) -> Seq<char>
    decreases scenes.len(),
{
    if scenes.len() == 0 {
        Seq::empty()
    } else {
        let last = scenes.last();
        scene_rows(scenes.drop_last()) + scene_row(last.title@, last.link@, last.pub_date@)
    }
}

/// The header of the scene table.
pub open spec fn scenes_header() -> Seq<char> {
    "Scene\t|\tParcel\t|\tLast Update\n\n"@
}

impl Default for SceneDiscoveryData {
    fn default() -> (d: Self)
        ensures
            d.title@ == Seq::<char>::empty(),
            d.link@ == Seq::<char>::empty(),
            d.pub_date@ == Seq::<char>::empty(),
    {
        SceneDiscoveryData { title: String::new(), link: String::new(), pub_date: String::new() }
    }
}

impl SceneDiscoveryData {
    /// The parcel of the scene as text, `<x> , <y>`, taken from the last
    /// two pieces of its link; empty when the link has no `/`.
    pub fn get_parcel_str(&self) -> (s: String)
        ensures
            s@ == parcel_text(self.link@),
    {
        match last_two_piece_ranges(self.link.as_str()) {
            None => String::new(),
            Some((j, k, n)) => {
                let link = self.link.as_str();
                let x = link.substring_char(j, k);
                let y = link.substring_char(k + 1, n);
                let mut s = String::from_str(x);
                s.append(" , ");
                s.append(y);
                s
            },
        }
    }

    /// The parcel of the scene, read from the last two pieces of its
    /// link; `(0, 0)` when the link has no `/`, and an error naming the
    /// first piece that is not an `i16`.
    pub fn get_parcel(&self) -> (r: Result<Parcel, ParcelLinkError>)
        ensures
            match link_parcel(self.link@) {
                Ok(p) => r == Ok::<Parcel, ParcelLinkError>(p),
                Err(piece) => r matches Err(ParcelLinkError::InvalidCoordinate(t)) && t@ == piece,
            },
    {
        match last_two_piece_ranges(self.link.as_str()) {
            None => Ok(Parcel(0, 0)),
            Some((j, k, n)) => {
                let link = self.link.as_str();
                let x_text = link.substring_char(j, k);
                let x = match parse_i16(x_text) {
                    Some(v) => v,
                    None => return Err(ParcelLinkError::InvalidCoordinate(String::from_str(x_text))),
                };
                let y_text = link.substring_char(k + 1, n);
                let y = match parse_i16(y_text) {
                    Some(v) => v,
                    None => return Err(ParcelLinkError::InvalidCoordinate(String::from_str(y_text))),
                };
                Ok(Parcel(x, y))
            },
        }
    }

    /// The scene as a row of the scene table.
    pub fn to_string(&self) -> (s: String)
        ensures
            s@ == scene_row(self.title@, self.link@, self.pub_date@),
    {
        let mut s = self.title.clone();
        s.append("\t|\t");
        let parcel = self.get_parcel_str();
        s.append(parcel.as_str());
        s.append("\t|\t");
        s.append(self.pub_date.as_str());
        s.append("\n");
        s
    }
}

/// The table of published scenes: a header line, an empty line and one
/// row per scene.
pub fn scenes_table(scenes: &Vec<SceneDiscoveryData>) -> (s: String)
    ensures
        s@ == scenes_header() + scene_rows(scenes@),
{
    let mut s = String::from_str("Scene\t|\tParcel\t|\tLast Update\n\n");
    let mut i: usize = 0;
    while i < scenes.len()
        invariant
            i <= scenes.len(),
            s@ == scenes_header() + scene_rows(scenes@.subrange(0, i as int)),
        decreases scenes.len() - i,
    {
        let row = scenes[i].to_string();
        proof {
            assert(scenes@.subrange(0, i + 1).drop_last() =~= scenes@.subrange(0, i as int));
        }
        s.append(row.as_str());
        i = i + 1;
    }
    proof {
        assert(scenes@.subrange(0, scenes@.len() as int) =~= scenes@);
    }
    s
}

} // verus!
