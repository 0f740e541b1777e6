use vstd::prelude::*;

verus! {

/// A moment as seconds since the Unix epoch and nanoseconds within the
/// second, compared as a pair.
pub type Moment = (i64, u32);

/// `a` comes strictly before `b`; an absent moment comes before every present one.
pub open spec fn moment_lt(a: Option<Moment>, b: Option<Moment>) -> bool {
    match (a, b) {
        (None, Some(_)) => true,
        (Some(x), Some(y)) => x.0 < y.0 || (x.0 == y.0 && x.1 < y.1),
        _ => false,
    }
}

/// Lexicographic order on character sequences (character by character,
/// a proper prefix first).
pub open spec fn text_le(a: Seq<char>, b: Seq<char>) -> bool
    decreases a.len(),
{
    if a.len() == 0 {
        true
    } else if b.len() == 0 {
        false
    } else if a[0] != b[0] {
        a[0] < b[0]
    } else {
        text_le(a.drop_first(), b.drop_first())
    }
}

/// The key by which a row is ordered: a moment, then a text.
pub type SortKey = (Option<Moment>, Seq<char>);

/// Order on keys: by moment first, then by text.
pub open spec fn key_le(x: SortKey, y: SortKey) -> bool {
    moment_lt(x.0, y.0) || (x.0 == y.0 && text_le(x.1, y.1))
}

/// Order on keys in the requested direction.
pub open spec fn ordered(asc: bool, x: SortKey, y: SortKey) -> bool {
    if asc {
        key_le(x, y)
    } else {
        key_le(y, x)
    }
}

/// Two keys that neither order places before the other.
pub open spec fn same_key(x: SortKey, y: SortKey) -> bool {
    key_le(x, y) && key_le(y, x)
}

pub proof fn lemma_text_le_total(a: Seq<char>, b: Seq<char>)
    ensures
        text_le(a, b) || text_le(b, a),
    decreases a.len(),
{
    if a.len() > 0 && b.len() > 0 && a[0] == b[0] {
        lemma_text_le_total(a.drop_first(), b.drop_first());
    }
}

pub proof fn lemma_text_le_trans(a: Seq<char>, b: Seq<char>, c: Seq<char>)
    requires
        text_le(a, b),
        text_le(b, c),
    ensures
        text_le(a, c),
    decreases a.len(),
{
    if a.len() > 0 && b.len() > 0 && c.len() > 0 && a[0] == b[0] && b[0] == c[0] {
        lemma_text_le_trans(a.drop_first(), b.drop_first(), c.drop_first());
    }
}

/// Texts are ordered lexicographically, whatever their lengths: after a
/// common prefix, the first differing character decides.
pub proof fn lemma_text_le_first_difference(p: Seq<char>, c: char, d: char, x: Seq<char>, y: Seq<char>)
    requires
        c < d,
    ensures
        text_le(p.push(c) + x, p.push(d) + y),
        !text_le(p.push(d) + y, p.push(c) + x),
    decreases p.len(),
{
    let a = p.push(c) + x;
    let b = p.push(d) + y;
    if p.len() == 0 {
        assert(a[0] == c);
        assert(b[0] == d);
    } else {
        assert(a[0] == p[0]);
        assert(b[0] == p[0]);
        assert(a.drop_first() =~= p.drop_first().push(c) + x);
        assert(b.drop_first() =~= p.drop_first().push(d) + y);
        lemma_text_le_first_difference(p.drop_first(), c, d, x, y);
    }
}

/// A text comes before every text it begins, and strictly before the longer ones.
pub proof fn lemma_text_le_prefix(p: Seq<char>, x: Seq<char>)
    ensures
        text_le(p, p + x),
        x.len() > 0 ==> !text_le(p + x, p),
    decreases p.len(),
{
    if p.len() > 0 {
        assert((p + x)[0] == p[0]);
        assert((p + x).drop_first() =~= p.drop_first() + x);
        lemma_text_le_prefix(p.drop_first(), x);
    } else {
        assert(p + x =~= x);
    }
}

pub proof fn lemma_key_le_total(x: SortKey, y: SortKey)
    ensures
        key_le(x, y) || key_le(y, x),
{
    lemma_text_le_total(x.1, y.1);
}

pub proof fn lemma_key_le_trans(x: SortKey, y: SortKey, z: SortKey)
    requires
        key_le(x, y),
        key_le(y, z),
    ensures
        key_le(x, z),
{
    if x.0 == y.0 && y.0 == z.0 {
        lemma_text_le_trans(x.1, y.1, z.1);
    }
}

pub proof fn lemma_ordered_total(asc: bool, x: SortKey, y: SortKey)
    ensures
        ordered(asc, x, y) || ordered(asc, y, x),
{
    lemma_key_le_total(x, y);
}

pub proof fn lemma_ordered_trans(asc: bool, x: SortKey, y: SortKey, z: SortKey)
    requires
        ordered(asc, x, y),
        ordered(asc, y, z),
    ensures
        ordered(asc, x, z),
{
    if asc {
        lemma_key_le_trans(x, y, z);
    } else {
        lemma_key_le_trans(z, y, x);
    }
}

/// A key held in executable form: a moment and the characters of a text.
pub struct RowKey {
    pub moment: Option<Moment>,
    pub text: Vec<char>,
}

impl View for RowKey {
    type V = SortKey;

    open spec fn view(&self) -> SortKey {
        (self.moment, self.text@)
    }
}

fn moment_lt_exec(a: Option<Moment>, b: Option<Moment>) -> (r: bool)
    ensures
        r == moment_lt(a, b),
{
    match (a, b) {
        (None, Some(_)) => true,
        (Some(x), Some(y)) => x.0 < y.0 || (x.0 == y.0 && x.1 < y.1),
        _ => false,
    }
}

fn moment_eq_exec(a: Option<Moment>, b: Option<Moment>) -> (r: bool)
    ensures
        r == (a == b),
{
    match (a, b) {
        (None, None) => true,
        (Some(x), Some(y)) => x.0 == y.0 && x.1 == y.1,
        _ => false,
    }
}

/// Compares two texts in lexicographic order.
pub fn text_le_exec(a: &[char], b: &[char]) -> (r: bool)
    ensures
        r == text_le(a@, b@),
{
    let mut i: usize = 0;
    assert(a@.skip(0) =~= a@);
    assert(b@.skip(0) =~= b@);
    while i < a.len() && i < b.len()
        invariant
            i <= a.len(),
            i <= b.len(),
            text_le(a@, b@) == text_le(a@.skip(i as int), b@.skip(i as int)),
        decreases a.len() - i,
    {
        if a[i] != b[i] {
            return a[i] < b[i];
        }
        assert(a@.skip(i as int).drop_first() =~= a@.skip(i + 1));
        assert(b@.skip(i as int).drop_first() =~= b@.skip(i + 1));
        i += 1;
    }
    i == a.len()
}

/// Compares two row keys.
pub fn row_key_le(x: &RowKey, y: &RowKey) -> (r: bool)
    ensures
        r == key_le(x@, y@),
{
    if moment_lt_exec(x.moment, y.moment) {
        true
    } else if moment_eq_exec(x.moment, y.moment) {
        text_le_exec(x.text.as_slice(), y.text.as_slice())
    } else {
        false
    }
}

/// Compares two row keys in the requested direction.
pub fn row_key_ordered(asc: bool, x: &RowKey, y: &RowKey) -> (r: bool)
    ensures
        r == ordered(asc, x@, y@),
{
    if asc {
        row_key_le(x, y)
    } else {
        row_key_le(y, x)
    }
}

} // verus!
