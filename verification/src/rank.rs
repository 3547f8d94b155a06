//! How one version stands to another, and the rules that rank two tags and
//! two lists of tags.

use vstd::prelude::*;

use crate::tags::{chars_of, split, split_tags, tags_view};

verus! {

/// How a first version stands to a second one.
#[derive(Clone, Copy, Debug, PartialEq, Eq, Structural)]
pub enum Rank {
    Less,
    Equal,
    Greater,
}

impl Rank {
    /// The rank seen from the other side.
    pub open spec fn reverse(self) -> Rank {
        match self {
            Rank::Less => Rank::Greater,
            Rank::Equal => Rank::Equal,
            Rank::Greater => Rank::Less,
        }
    }
}

/// The rank of two integers.
pub open spec fn int_rank(a: int, b: int) -> Rank {
    if a < b {
        Rank::Less
    } else if a == b {
        Rank::Equal
    } else {
        Rank::Greater
    }
}

/// The rank of two characters, by their code points.
pub open spec fn char_rank(a: char, b: char) -> Rank {
    if a < b {
        Rank::Less
    } else if a == b {
        Rank::Equal
    } else {
        Rank::Greater
    }
}

/// The rank of two texts as strings: the first character that differs
/// decides, and a text ranks above each of its proper prefixes.
pub open spec fn text_rank(a: Seq<char>, b: Seq<char>) -> Rank
    decreases a.len(),
{
    if a.len() == 0 && b.len() == 0 {
        Rank::Equal
    } else if a.len() == 0 {
        Rank::Less
    } else if b.len() == 0 {
        Rank::Greater
    } else if a[0] != b[0] {
        char_rank(a[0], b[0])
    } else {
        text_rank(a.drop_first(), b.drop_first())
    }
}

pub open spec fn is_digit(c: char) -> bool {
    '0' <= c <= '9'
}

pub open spec fn all_digits(t: Seq<char>) -> bool {
    forall|i: int| 0 <= i < t.len() ==> is_digit(#[trigger] t[i])
}

/// A tag is a number where it is not empty and holds decimal digits only.
pub open spec fn is_number(t: Seq<char>) -> bool {
    t.len() > 0 && all_digits(t)
}

pub open spec fn digit_value(c: char) -> nat {
    (c as u32 - '0' as u32) as nat
}

/// The number that a text of decimal digits denotes; it has no upper bound.
pub open spec fn number(t: Seq<char>) -> nat
    decreases t.len(),
{
    if t.len() == 0 {
        0
    } else {
        number(t.drop_last()) * 10 + digit_value(t.last())
    }
}

/// The rank of two tags: by their numbers where both are numbers, as strings
/// otherwise.
pub open spec fn tag_rank(a: Seq<char>, b: Seq<char>) -> Rank {
    if is_number(a) && is_number(b) {
        int_rank(number(a) as int, number(b) as int)
    } else {
        text_rank(a, b)
    }
}

/// The rank of two lists of tags: the first pair of tags that does not rank
/// equal decides, and a list ranks above each of its proper prefixes.
pub open spec fn tags_rank(xs: Seq<Seq<char>>, ys: Seq<Seq<char>>) -> Rank
    decreases xs.len(),
{
    if xs.len() == 0 && ys.len() == 0 {
        Rank::Equal
    } else if xs.len() == 0 {
        Rank::Less
    } else if ys.len() == 0 {
        Rank::Greater
    } else if tag_rank(xs[0], ys[0]) != Rank::Equal {
        tag_rank(xs[0], ys[0])
    } else {
        tags_rank(xs.drop_first(), ys.drop_first())
    }
}

/// The rank of two versions by their tags: both are split at the delimiter,
/// and the lists of tags are ranked.
pub open spec fn simple_rank(a: Seq<char>, b: Seq<char>) -> Rank {
    tags_rank(split_tags(a), split_tags(b))
}

/// `t` with zeros in front of it, up to the length `n`.
pub open spec fn padded(t: Seq<char>, n: int) -> Seq<char> {
    Seq::new((n - t.len()) as nat, |i: int| '0') + t
}

/// Zeros in front of a number do not change it.
pub proof fn lemma_number_padded(t: Seq<char>, n: int)
    requires
        t.len() <= n,
    ensures
        number(padded(t, n)) == number(t),
    decreases n,
{
    let p = padded(t, n);
    if n == 0 {
        assert(p == t);
    } else if t.len() == 0 {
        assert(p.drop_last() == padded(t, n - 1));
        lemma_number_padded(t, n - 1);
    } else {
        assert(p.drop_last() == padded(t.drop_last(), n - 1));
        lemma_number_padded(t.drop_last(), n - 1);
    }
}

/// Of two digit texts of one length, the one with the smaller digit at the
/// first place where they differ denotes the smaller number.
pub proof fn lemma_number_first_difference(a: Seq<char>, b: Seq<char>, k: int)
    requires
        a.len() == b.len(),
        0 <= k < a.len(),
        all_digits(a),
        all_digits(b),
        a.take(k) == b.take(k),
        a[k] < b[k],
    ensures
        number(a) < number(b),
    decreases a.len(),
{
    let a0 = a.drop_last();
    let b0 = b.drop_last();
    assert(is_digit(a.last()) && is_digit(b.last()));
    if k == a.len() - 1 {
        assert(a0 == a.take(k));
        assert(b0 == b.take(k));
    } else {
        assert(a0.take(k) == a.take(k));
        assert(b0.take(k) == b.take(k));
        lemma_number_first_difference(a0, b0, k);
    }
}

/// Two texts that begin alike rank as what follows the common beginning.
pub proof fn lemma_text_rank_skip(a: Seq<char>, b: Seq<char>, k: int)
    requires
        0 <= k <= a.len(),
        k <= b.len(),
        a.take(k) == b.take(k),
    ensures
        text_rank(a, b) == text_rank(a.skip(k), b.skip(k)),
    decreases k,
{
    if k == 0 {
        assert(a.skip(0) == a);
        assert(b.skip(0) == b);
    } else {
        assert(a[0] == a.take(k)[0]);
        assert(b[0] == b.take(k)[0]);
        assert(a.drop_first().take(k - 1) == a.take(k).drop_first());
        assert(b.drop_first().take(k - 1) == b.take(k).drop_first());
        lemma_text_rank_skip(a.drop_first(), b.drop_first(), k - 1);
        assert(a.drop_first().skip(k - 1) == a.skip(k));
        assert(b.drop_first().skip(k - 1) == b.skip(k));
    }
}

/// Two lists of tags whose first `k` pairs rank equal rank as the lists that
/// follow those pairs.
pub proof fn lemma_tags_rank_skip(xs: Seq<Seq<char>>, ys: Seq<Seq<char>>, k: int)
    requires
        0 <= k <= xs.len(),
        k <= ys.len(),
        forall|i: int| 0 <= i < k ==> tag_rank(#[trigger] xs[i], ys[i]) == Rank::Equal,
    ensures
        tags_rank(xs, ys) == tags_rank(xs.skip(k), ys.skip(k)),
    decreases k,
{
    if k == 0 {
        assert(xs.skip(0) == xs);
        assert(ys.skip(0) == ys);
    } else {
        let xr = xs.drop_first();
        let yr = ys.drop_first();
        assert(tag_rank(xs[0], ys[0]) == Rank::Equal);
        assert forall|i: int| 0 <= i < k - 1 implies tag_rank(#[trigger] xr[i], yr[i])
            == Rank::Equal by {
            assert(xr[i] == xs[i + 1]);
        }
        lemma_tags_rank_skip(xr, yr, k - 1);
        assert(xr.skip(k - 1) == xs.skip(k));
        assert(yr.skip(k - 1) == ys.skip(k));
    }
}

/// Ranks two characters.
pub fn char_compare(a: char, b: char) -> (r: Rank)
    ensures
        r == char_rank(a, b),
{
    if a < b {
        Rank::Less
    } else if a == b {
        Rank::Equal
    } else {
        Rank::Greater
    }
}

/// Ranks two texts as strings.
pub fn text_compare(a: &Vec<char>, b: &Vec<char>) -> (r: Rank)
    ensures
        r == text_rank(a@, b@),
{
    let mut i: usize = 0;
    while i < a.len() && i < b.len()
        invariant
            i <= a.len(),
            i <= b.len(),
            a@.take(i as int) == b@.take(i as int),
        decreases a.len() - i,
    {
        if a[i] != b[i] {
            proof {
                lemma_text_rank_skip(a@, b@, i as int);
            }
            return char_compare(a[i], b[i]);
        }
        proof {
            assert(a@.take(i + 1) == a@.take(i as int).push(a@[i as int]));
            assert(b@.take(i + 1) == b@.take(i as int).push(b@[i as int]));
        }
        i += 1;
    }
    proof {
        lemma_text_rank_skip(a@, b@, i as int);
    }
    if i < b.len() {
        Rank::Less
    } else if i < a.len() {
        Rank::Greater
    } else {
        Rank::Equal
    }
}

/// Tells whether a tag is a number.
pub fn is_number_tag(t: &Vec<char>) -> (yes: bool)
    ensures
        yes == is_number(t@),
{
    for i in 0..t.len()
        invariant
            forall|j: int| 0 <= j < i ==> is_digit(#[trigger] t@[j]),
    {
        let c = t[i];
        if c < '0' || c > '9' {
            return false;
        }
    }
    t.len() > 0
}

/// The digit at place `p` of `t` once zeros in front have brought it to the
/// length `n`.
fn padded_digit(t: &Vec<char>, n: usize, p: usize) -> (c: char)
    requires
        t.len() <= n,
        p < n,
    ensures
        c == padded(t@, n as int)[p as int],
{
    let zeros = n - t.len();
    if p < zeros {
        '0'
    } else {
        t[p - zeros]
    }
}

/// Ranks two numbers given by their digits, however long they are.
fn number_compare(a: &Vec<char>, b: &Vec<char>) -> (r: Rank)
    requires
        is_number(a@),
        is_number(b@),
    ensures
        r == int_rank(number(a@) as int, number(b@) as int),
{
    let n = if a.len() < b.len() { b.len() } else { a.len() };
    let ghost pa = padded(a@, n as int);
    let ghost pb = padded(b@, n as int);
    proof {
        lemma_number_padded(a@, n as int);
        lemma_number_padded(b@, n as int);
    }
    for p in 0..n
        invariant
            all_digits(pa),
            all_digits(pb),
            number(pa) == number(a@),
            number(pb) == number(b@),
            a.len() <= n,
            b.len() <= n,
            pa == padded(a@, n as int),
            pb == padded(b@, n as int),
            pa.take(p as int) == pb.take(p as int),
    {
        let da = padded_digit(a, n, p);
        let db = padded_digit(b, n, p);
        if da < db {
            proof {
                lemma_number_first_difference(pa, pb, p as int);
            }
            return Rank::Less;
        }
        if db < da {
            proof {
                lemma_number_first_difference(pb, pa, p as int);
            }
            return Rank::Greater;
        }
        proof {
            assert(pa.take(p + 1) == pa.take(p as int).push(pa[p as int]));
            assert(pb.take(p + 1) == pb.take(p as int).push(pb[p as int]));
        }
    }
    proof {
        assert(pa.take(n as int) == pa);
        assert(pb.take(n as int) == pb);
    }
    Rank::Equal
}

/// Ranks two tags.
pub fn tag_compare(a: &Vec<char>, b: &Vec<char>) -> (r: Rank)
    ensures
        r == tag_rank(a@, b@),
{
    if is_number_tag(a) && is_number_tag(b) {
        number_compare(a, b)
    } else {
        text_compare(a, b)
    }
}

/// Ranks two lists of tags.
pub fn tags_compare(xs: &Vec<Vec<char>>, ys: &Vec<Vec<char>>) -> (r: Rank)
    ensures
        r == tags_rank(tags_view(xs@), tags_view(ys@)),
{
    let ghost xv = tags_view(xs@);
    let ghost yv = tags_view(ys@);
    let mut i: usize = 0;
    while i < xs.len() && i < ys.len()
        invariant
            i <= xs.len(),
            i <= ys.len(),
            xv == tags_view(xs@),
            yv == tags_view(ys@),
            forall|j: int| 0 <= j < i ==> tag_rank(#[trigger] xv[j], yv[j]) == Rank::Equal,
        decreases xs.len() - i,
    {
        let r = tag_compare(&xs[i], &ys[i]);
        if r != Rank::Equal {
            proof {
                lemma_tags_rank_skip(xv, yv, i as int);
            }
            return r;
        }
        i += 1;
    }
    proof {
        lemma_tags_rank_skip(xv, yv, i as int);
    }
    if i < ys.len() {
        Rank::Less
    } else if i < xs.len() {
        Rank::Greater
    } else {
        Rank::Equal
    }
}

/// Ranks two versions by their tags.
pub fn version_compare(a: &str, b: &str) -> (r: Rank)
    ensures
        r == simple_rank(a@, b@),
{
    let xs = split(&chars_of(a));
    let ys = split(&chars_of(b));
    tags_compare(&xs, &ys)
}

} // verus!
