//! Version texts as sequences of tags: `1.10.2` is the tags `1`, `10`, `2`.

use vstd::prelude::*;

verus! {

/// The character that separates two tags of a version.
pub const DELIMITER: char = '.';

/// How many characters stand before the first delimiter of `s`, or in all of
/// `s` where it holds none.
pub open spec fn tag_len(s: Seq<char>) -> nat
    decreases s.len(),
{
    if s.len() == 0 || s[0] == DELIMITER {
        0
    } else {
        1 + tag_len(s.drop_first())
    }
}

/// The tags of `s`: the texts between its delimiters. There is always at
/// least one, and a tag may be empty.
pub open spec fn split_tags(s: Seq<char>) -> Seq<Seq<char>>
    decreases s.len(),
{
    let k = tag_len(s) as int;
    if 0 <= k < s.len() {
        seq![s.take(k)] + split_tags(s.skip(k + 1))
    } else {
        seq![s]
    }
}

/// What a list of tags is in contracts: the text of each tag.
pub open spec fn tags_view(tags: Seq<Vec<char>>) -> Seq<Seq<char>> {
    tags.map_values(|t: Vec<char>| t@)
}

/// `tag_len` is the one position that ends the first tag: nothing before it
/// is a delimiter, and it is the end of the text or a delimiter.
pub proof fn lemma_tag_len(s: Seq<char>, k: int)
    requires
        0 <= k <= s.len(),
        forall|i: int| 0 <= i < k ==> s[i] != DELIMITER,
        k == s.len() || s[k] == DELIMITER,
    ensures
        tag_len(s) == k,
    decreases s.len(),
{
    if k > 0 {
        lemma_tag_len(s.drop_first(), k - 1);
    }
}

/// The characters of a text, one by one.
pub fn chars_of(s: &str) -> (out: Vec<char>)
    ensures
        out@ == s@,
{
    let mut out: Vec<char> = Vec::new();
    for c in it: s.chars()
        invariant
            out@ == it.seq().take(it.index()),
            it.seq() == s@,
    {
        out.push(c);
    }
    out
}

/// Splits a text at each delimiter.
pub fn split(s: &Vec<char>) -> (tags: Vec<Vec<char>>)
    ensures
        tags_view(tags@) == split_tags(s@),
{
    let mut tags: Vec<Vec<char>> = Vec::new();
    let mut current: Vec<char> = Vec::new();
    let mut start: usize = 0;
    proof {
        assert(s@.skip(0) == s@);
        assert(tags_view(tags@) + split_tags(s@) == split_tags(s@));
    }
    for i in 0..s.len()
        invariant
            start <= i,
            current@ == s@.subrange(start as int, i as int),
            forall|j: int| 0 <= j < current@.len() ==> current@[j] != DELIMITER,
            split_tags(s@) == tags_view(tags@) + split_tags(s@.skip(start as int)),
    {
        let c = s[i];
        if c == DELIMITER {
            proof {
                let rest = s@.skip(start as int);
                lemma_tag_len(rest, i - start);
                assert(rest.take(i - start) == current@);
                assert(rest.skip(i - start + 1) == s@.skip(i + 1));
                assert(tags_view(tags@.push(current)) == tags_view(tags@).push(current@));
            }
            tags.push(current);
            current = Vec::new();
            start = i + 1;
        } else {
            current.push(c);
        }
    }
    proof {
        let rest = s@.skip(start as int);
        lemma_tag_len(rest, rest.len() as int);
        assert(rest == current@);
        assert(tags_view(tags@.push(current)) == tags_view(tags@).push(current@));
    }
    tags.push(current);
    tags
}

} // verus!
