//! What holds of the orderings and of the resolution, for all inputs.

use vstd::prelude::*;

use crate::model::ReleaseView;
use crate::rank::{int_rank, is_number, number, simple_rank, tag_rank, tags_rank, text_rank, Rank};
use crate::resolver::{
    accepts, is_newer, latest_index, lemma_latest_index_bounds, matching, newer_resolution,
    resolution,
};
use crate::strategy::RankRule;
use crate::tags::split_tags;

verus! {

/// Ranking two texts as strings the other way round gives the reverse rank.
pub proof fn lemma_text_rank_reverse(a: Seq<char>, b: Seq<char>)
    ensures
        text_rank(a, b) == text_rank(b, a).reverse(),
    decreases a.len(),
{
    if a.len() > 0 && b.len() > 0 && a[0] == b[0] {
        lemma_text_rank_reverse(a.drop_first(), b.drop_first());
    }
}

/// Ranking two tags the other way round gives the reverse rank.
pub proof fn lemma_tag_rank_reverse(a: Seq<char>, b: Seq<char>)
    ensures
        tag_rank(a, b) == tag_rank(b, a).reverse(),
{
    lemma_text_rank_reverse(a, b);
}

/// Ranking two lists of tags the other way round gives the reverse rank.
pub proof fn lemma_tags_rank_reverse(xs: Seq<Seq<char>>, ys: Seq<Seq<char>>)
    ensures
        tags_rank(xs, ys) == tags_rank(ys, xs).reverse(),
    decreases xs.len(),
{
    if xs.len() > 0 && ys.len() > 0 {
        lemma_tag_rank_reverse(xs[0], ys[0]);
        lemma_tags_rank_reverse(xs.drop_first(), ys.drop_first());
    }
}

/// The default ordering is antisymmetric: for any two versions, comparing
/// them the other way round gives the reverse answer.
pub proof fn law_simple_rank_antisymmetric(a: Seq<char>, b: Seq<char>)
    ensures
        simple_rank(a, b) == simple_rank(b, a).reverse(),
{
    lemma_tags_rank_reverse(split_tags(a), split_tags(b));
}

/// Under the default ordering a version ranks equal to itself.
pub proof fn law_simple_rank_reflexive(a: Seq<char>)
    ensures
        simple_rank(a, a) == Rank::Equal,
{
    law_simple_rank_antisymmetric(a, a);
}

/// A version is numeric where each of its tags is a number.
pub open spec fn is_numeric_version(a: Seq<char>) -> bool {
    all_numbers(split_tags(a))
}

/// Each tag of the list is a number.
pub open spec fn all_numbers(tags: Seq<Seq<char>>) -> bool {
    forall|i: int| 0 <= i < tags.len() ==> is_number(#[trigger] tags[i])
}

/// The numbers that the tags of a list denote.
pub open spec fn numbers_of(tags: Seq<Seq<char>>) -> Seq<int> {
    tags.map_values(|t: Seq<char>| number(t) as int)
}

/// The natural order of two lists of numbers: the first place where they
/// differ decides, and a list ranks above each of its proper prefixes.
pub open spec fn numbers_rank(xs: Seq<int>, ys: Seq<int>) -> Rank
    decreases xs.len(),
{
    if xs.len() == 0 && ys.len() == 0 {
        Rank::Equal
    } else if xs.len() == 0 {
        Rank::Less
    } else if ys.len() == 0 {
        Rank::Greater
    } else if xs[0] != ys[0] {
        int_rank(xs[0], ys[0])
    } else {
        numbers_rank(xs.drop_first(), ys.drop_first())
    }
}

/// Lists of tags that are all numbers rank as the numbers they denote.
pub proof fn lemma_number_tags_rank_by_numbers(xs: Seq<Seq<char>>, ys: Seq<Seq<char>>)
    requires
        all_numbers(xs),
        all_numbers(ys),
    ensures
        tags_rank(xs, ys) == numbers_rank(numbers_of(xs), numbers_of(ys)),
    decreases xs.len(),
{
    if xs.len() > 0 && ys.len() > 0 {
        let xr = xs.drop_first();
        let yr = ys.drop_first();
        assert(is_number(xs[0]) && is_number(ys[0]));
        assert forall|i: int| 0 <= i < xr.len() implies is_number(#[trigger] xr[i]) by {
            assert(xr[i] == xs[i + 1]);
        }
        assert forall|i: int| 0 <= i < yr.len() implies is_number(#[trigger] yr[i]) by {
            assert(yr[i] == ys[i + 1]);
        }
        lemma_number_tags_rank_by_numbers(xr, yr);
        assert(numbers_of(xs).drop_first() == numbers_of(xr));
        assert(numbers_of(ys).drop_first() == numbers_of(yr));
    }
}

/// The natural order of lists of numbers is transitive.
pub proof fn lemma_numbers_rank_transitive(xs: Seq<int>, ys: Seq<int>, zs: Seq<int>)
    requires
        numbers_rank(xs, ys) != Rank::Greater,
        numbers_rank(ys, zs) != Rank::Greater,
    ensures
        numbers_rank(xs, zs) != Rank::Greater,
        numbers_rank(xs, ys) == Rank::Less || numbers_rank(ys, zs) == Rank::Less
            ==> numbers_rank(xs, zs) == Rank::Less,
    decreases xs.len(),
{
    if xs.len() > 0 && ys.len() > 0 && zs.len() > 0 {
        if xs[0] == ys[0] && ys[0] == zs[0] {
            lemma_numbers_rank_transitive(xs.drop_first(), ys.drop_first(), zs.drop_first());
        }
    }
}

/// On numeric versions the default ordering is the natural order of their
/// numbers, tag by tag: `1.9.0` ranks below `1.10.0`, as 9 is below 10.
pub proof fn law_numeric_versions_rank_by_numbers(a: Seq<char>, b: Seq<char>)
    requires
        is_numeric_version(a),
        is_numeric_version(b),
    ensures
        simple_rank(a, b) == numbers_rank(
            numbers_of(split_tags(a)),
            numbers_of(split_tags(b)),
        ),
{
    lemma_number_tags_rank_by_numbers(split_tags(a), split_tags(b));
}

/// On numeric versions the default ordering is transitive.
pub proof fn law_numeric_versions_rank_transitively(a: Seq<char>, b: Seq<char>, c: Seq<char>)
    requires
        is_numeric_version(a),
        is_numeric_version(b),
        is_numeric_version(c),
        simple_rank(a, b) != Rank::Greater,
        simple_rank(b, c) != Rank::Greater,
    ensures
        simple_rank(a, c) != Rank::Greater,
        simple_rank(a, b) == Rank::Less || simple_rank(b, c) == Rank::Less ==> simple_rank(a, c)
            == Rank::Less,
{
    law_numeric_versions_rank_by_numbers(a, b);
    law_numeric_versions_rank_by_numbers(b, c);
    law_numeric_versions_rank_by_numbers(a, c);
    lemma_numbers_rank_transitive(
        numbers_of(split_tags(a)),
        numbers_of(split_tags(b)),
        numbers_of(split_tags(c)),
    );
}

/// A rule orders the versions of a list consistently where, on them, it is
/// antisymmetric and transitive.
pub open spec fn consistent_on(rule: RankRule, releases: Seq<ReleaseView>) -> bool {
    &&& forall|i: int, j: int|
        #![trigger releases[i], releases[j]]
        0 <= i < releases.len() && 0 <= j < releases.len() ==> rule(
            releases[i].version,
            releases[j].version,
        ) == rule(releases[j].version, releases[i].version).reverse()
    &&& forall|i: int, j: int, k: int|
        #![trigger releases[i], releases[j], releases[k]]
        0 <= i < releases.len() && 0 <= j < releases.len() && 0 <= k < releases.len() && rule(
            releases[i].version,
            releases[j].version,
        ) != Rank::Greater && rule(releases[j].version, releases[k].version) != Rank::Greater
            ==> rule(releases[i].version, releases[k].version) != Rank::Greater
}

/// The default ordering orders the versions of a list consistently where
/// each of them is numeric.
pub proof fn law_numeric_versions_are_ordered_consistently(releases: Seq<ReleaseView>)
    requires
        forall|i: int|
            0 <= i < releases.len() ==> is_numeric_version((#[trigger] releases[i]).version),
    ensures
        consistent_on(|a: Seq<char>, b: Seq<char>| simple_rank(a, b), releases),
{
    let rule = |a: Seq<char>, b: Seq<char>| simple_rank(a, b);
    assert forall|i: int, j: int|
        #![trigger releases[i], releases[j]]
        0 <= i < releases.len() && 0 <= j < releases.len() implies rule(
        releases[i].version,
        releases[j].version,
    ) == rule(releases[j].version, releases[i].version).reverse() by {
        law_simple_rank_antisymmetric(releases[i].version, releases[j].version);
    }
    assert forall|i: int, j: int, k: int|
        #![trigger releases[i], releases[j], releases[k]]
        0 <= i < releases.len() && 0 <= j < releases.len() && 0 <= k < releases.len() && rule(
            releases[i].version,
            releases[j].version,
        ) != Rank::Greater && rule(releases[j].version, releases[k].version)
            != Rank::Greater implies rule(releases[i].version, releases[k].version)
        != Rank::Greater by {
        law_numeric_versions_rank_transitively(
            releases[i].version,
            releases[j].version,
            releases[k].version,
        );
    }
}

/// The release at place `k` is the last of the highest: none of the list
/// ranks above it, and each one after it ranks below it.
pub open spec fn is_last_maximum(releases: Seq<ReleaseView>, rule: RankRule, k: int) -> bool {
    &&& 0 <= k < releases.len()
    &&& forall|j: int|
        0 <= j < releases.len() ==> rule((#[trigger] releases[j]).version, releases[k].version)
            != Rank::Greater
    &&& forall|j: int|
        k < j < releases.len() ==> rule((#[trigger] releases[j]).version, releases[k].version)
            == Rank::Less
}

/// Under a rule that orders the versions consistently, the latest release is
/// a highest one, and of several highest ones the last in the list.
pub proof fn law_latest_is_last_maximum(releases: Seq<ReleaseView>, rule: RankRule)
    requires
        releases.len() > 0,
        consistent_on(rule, releases),
    ensures
        is_last_maximum(releases, rule, latest_index(releases, rule)),
    decreases releases.len(),
{
    let n = releases.len() as int;
    if n == 1 {
        let only = releases[0];
        assert(rule(only.version, only.version) == rule(only.version, only.version).reverse());
    } else {
        let shorter = releases.drop_last();
        assert forall|i: int| 0 <= i < shorter.len() implies #[trigger] shorter[i]
            == releases[i] by {}
        assert(consistent_on(rule, shorter)) by {
            assert forall|i: int, j: int|
                #![trigger shorter[i], shorter[j]]
                0 <= i < shorter.len() && 0 <= j < shorter.len() implies rule(
                shorter[i].version,
                shorter[j].version,
            ) == rule(shorter[j].version, shorter[i].version).reverse() by {
                let _ = (releases[i], releases[j]);
            }
            assert forall|i: int, j: int, k: int|
                #![trigger shorter[i], shorter[j], shorter[k]]
                0 <= i < shorter.len() && 0 <= j < shorter.len() && 0 <= k < shorter.len() && rule(
                    shorter[i].version,
                    shorter[j].version,
                ) != Rank::Greater && rule(shorter[j].version, shorter[k].version)
                    != Rank::Greater implies rule(shorter[i].version, shorter[k].version)
                != Rank::Greater by {
                let _ = (releases[i], releases[j], releases[k]);
            }
        }
        law_latest_is_last_maximum(shorter, rule);
        let lead = latest_index(shorter, rule);
        let last = releases[n - 1];
        assert(shorter[lead] == releases[lead]);
        if rule(last.version, releases[lead].version) == Rank::Less {
            assert forall|j: int| 0 <= j < n implies rule(
                (#[trigger] releases[j]).version,
                releases[lead].version,
            ) != Rank::Greater by {
                if j < n - 1 {
                    let _ = shorter[j];
                }
            }
            assert forall|j: int| lead < j < n implies rule(
                (#[trigger] releases[j]).version,
                releases[lead].version,
            ) == Rank::Less by {
                if j < n - 1 {
                    let _ = shorter[j];
                }
            }
        } else {
            assert forall|j: int| 0 <= j < n implies rule(
                (#[trigger] releases[j]).version,
                last.version,
            ) != Rank::Greater by {
                let _ = (releases[lead], releases[n - 1], releases[j]);
                if j < n - 1 {
                    let _ = shorter[j];
                }
            }
        }
    }
}

/// Only one place of a list can hold the last of the highest.
pub proof fn law_last_maximum_is_unique(
    releases: Seq<ReleaseView>,
    rule: RankRule,
    k: int,
    l: int,
)
    requires
        consistent_on(rule, releases),
        is_last_maximum(releases, rule, k),
        is_last_maximum(releases, rule, l),
    ensures
        k == l,
{
    let _ = (releases[k], releases[l]);
}

/// Where no asset is wanted, every release of the catalog passes.
pub proof fn law_without_a_wanted_asset_all_pass(catalog: Seq<ReleaseView>)
    ensures
        matching(None, catalog) == catalog,
    decreases catalog.len(),
{
    reveal(Seq::filter);
    if catalog.len() > 0 {
        law_without_a_wanted_asset_all_pass(catalog.drop_last());
        assert(catalog.drop_last().push(catalog.last()) == catalog);
    }
}

/// A catalog resolves to nothing exactly where none of its releases passes;
/// what it resolves to is one of its releases, and passes.
pub proof fn law_resolution_is_a_passing_release(
    wanted: Option<Seq<char>>,
    catalog: Seq<ReleaseView>,
    rule: RankRule,
)
    ensures
        resolution(wanted, catalog, rule) is None <==> forall|i: int|
            0 <= i < catalog.len() ==> !accepts(wanted, #[trigger] catalog[i]),
        resolution(wanted, catalog, rule) matches Some(release) ==> catalog.contains(release)
            && accepts(wanted, release),
{
    let pass = |r: ReleaseView| accepts(wanted, r);
    let candidates = matching(wanted, catalog);
    if candidates.len() > 0 {
        lemma_latest_index_bounds(candidates, rule);
        let place = latest_index(candidates, rule);
        let release = candidates[place];
        catalog.lemma_filter_pred(pass, place);
        assert(candidates.contains(release));
        catalog.lemma_filter_contains_rev(pass, release);
    } else {
        assert forall|i: int| 0 <= i < catalog.len() implies !accepts(
            wanted,
            #[trigger] catalog[i],
        ) by {
            if accepts(wanted, catalog[i]) {
                catalog.lemma_filter_contains(pass, i);
            }
        }
    }
}

/// An empty catalog resolves to nothing, whatever asset is wanted, whatever
/// the baseline and whatever rule ranks the versions.
pub proof fn law_empty_catalog_resolves_to_nothing(
    wanted: Option<Seq<char>>,
    baseline: Option<Seq<char>>,
    rule: RankRule,
)
    ensures
        matching(wanted, Seq::<ReleaseView>::empty()).len() == 0,
        resolution(wanted, Seq::<ReleaseView>::empty(), rule) is None,
        newer_resolution(wanted, baseline, Seq::<ReleaseView>::empty(), rule) is None,
{
    reveal(Seq::filter);
}

/// Under the default ordering a version is not newer than itself, and is
/// newer than each version it ranks above.
pub proof fn law_newer_is_strictly_above(version: Seq<char>, current: Seq<char>)
    ensures
        !is_newer(Some(version), version, |a: Seq<char>, b: Seq<char>| simple_rank(a, b)),
        is_newer(Some(current), version, |a: Seq<char>, b: Seq<char>| simple_rank(a, b))
            <==> simple_rank(current, version) == Rank::Less,
{
    law_simple_rank_reflexive(version);
    law_simple_rank_antisymmetric(version, current);
}

} // verus!
