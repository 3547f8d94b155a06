use std::cmp::Ordering;

use release_resolver::rank::{
    char_compare, is_number_tag, tag_compare, tags_compare, text_compare, version_compare, Rank,
};
use release_resolver::strategy::{to_ordering, to_rank, SimpleTag};
use release_resolver::tags::{chars_of, split};

fn chars(s: &str) -> Vec<char> {
    s.chars().collect()
}

#[test]
fn numeric_tags_are_ranked_as_numbers() {
    assert_eq!(SimpleTag::simple_compare("1.9.0", "1.10.0"), Ordering::Less);
    assert_eq!(SimpleTag::simple_compare("1.10.0", "1.9.0"), Ordering::Greater);
    assert_eq!(SimpleTag::simple_compare("2.0.0", "1.99.99"), Ordering::Greater);
    assert_eq!(SimpleTag::simple_compare("10", "9"), Ordering::Greater);
}

#[test]
fn a_version_ranks_above_its_prefix() {
    assert_eq!(SimpleTag::simple_compare("1.2", "1.2.1"), Ordering::Less);
    assert_eq!(SimpleTag::simple_compare("1.2.1", "1.2"), Ordering::Greater);
    assert_eq!(SimpleTag::simple_compare("1.2", "1.2."), Ordering::Less);
}

#[test]
fn equal_versions_rank_equal() {
    assert_eq!(SimpleTag::simple_compare("1.2.3", "1.2.3"), Ordering::Equal);
    assert_eq!(SimpleTag::simple_compare("", ""), Ordering::Equal);
    assert_eq!(SimpleTag::simple_compare("2.0.0", "2.0.0"), Ordering::Equal);
}

#[test]
fn zeros_in_front_do_not_count() {
    assert_eq!(SimpleTag::simple_compare("1.02", "1.2"), Ordering::Equal);
    assert_eq!(SimpleTag::simple_compare("1.010", "1.9"), Ordering::Greater);
    assert_eq!(SimpleTag::simple_compare("000", "0"), Ordering::Equal);
}

#[test]
fn numbers_of_any_length_are_ranked() {
    assert_eq!(
        SimpleTag::simple_compare("1.99999999999999999999999999", "1.100000000000000000000000000"),
        Ordering::Less
    );
    assert_eq!(
        SimpleTag::simple_compare("18446744073709551616", "18446744073709551615"),
        Ordering::Greater
    );
}

#[test]
fn other_tags_are_ranked_as_strings() {
    assert_eq!(SimpleTag::simple_compare("1.0.alpha", "1.0.beta"), Ordering::Less);
    assert_eq!(SimpleTag::simple_compare("1.0.rc1", "1.0.9"), Ordering::Greater);
    assert_eq!(SimpleTag::simple_compare("1.10a", "1.9"), Ordering::Less);
    assert_eq!(SimpleTag::simple_compare("v2", "v10"), Ordering::Greater);
    assert_eq!(SimpleTag::simple_compare("1.", "1.0"), Ordering::Less);
    assert_eq!(SimpleTag::simple_compare("1.-1", "1.0"), Ordering::Less);
}

#[test]
fn the_first_differing_pair_decides() {
    assert_eq!(SimpleTag::simple_compare("1.2.9", "1.3.0"), Ordering::Less);
    assert_eq!(SimpleTag::simple_compare("3.0", "2.9.9.9"), Ordering::Greater);
}

#[test]
fn comparing_is_antisymmetric_on_samples() {
    let samples = ["1.0.0", "1.9.0", "1.10.0", "2", "2.0", "1.2", "1.2.1", "0.1.0", "10.0.1"];
    for a in samples {
        for b in samples {
            let ab = SimpleTag::simple_compare(a, b);
            let ba = SimpleTag::simple_compare(b, a);
            assert_eq!(ab, ba.reverse());
        }
    }
}

#[test]
fn version_compare_gives_ranks() {
    assert_eq!(version_compare("1.9.0", "1.10.0"), Rank::Less);
    assert_eq!(version_compare("1.10.0", "1.10.0"), Rank::Equal);
    assert_eq!(version_compare("1.10.1", "1.10.0"), Rank::Greater);
}

#[test]
fn ranks_and_orderings_correspond() {
    assert_eq!(to_ordering(Rank::Less), Ordering::Less);
    assert_eq!(to_ordering(Rank::Equal), Ordering::Equal);
    assert_eq!(to_ordering(Rank::Greater), Ordering::Greater);
    assert_eq!(to_rank(Ordering::Less), Rank::Less);
    assert_eq!(to_rank(Ordering::Equal), Rank::Equal);
    assert_eq!(to_rank(Ordering::Greater), Rank::Greater);
}

#[test]
fn chars_of_gives_each_character() {
    assert_eq!(chars_of("1.2"), vec!['1', '.', '2']);
    assert_eq!(chars_of(""), Vec::<char>::new());
    assert_eq!(chars_of("é.ü"), vec!['é', '.', 'ü']);
}

#[test]
fn split_cuts_at_each_delimiter() {
    assert_eq!(split(&chars("1.10.2")), vec![chars("1"), chars("10"), chars("2")]);
    assert_eq!(split(&chars("")), vec![chars("")]);
    assert_eq!(split(&chars("abc")), vec![chars("abc")]);
    assert_eq!(split(&chars("1.")), vec![chars("1"), chars("")]);
    assert_eq!(split(&chars(".1")), vec![chars(""), chars("1")]);
    assert_eq!(split(&chars("..")), vec![chars(""), chars(""), chars("")]);
}

#[test]
fn number_tags_hold_digits_only() {
    assert!(is_number_tag(&chars("0")));
    assert!(is_number_tag(&chars("0123456789")));
    assert!(!is_number_tag(&chars("")));
    assert!(!is_number_tag(&chars("12a")));
    assert!(!is_number_tag(&chars("-1")));
    assert!(!is_number_tag(&chars("+1")));
    assert!(!is_number_tag(&chars("1 ")));
}

#[test]
fn number_tags_rank_by_value() {
    assert_eq!(tag_compare(&chars("9"), &chars("10")), Rank::Less);
    assert_eq!(tag_compare(&chars("10"), &chars("9")), Rank::Greater);
    assert_eq!(tag_compare(&chars("007"), &chars("7")), Rank::Equal);
    assert_eq!(tag_compare(&chars("123"), &chars("124")), Rank::Less);
    assert_eq!(tag_compare(&chars("0"), &chars("0000")), Rank::Equal);
    assert_eq!(tag_compare(&chars("100"), &chars("99")), Rank::Greater);
}

#[test]
fn characters_rank_by_code_point() {
    assert_eq!(char_compare('a', 'b'), Rank::Less);
    assert_eq!(char_compare('b', 'a'), Rank::Greater);
    assert_eq!(char_compare('Z', 'a'), Rank::Less);
    assert_eq!(char_compare('9', '9'), Rank::Equal);
    assert_eq!(char_compare('z', 'é'), Rank::Less);
}

#[test]
fn text_compare_ranks_as_strings() {
    assert_eq!(text_compare(&chars("abc"), &chars("abd")), Rank::Less);
    assert_eq!(text_compare(&chars("abc"), &chars("ab")), Rank::Greater);
    assert_eq!(text_compare(&chars(""), &chars("a")), Rank::Less);
    assert_eq!(text_compare(&chars("10"), &chars("9")), Rank::Less);
    assert_eq!(text_compare(&chars("same"), &chars("same")), Rank::Equal);
}

#[test]
fn text_compare_agrees_with_string_order() {
    let samples = ["", "a", "ab", "b", "é", "z", "10", "9", "A", "ü1"];
    for a in samples {
        for b in samples {
            let expected = to_rank(a.cmp(b));
            assert_eq!(text_compare(&chars(a), &chars(b)), expected);
        }
    }
}

#[test]
fn tag_compare_picks_the_rule() {
    assert_eq!(tag_compare(&chars("9"), &chars("10")), Rank::Less);
    assert_eq!(tag_compare(&chars("9a"), &chars("10")), Rank::Greater);
    assert_eq!(tag_compare(&chars(""), &chars("0")), Rank::Less);
}

#[test]
fn tags_compare_ranks_lists() {
    let a = vec![chars("1"), chars("2")];
    let b = vec![chars("1"), chars("2"), chars("0")];
    assert_eq!(tags_compare(&a, &b), Rank::Less);
    assert_eq!(tags_compare(&b, &a), Rank::Greater);
    assert_eq!(tags_compare(&a, &a), Rank::Equal);
    assert_eq!(tags_compare(&Vec::new(), &a), Rank::Less);
}
