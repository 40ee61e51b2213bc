use aho_corasick::AhoCorasick;
use euphonica::common::genre::{
    get_genres, parse_genre_tag, parse_genre_values, split_tag, take_exceptions, Genre,
};
use euphonica::phrases::{cut, find_place};
use euphonica::utils::build_aho_corasick_automaton;

fn with_automatons<F: FnOnce(Option<&AhoCorasick>, Option<&AhoCorasick>)>(
    delims: &[&str],
    excepts: &[&str],
    f: F,
) {
    let delims = build_aho_corasick_automaton(delims).unwrap();
    let excepts = build_aho_corasick_automaton(excepts).unwrap();
    f(delims.as_ref(), excepts.as_ref());
}

#[test]
fn single_simple_value_is_unchanged() {
    with_automatons(&[",", ";", "/"], &[], |d, e| {
        assert_eq!(
            parse_genre_values(&["Rock".to_owned()], d, e),
            vec!["Rock".to_owned()]
        );
    });
}

#[test]
fn single_compound_value_is_split_on_comma() {
    with_automatons(&[",", ";", "/"], &[], |d, e| {
        assert_eq!(
            parse_genre_values(&["Rock, Pop".to_owned()], d, e),
            vec!["Rock".to_owned(), "Pop".to_owned()]
        );
    });
}

#[test]
fn single_compound_value_is_split_on_semicolon() {
    with_automatons(&[",", ";", "/"], &[], |d, e| {
        assert_eq!(
            parse_genre_values(&["Rock; Pop; Jazz".to_owned()], d, e),
            vec!["Rock".to_owned(), "Pop".to_owned(), "Jazz".to_owned()]
        );
    });
}

#[test]
fn ampersand_is_not_a_default_delimiter() {
    with_automatons(&[",", ";", "/"], &[], |d, e| {
        assert_eq!(
            parse_genre_values(&["Drum & Bass".to_owned()], d, e),
            vec!["Drum & Bass".to_owned()]
        );
    });
}

#[test]
fn multi_value_response_is_trusted_not_resplit() {
    with_automatons(&[",", ";", "/"], &[], |d, e| {
        // "Rock, Pop" contains a delimiter, but the server has given a list.
        assert_eq!(
            parse_genre_values(&["Jazz".to_owned(), "Rock, Pop".to_owned()], d, e),
            vec!["Jazz".to_owned(), "Rock, Pop".to_owned()]
        );
    });
}

#[test]
fn slash_exception_is_preserved() {
    with_automatons(&[",", ";", "/"], &["AC/DC"], |d, e| {
        assert_eq!(
            parse_genre_values(&["AC/DC".to_owned()], d, e),
            vec!["AC/DC".to_owned()]
        );
    });
}

#[test]
fn empty_exceptions_does_not_disable_splitting() {
    with_automatons(&[",", ";", "/"], &[], |d, e| {
        assert_eq!(
            parse_genre_values(&["Rock, Pop".to_owned()], d, e),
            vec!["Rock".to_owned(), "Pop".to_owned()]
        );
    });
}

#[test]
fn empty_input_returns_empty() {
    with_automatons(&[",", ";", "/"], &[], |d, e| {
        assert!(parse_genre_values(&[], d, e).is_empty());
        assert!(parse_genre_values(&["".to_owned()], d, e).is_empty());
        assert!(parse_genre_values(&["   ".to_owned()], d, e).is_empty());
    });
}

#[test]
fn whitespace_only_entries_are_dropped_in_multi() {
    with_automatons(&[",", ";", "/"], &[], |d, e| {
        assert_eq!(
            parse_genre_values(
                &["Rock".to_owned(), "  ".to_owned(), "Pop".to_owned()],
                d,
                e
            ),
            vec!["Rock".to_owned(), "Pop".to_owned()]
        );
    });
}

#[test]
fn exceptions_come_before_what_is_split() {
    with_automatons(&[",", ";", "/"], &["AC/DC"], |d, e| {
        assert_eq!(parse_genre_tag("Rock, AC/DC, Pop", d, e), vec!["AC/DC", "Rock", "Pop"]);
    });
}

#[test]
fn tag_without_delimiters_is_unchanged() {
    with_automatons(&[","], &[], |d, e| {
        assert_eq!(parse_genre_tag("  Rock ", d, e), vec!["  Rock "]);
        assert_eq!(parse_genre_tag("  Rock , Pop", d, e), vec!["Rock", "Pop"]);
    });
}

#[test]
fn tag_is_whole_where_no_delimiters_are_set() {
    with_automatons(&[], &[], |d, e| {
        assert!(d.is_none());
        assert_eq!(parse_genre_tag("Rock, Pop", d, e), vec!["Rock, Pop"]);
    });
}

#[test]
fn delimiters_of_several_bytes_split() {
    with_automatons(&[" \u{2022} "], &[], |d, e| {
        assert_eq!(
            parse_genre_tag("Fr\u{e9}d\u{e9}ric \u{2022} Rock", d, e),
            vec!["Fr\u{e9}d\u{e9}ric", "Rock"]
        );
    });
}

#[test]
fn longer_of_two_delimiters_wins_by_place() {
    // The first phrase that comes to its end is taken, so ";" is found inside ";;".
    with_automatons(&[";;", ";"], &[], |d, e| {
        assert_eq!(parse_genre_tag("Rock;;Pop", d, e), vec!["Rock", "Pop"]);
    });
}

#[test]
fn empty_list_of_phrases_has_no_automaton() {
    assert!(build_aho_corasick_automaton(&[]).unwrap().is_none());
    assert!(build_aho_corasick_automaton(&["/"]).unwrap().is_some());
}

#[test]
fn exceptions_are_blanked_in_place() {
    let (found, rest) = take_exceptions("a AC/DC b", &vec![(2, 7)]);
    assert_eq!(found, vec!["AC/DC"]);
    assert_eq!(rest, "a       b");
}

#[test]
fn places_are_those_of_characters() {
    let chars: Vec<char> = "a\u{e9}b".chars().collect();
    assert_eq!(find_place(&chars, 0), Some(0));
    assert_eq!(find_place(&chars, 1), Some(1));
    assert_eq!(find_place(&chars, 2), None);
    assert_eq!(find_place(&chars, 3), Some(2));
    assert_eq!(find_place(&chars, 4), Some(3));
    assert_eq!(cut("a\u{e9}b", &chars, 1, 3), Some("\u{e9}"));
    assert_eq!(cut("a\u{e9}b", &chars, 1, 2), None);
}

#[test]
fn tag_is_split_at_given_places() {
    assert_eq!(split_tag("a,b", Vec::new(), "a,b", &vec![(1, 2)]), vec!["a", "b"]);
}

#[test]
fn genres_of_a_song_are_distinct_values() {
    with_automatons(&[","], &[], |d, e| {
        let values = vec!["Rock, Rock".to_owned()];
        let genres = get_genres(&values, d, e);
        assert_eq!(genres[0], "Rock");
        assert!(get_genres(&Vec::new(), d, e).is_empty());
    });
}

#[test]
fn genre_keeps_its_name() {
    assert_eq!(Genre::new("Jazz").get_name(), "Jazz");
    assert_eq!(Genre::default().get_name(), "");
}

#[test]
fn exceptions_of_wide_characters_leave_the_rest_whole() {
    with_automatons(&[",", ";", "/"], &["\u{e9}/\u{4e2d}"], |d, e| {
        assert_eq!(
            parse_genre_tag("Rock/\u{e9}/\u{4e2d}, P\u{f6}p", d, e),
            vec!["\u{e9}/\u{4e2d}", "Rock", "P\u{f6}p"]
        );
    });
}
