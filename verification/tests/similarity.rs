use twitch_music_bot::similarity::{jaro_parts, JaroParts};

fn counts(a: &str, b: &str) -> (usize, usize, usize, usize, usize) {
    match jaro_parts(a, b) {
        JaroParts::Counts { matches, transpositions, prefix, len_a, len_b } => {
            (matches, transpositions, prefix, len_a, len_b)
        }
        other => panic!("unexpected {:?}", other),
    }
}

#[test]
fn jaro_winkler_identical() {
    assert!(matches!(jaro_parts("hello", "hello"), JaroParts::Identical));
}

#[test]
fn jaro_winkler_similar() {
    // Every character of the shorter text matches in order, with the full
    // four-character prefix: the score these parts give is above 0.95.
    assert_eq!(counts("never gonna give you up", "never gonna give you up!"), (23, 0, 4, 23, 24));
}

#[test]
fn jaro_winkler_different() {
    assert!(matches!(jaro_parts("abc", "xyz"), JaroParts::Unrelated));
}

#[test]
fn jaro_winkler_empty() {
    assert!(matches!(jaro_parts("", "abc"), JaroParts::Unrelated));
}

#[test]
fn parts_of_a_classic_transposition() {
    assert_eq!(counts("martha", "marhta"), (6, 2, 3, 6, 6));
}

#[test]
fn parts_respect_the_match_window() {
    // The `x` of "dixon" lies beyond the window of "dicksonx".
    match jaro_parts("dixon", "dicksonx") {
        JaroParts::Counts { matches, transpositions, prefix, len_a, len_b } => {
            assert_eq!((matches, transpositions, prefix, len_a, len_b), (4, 0, 2, 5, 8));
        }
        other => panic!("unexpected {:?}", other),
    }
}

#[test]
fn prefix_counts_at_most_four() {
    match jaro_parts("abcdefg", "abcdefh") {
        JaroParts::Counts { prefix, matches, .. } => {
            assert_eq!(prefix, 4);
            assert_eq!(matches, 6);
        }
        other => panic!("unexpected {:?}", other),
    }
}

#[test]
fn identical_and_unrelated_cases() {
    assert!(matches!(jaro_parts("", ""), JaroParts::Identical));
    assert!(matches!(jaro_parts("abc", ""), JaroParts::Unrelated));
    assert!(matches!(jaro_parts("abc", "xyz"), JaroParts::Unrelated));
    assert!(matches!(jaro_parts("héllo", "héllo"), JaroParts::Identical));
}
