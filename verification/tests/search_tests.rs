use retropad::search::{find_in_edit, replace_all_occurrences};

#[test]
fn finds_downward_from_the_start_position() {
    assert_eq!(find_in_edit("one two one", "one", true, true, 1), Some((8, 11)));
    assert_eq!(find_in_edit("one two one", "one", true, true, 0), Some((0, 3)));
}

#[test]
fn downward_search_wraps_round() {
    assert_eq!(find_in_edit("abc abc", "abc", true, true, 5), Some((0, 3)));
}

#[test]
fn finds_upward_before_the_start_position() {
    assert_eq!(find_in_edit("ab ab ab", "ab", true, false, 5), Some((3, 5)));
}

#[test]
fn upward_search_wraps_round() {
    assert_eq!(find_in_edit("xx ab ab", "ab", true, false, 1), Some((6, 8)));
}

#[test]
fn start_beyond_the_text_is_clamped() {
    assert_eq!(find_in_edit("abc", "c", true, true, 100), Some((2, 3)));
    assert_eq!(find_in_edit("abc", "a", true, false, 100), Some((0, 1)));
}

#[test]
fn ignores_case_unless_asked() {
    assert_eq!(find_in_edit("Hello World", "world", false, true, 0), Some((6, 11)));
    assert_eq!(find_in_edit("Hello World", "world", true, true, 0), None);
}

#[test]
fn empty_needle_or_missing_text_finds_nothing() {
    assert_eq!(find_in_edit("abc", "", true, true, 0), None);
    assert_eq!(find_in_edit("abc", "d", true, true, 0), None);
    assert_eq!(find_in_edit("", "a", true, false, 0), None);
}

#[test]
fn case_folding_covers_letters_beyond_ascii() {
    assert_eq!(find_in_edit("Grüße aus ÄGYPTEN", "äg", false, true, 0), Some((10, 12)));
}

#[test]
fn counts_characters_not_bytes() {
    assert_eq!(find_in_edit("héllo wörld", "wö", true, true, 0), Some((6, 8)));
}

#[test]
fn replaces_every_occurrence() {
    assert_eq!(
        replace_all_occurrences("a-b-c", "-", "+", true),
        Some(("a+b+c".to_string(), 2))
    );
}

#[test]
fn replacement_does_not_overlap() {
    assert_eq!(replace_all_occurrences("aaaa", "aa", "b", true), Some(("bb".to_string(), 2)));
    assert_eq!(replace_all_occurrences("aaa", "aa", "b", true), Some(("ba".to_string(), 1)));
}

#[test]
fn replace_all_ignoring_case_keeps_the_rest_of_the_text() {
    assert_eq!(
        replace_all_occurrences("Cat cat CAT dog", "cat", "fox", false),
        Some(("fox fox fox dog".to_string(), 3))
    );
}

#[test]
fn nothing_to_replace_gives_none() {
    assert_eq!(replace_all_occurrences("abc", "x", "y", true), None);
    assert_eq!(replace_all_occurrences("abc", "", "y", true), None);
}

#[test]
fn replacing_with_itself_changes_nothing() {
    let text = "to be or not to be";
    let (out, count) = replace_all_occurrences(text, "be", "be", true).unwrap();
    assert_eq!(out, text);
    assert_eq!(count, 2);
}

#[test]
fn replacement_may_be_empty_or_longer() {
    assert_eq!(replace_all_occurrences("a.b.c", ".", "", true), Some(("abc".to_string(), 2)));
    assert_eq!(replace_all_occurrences("x", "x", "xyz", true), Some(("xyz".to_string(), 1)));
}
