use retool::convert::util::contains_sub;
use retool::convert::util::int_to_string;
use retool::convert::util::join_conjunct;
use retool::convert::util::join_with;
use retool::convert::util::ordinal_form;
use retool::convert::util::str_eq;
use retool::convert::util::title_case;

#[test]
fn ordinal_suffixes_follow_last_digit() {
    assert_eq!(ordinal_form(1), "1st");
    assert_eq!(ordinal_form(2), "2nd");
    assert_eq!(ordinal_form(3), "3rd");
    assert_eq!(ordinal_form(4), "4th");
    assert_eq!(ordinal_form(0), "0th");
    assert_eq!(ordinal_form(20), "20th");
    assert_eq!(ordinal_form(22), "22nd");
    assert_eq!(ordinal_form(103), "103rd");
}

#[test]
fn ordinal_teens_always_take_th() {
    assert_eq!(ordinal_form(11), "11th");
    assert_eq!(ordinal_form(12), "12th");
    assert_eq!(ordinal_form(13), "13th");
    assert_eq!(ordinal_form(111), "111th");
    assert_eq!(ordinal_form(21), "21st");
}

#[test]
fn join_conjunct_empty_is_none() {
    assert_eq!(join_conjunct(vec![], ",", "or "), None);
}

#[test]
fn join_conjunct_single_is_unchanged() {
    assert_eq!(
        join_conjunct(vec!["a".to_string()], ",", "or "),
        Some("a".to_string())
    );
}

#[test]
fn join_conjunct_pair_uses_conjunction() {
    assert_eq!(
        join_conjunct(vec!["a".to_string(), "b".to_string()], ", ", "or "),
        Some("a or b".to_string())
    );
}

#[test]
fn join_conjunct_three_is_oxford_style() {
    assert_eq!(
        join_conjunct(
            vec!["a".to_string(), "b".to_string(), "c".to_string()],
            ", ",
            "or "
        ),
        Some("a, b, or c".to_string())
    );
}

#[test]
fn join_with_separates_parts() {
    assert_eq!(join_with(&vec![], ", "), "");
    assert_eq!(join_with(&vec!["a".to_string()], ", "), "a");
    assert_eq!(
        join_with(&vec!["a".to_string(), "b".to_string(), "c".to_string()], ", "),
        "a, b, c"
    );
}

#[test]
fn title_case_capitalizes_each_segment() {
    assert_eq!(title_case("half-elf"), "Half-Elf");
    assert_eq!(title_case("ELF"), "Elf");
    assert_eq!(title_case("dragonborn"), "Dragonborn");
    assert_eq!(title_case(""), "");
    assert_eq!(title_case("a--b"), "A--B");
}

#[test]
fn int_to_string_renders_decimals() {
    assert_eq!(int_to_string(0), "0");
    assert_eq!(int_to_string(42), "42");
    assert_eq!(int_to_string(-7), "-7");
    assert_eq!(int_to_string(i64::MIN), "-9223372036854775808");
    assert_eq!(int_to_string(i64::MAX), "9223372036854775807");
}

#[test]
fn str_eq_compares_characters() {
    assert!(str_eq("abc", "abc"));
    assert!(!str_eq("abc", "abd"));
    assert!(!str_eq("abc", "ab"));
    assert!(str_eq("", ""));
}

#[test]
fn contains_sub_finds_runs() {
    assert!(contains_sub("list-hang-item", "list-hang"));
    assert!(contains_sub("abc", ""));
    assert!(!contains_sub("list", "list-hang"));
    assert!(contains_sub("x or y", " or "));
    assert!(!contains_sub("xor y", " or "));
}
