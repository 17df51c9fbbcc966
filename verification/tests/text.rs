use maypop::text::{
    decimal_text, eq_ignore_ascii_case, join_strings, lines, replace, split, split_once,
    text_less, to_ascii_lowercase, trim, trim_url,
};

#[test]
fn numbers_are_written_in_decimal() {
    assert_eq!(decimal_text(0), "0");
    assert_eq!(decimal_text(7), "7");
    assert_eq!(decimal_text(1234), "1234");
    assert_eq!(decimal_text(-45), "-45");
    assert_eq!(decimal_text(i32::MIN), "-2147483648");
    assert_eq!(decimal_text(i32::MAX), "2147483647");
}

#[test]
fn strings_are_joined_with_separators() {
    assert_eq!(join_strings(&Vec::new(), ", "), "");
    assert_eq!(join_strings(&vec!["a".to_string()], ", "), "a");
    assert_eq!(
        join_strings(&vec!["a".to_string(), "b".into(), "c".into()], "/"),
        "a/b/c"
    );
}

#[test]
fn lines_drop_carriage_returns_and_a_final_empty_line() {
    assert_eq!(lines("a\r\nb\n\nc\n"), vec!["a", "b", "", "c"]);
    assert_eq!(lines(""), Vec::<String>::new());
    assert_eq!(lines("x\r"), vec!["x\r"]);
}

#[test]
fn splitting_trimming_and_comparing_follow_std() {
    assert_eq!(split("a/b//c", '/'), vec!["a", "b", "", "c"]);
    assert_eq!(
        split_once("key=value=more", '='),
        Some(("key".to_string(), "value=more".to_string()))
    );
    assert_eq!(split_once("novalue", '='), None);
    assert_eq!(trim("\t hi there \u{3000}"), "hi there");
    assert_eq!(trim_url("https://a.example///"), "https://a.example");
    assert_eq!(replace("a'b", '\'', "''"), "a''b");
    assert_eq!(to_ascii_lowercase("MiXeD É"), "mixed É");
    assert!(eq_ignore_ascii_case("Search", "sEARCH"));
    assert!(text_less("abc", "abd"));
    assert!(text_less("ab", "abc"));
    assert!(!text_less("b", "abc"));
}
