use jira_tracker::columns::get_column_string;
use jira_tracker::models::Status;
use jira_tracker::prompts::{is_affirmative, status_from_input, u32_from_input};

#[test]
fn numeric_tokens_parse_as_unsigned_decimal() {
    assert_eq!(u32_from_input("0"), Some(0));
    assert_eq!(u32_from_input("42"), Some(42));
    assert_eq!(u32_from_input("+7"), Some(7));
    assert_eq!(u32_from_input("007"), Some(7));
    assert_eq!(u32_from_input("4294967295"), Some(u32::MAX));
    assert_eq!(u32_from_input("4294967296"), None);
    assert_eq!(u32_from_input(""), None);
    assert_eq!(u32_from_input("+"), None);
    assert_eq!(u32_from_input("1a"), None);
    assert_eq!(u32_from_input("-1"), None);
}

#[test]
fn test_get_column_string() {
    let text1 = "";
    let text2 = "test";
    let text3 = "testme";
    let text4 = "testmetest";

    let width = 0;

    assert_eq!(get_column_string(text4, width), "".to_owned());

    let width = 1;

    assert_eq!(get_column_string(text4, width), ".".to_owned());

    let width = 2;

    assert_eq!(get_column_string(text4, width), "..".to_owned());

    let width = 3;

    assert_eq!(get_column_string(text4, width), "...".to_owned());

    let width = 4;

    assert_eq!(get_column_string(text4, width), "t...".to_owned());

    let width = 6;

    assert_eq!(get_column_string(text1, width), "      ".to_owned());
    assert_eq!(get_column_string(text2, width), "test  ".to_owned());
    assert_eq!(get_column_string(text3, width), "testme".to_owned());
    assert_eq!(get_column_string(text4, width), "tes...".to_owned());
}

#[test]
fn column_string_counts_characters_not_bytes() {
    // each of these characters takes more than one byte
    assert_eq!(get_column_string("äöüäöü", 5), "äö...");
    assert_eq!(get_column_string("äöü", 3), "äöü");
    assert_eq!(get_column_string("äöü", 5), "äöü  ");
}

#[test]
fn status_prompt_accepts_the_four_choices() {
    assert_eq!(status_from_input("1"), Some(Status::Open));
    assert_eq!(status_from_input("2"), Some(Status::InProgress));
    assert_eq!(status_from_input("3"), Some(Status::Resolved));
    assert_eq!(status_from_input("4"), Some(Status::Closed));
}

#[test]
fn status_prompt_rejects_everything_else() {
    assert_eq!(status_from_input(""), None);
    assert_eq!(status_from_input("0"), None);
    assert_eq!(status_from_input("5"), None);
    assert_eq!(status_from_input("12"), None);
    assert_eq!(status_from_input("x"), None);
    assert_eq!(status_from_input("2x"), None);
    assert_eq!(status_from_input("-1"), None);
    assert_eq!(status_from_input("99999999999999999999"), None);
}

#[test]
fn status_prompt_parses_as_unsigned_decimal() {
    // a plus sign and leading zeros are part of unsigned decimal syntax
    assert_eq!(status_from_input("+2"), Some(Status::InProgress));
    assert_eq!(status_from_input("04"), Some(Status::Closed));
    assert_eq!(status_from_input("+"), None);
}

#[test]
fn confirmation_is_affirmative_only_on_the_exact_token() {
    assert_eq!(is_affirmative("Y"), true);
    assert_eq!(is_affirmative("y"), false);
    assert_eq!(is_affirmative(""), false);
    assert_eq!(is_affirmative("Yes"), false);
    assert_eq!(is_affirmative("N"), false);
}
