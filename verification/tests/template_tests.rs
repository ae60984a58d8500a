use app_route::PathToRegexError;
use app_route::params::{format_u64_param, parse_u64_param};
use app_route::template::path_to_regex;

#[test]
fn test_path_to_regex() {
    let (regex, _) = path_to_regex("/p/:project_id/exams/:exam_id/submissions_expired").unwrap();
    assert_eq!(
        regex,
        r"^/p/(?P<project_id>[^/]+)/exams/(?P<exam_id>[^/]+)/submissions_expired$"
    );
}

#[test]
fn test_path_to_regex_no_path_params() {
    let (regex, _) = path_to_regex("/p/exams/submissions_expired").unwrap();
    assert_eq!(regex, r"^/p/exams/submissions_expired$");
}

#[test]
fn test_path_to_regex_no_leading_slash() {
    let regex = path_to_regex("p/exams/submissions_expired");
    assert_eq!(regex, Err(PathToRegexError::MissingLeadingForwardSlash));
}

#[test]
fn test_path_to_regex_non_ascii_chars() {
    let regex = path_to_regex("🥖p🥖:project_id🥖exams🥖:exam_id🥖submissions_expired");
    assert_eq!(regex, Err(PathToRegexError::NonAsciiChars));
}

#[test]
fn test_path_to_regex_invalid_ident() {
    let regex = path_to_regex("/p/:project_id/exams/:exam*ID/submissions_expired");
    assert_eq!(
        regex,
        Err(PathToRegexError::InvalidIdentifier("exam*ID".to_string()))
    );

    let regex = path_to_regex("/p/:project_id/exams/:_exam_id/submissions_expired");
    assert_eq!(
        regex,
        Err(PathToRegexError::InvalidIdentifier("_exam_id".to_string()))
    );
}

#[test]
fn test_path_to_regex_invalid_ending() {
    let regex = path_to_regex("/p/:project_id/exams/:exam_id/submissions_expired/");
    assert_eq!(regex, Err(PathToRegexError::InvalidTrailingSlash));
}

#[test]
fn compile_is_deterministic() {
    let a = path_to_regex("/groups/:group_id/users").unwrap();
    let b = path_to_regex("/groups/:group_id/users").unwrap();
    assert_eq!(a.0, b.0);
    assert_eq!(a.1, b.1);
}

#[test]
fn format_string_has_substitution_slots() {
    let (_, format_str) = path_to_regex("/users/:user_id/friends/:friend_name").unwrap();
    assert_eq!(format_str, "/users/{user_id}/friends/{friend_name}");
}

#[test]
fn final_param_invalid_identifier() {
    let regex = path_to_regex("/users/:42id");
    assert_eq!(regex, Err(PathToRegexError::InvalidIdentifier("42id".to_string())));
}

#[test]
fn empty_param_name_invalid() {
    let regex = path_to_regex("/users/:/more");
    assert_eq!(regex, Err(PathToRegexError::InvalidIdentifier("".to_string())));
}

#[test]
fn lone_slash_is_trailing_slash() {
    let regex = path_to_regex("/");
    assert_eq!(regex, Err(PathToRegexError::InvalidTrailingSlash));
}

#[test]
fn param_in_mid_segment() {
    let (regex, format_str) = path_to_regex("/files/v:version").unwrap();
    assert_eq!(regex, r"^/files/v(?P<version>[^/]+)$");
    assert_eq!(format_str, "/files/v{version}");
}

#[test]
fn identifier_validation() {
    assert!(app_route::ident::is_valid_identifier("abc_123"));
    assert!(app_route::ident::is_valid_identifier("A"));
    assert!(!app_route::ident::is_valid_identifier(""));
    assert!(!app_route::ident::is_valid_identifier("_exam_id"));
    assert!(!app_route::ident::is_valid_identifier("9abc"));
    assert!(!app_route::ident::is_valid_identifier("exam*ID"));
}

#[test]
fn parse_u64_param_bounds() {
    assert_eq!(parse_u64_param("18446744073709551615").unwrap(), u64::MAX);
    assert!(parse_u64_param("18446744073709551616").is_err());
    assert!(parse_u64_param("").is_err());
    assert!(parse_u64_param("12x3").is_err());
    assert_eq!(parse_u64_param("0").unwrap(), 0);
}

#[test]
fn format_u64_param_decimal() {
    assert_eq!(format_u64_param(0), "0");
    assert_eq!(format_u64_param(642151), "642151");
    assert_eq!(format_u64_param(u64::MAX), "18446744073709551615");
}
