use app_route::RouteParseErr;
use app_route::params::{format_u64_param, parse_string_param, parse_u64_param, parse_u8_param};
use app_route::route::{CompiledRoute, RouteDefineError, RouteShape};

#[test]
fn no_params() {
    let fields: Vec<String> = vec![];
    let shape = RouteShape::define("/users", &fields).unwrap();
    let (caps, query) = shape.route().match_request("/users").unwrap();
    assert!(caps.is_empty());
    assert!(query.is_none());
}

#[test]
fn trailing_slash() {
    let route = CompiledRoute::compile("/users").unwrap();
    let path = route.match_request("/users/");
    match path {
        Err(RouteParseErr::NoMatches) => {}
        _ => assert!(false),
    }
}

#[test]
fn no_leading_slash() {
    let route = CompiledRoute::compile("/users").unwrap();
    let path = route.match_request("users");
    match path {
        Err(RouteParseErr::NoMatches) => {}
        _ => assert!(false),
    }
}

#[test]
fn one_param() {
    let route = CompiledRoute::compile("/users/:user_id").unwrap();
    let (caps, query) = route.match_request("/users/642151").unwrap();
    assert_eq!(caps.len(), 1);
    assert_eq!(caps[0].0, "user_id");
    let user_id = parse_u64_param(&caps[0].1).unwrap();
    assert_eq!(user_id, 642151);
    assert!(query.is_none());
}

#[test]
fn invalid_param_type() {
    let route = CompiledRoute::compile("/users/:user_id").unwrap();
    let (caps, _) = route.match_request("/users/not_a_u64").unwrap();
    let user_id = parse_u64_param(&caps[0].1);
    match user_id {
        Err(RouteParseErr::ParamParseErr(_)) => {}
        _ => assert!(false),
    }
}

#[test]
fn one_param_no_leading_slash() {
    let route = CompiledRoute::compile("/users/:user_id").unwrap();
    let path = route.match_request("users/4216");
    match path {
        Err(RouteParseErr::NoMatches) => {}
        _ => assert!(false),
    }
}

#[test]
fn two_params() {
    let route = CompiledRoute::compile("/users/:user_id/friends/:friend_name").unwrap();
    let (caps, _) = route.match_request("/users/612451/friends/steve").unwrap();
    assert_eq!(caps.len(), 2);
    assert_eq!(caps[0].0, "user_id");
    assert_eq!(caps[1].0, "friend_name");
    assert_eq!(parse_u64_param(&caps[0].1).unwrap(), 612451);
    assert_eq!(parse_string_param(&caps[1].1), "steve");
}

#[test]
fn two_params_utf8_1() {
    let route = CompiledRoute::compile("/users/:user_id/friends/:friend_name").unwrap();
    let (caps, _) = route.match_request("/users/612451/friends/田中").unwrap();
    assert_eq!(parse_u64_param(&caps[0].1).unwrap(), 612451);
    assert_eq!(parse_string_param(&caps[1].1), "田中");
}

#[test]
fn two_params_utf8_2() {
    let route = CompiledRoute::compile("/users/:user_id/friends/:friend_name").unwrap();
    let (caps, _) = route.match_request("/users/612451/friends/🌮🌮🌮").unwrap();
    assert_eq!(parse_u64_param(&caps[0].1).unwrap(), 612451);
    assert_eq!(parse_string_param(&caps[1].1), "🌮🌮🌮");
}

#[test]
fn one_param_num_out_of_range() {
    let route = CompiledRoute::compile("/users/:user_id").unwrap();
    let (caps, _) = route.match_request("/users/256").unwrap();
    let user_id = parse_u8_param(&caps[0].1);
    match user_id {
        Err(RouteParseErr::ParamParseErr(_)) => {}
        _ => assert!(false),
    }
}

#[test]
fn round_trip_one_param() {
    let route = CompiledRoute::compile("/users/:user_id").unwrap();
    let values = vec![format_u64_param(642151)];
    let path = route.render_path(&values);
    assert_eq!(path, "/users/642151");
    let (caps, query) = route.match_request(&path).unwrap();
    assert_eq!(parse_u64_param(&caps[0].1).unwrap(), 642151);
    assert!(query.is_none());
}

#[test]
fn path_pattern_text() {
    let route = CompiledRoute::compile("/users/:user_id").unwrap();
    assert_eq!(route.path_pattern(), r"^/users/(?P<user_id>[^/]+)$");
    assert_eq!(route.format_pattern(), "/users/{user_id}");
}

#[test]
fn capture_names_in_template_order() {
    let route = CompiledRoute::compile("/p/:project_id/exams/:exam_id").unwrap();
    let names = route.capture_names();
    assert_eq!(names, vec!["project_id".to_string(), "exam_id".to_string()]);
}

#[test]
fn define_rejects_extra_struct_field() {
    let fields = vec!["user_id".to_string(), "extra".to_string()];
    let res = RouteShape::define("/users/:user_id", &fields);
    match res {
        Err(RouteDefineError::Fields(m)) => {
            assert_eq!(m.missing_from_path, vec!["extra".to_string()]);
            assert!(m.missing_from_struct.is_empty());
        }
        _ => assert!(false),
    }
}

#[test]
fn define_rejects_missing_struct_field() {
    let fields: Vec<String> = vec![];
    let res = RouteShape::define("/users/:user_id", &fields);
    match res {
        Err(RouteDefineError::Fields(m)) => {
            assert!(m.missing_from_path.is_empty());
            assert_eq!(m.missing_from_struct, vec!["user_id".to_string()]);
        }
        _ => assert!(false),
    }
}

#[test]
fn define_rejects_bad_template() {
    let fields: Vec<String> = vec![];
    let res = RouteShape::define("users", &fields);
    match res {
        Err(RouteDefineError::Template(app_route::PathToRegexError::MissingLeadingForwardSlash)) => {}
        _ => assert!(false),
    }
}

#[test]
fn query_text_kept_out_of_match() {
    let route = CompiledRoute::compile("/users/:user_id").unwrap();
    let (caps, query) = route.match_request("/users/7?limit=2?x=1").unwrap();
    assert_eq!(caps[0].1, "7");
    assert_eq!(query, Some("limit=2?x=1".to_string()));
}

#[test]
fn query_fragments_joined_in_order() {
    let frags = vec![Some("a=1".to_string()), None, Some("b=2".to_string())];
    let joined = app_route::render::join_query_fragments(&frags);
    assert_eq!(joined, Some("a=1&b=2".to_string()));
    let none_present: Vec<Option<String>> = vec![None, None];
    assert_eq!(app_route::render::join_query_fragments(&none_present), None);
    assert_eq!(app_route::render::render_route("/users/1", &joined), "/users/1?a=1&b=2");
    assert_eq!(app_route::render::render_route("/users/1", &None), "/users/1");
}

#[test]
fn param_value_with_slash_never_matches() {
    let route = CompiledRoute::compile("/users/:user_id").unwrap();
    let res = route.match_request("/users/a/b");
    match res {
        Err(RouteParseErr::NoMatches) => {}
        _ => assert!(false),
    }
}
