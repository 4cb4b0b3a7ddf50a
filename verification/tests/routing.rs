use platform_rs::authn::AuthRoute;
use platform_rs::dashboard::routes::DashboardRoute;
use platform_rs::routing::{build_url, Prefix, QueryParams, SerializableAsUrl};
use platform_rs::text::{strip_slashes, text_eq, text_leq};

enum TestRoute {
    Login,
    Slashed,
}

impl SerializableAsUrl for TestRoute {
    fn as_url(&self) -> &'static str {
        match self {
            TestRoute::Login => "/login",
            TestRoute::Slashed => "/slash/",
        }
    }
}

fn pairs(items: &[(&str, &str)]) -> QueryParams {
    QueryParams::From(
        items
            .iter()
            .map(|(k, v)| (k.to_string(), v.to_string()))
            .collect(),
    )
}

#[test]
fn test_build_url_with_prefix_and_without_query_params() {
    let result = build_url(Prefix::Nested("auth"), TestRoute::Login, QueryParams::Empty);

    assert_eq!("/auth/login", result);
}

#[test]
fn test_build_url_with_prefix_and_query_params() {
    let result = build_url(
        Prefix::Root,
        TestRoute::Login,
        QueryParams::From(vec![
            ("a".to_string(), "1".to_string()),
            ("b".to_string(), "2".to_string()),
        ]),
    );

    assert_eq!("/login?a=1&b=2", result);
}

#[test]
fn test_build_url_without_prefix_and_without_query_params() {
    let result = build_url(Prefix::Root, TestRoute::Login, QueryParams::Empty);

    assert_eq!("/login", result);
}

#[test]
fn test_should_deduplicate_forward_slashes() {
    let result = build_url(
        Prefix::Nested("//auth/"),
        TestRoute::Slashed,
        QueryParams::Empty,
    );

    assert_eq!("/auth/slash", result);
}

#[test]
fn query_params_come_out_sorted_whatever_their_order() {
    let forward = build_url(Prefix::Root, TestRoute::Login, pairs(&[("a", "1"), ("b", "2"), ("c", "3")]));
    let backward = build_url(Prefix::Root, TestRoute::Login, pairs(&[("c", "3"), ("b", "2"), ("a", "1")]));
    assert_eq!(forward, "/login?a=1&b=2&c=3");
    assert_eq!(forward, backward);
}

#[test]
fn a_later_parameter_replaces_an_earlier_one_of_the_same_name() {
    let result = build_url(Prefix::Root, TestRoute::Login, pairs(&[("lang", "en"), ("lang", "fr"), ("a", "1")]));
    assert_eq!(result, "/login?a=1&lang=fr");
}

#[test]
fn entries_are_sorted_as_whole_texts() {
    // "a=2" < "aa=1" because '=' (0x3d) sorts before 'a' (0x61)
    let result = build_url(Prefix::Root, TestRoute::Login, pairs(&[("aa", "1"), ("a", "2")]));
    assert_eq!(result, "/login?a=2&aa=1");
}

#[test]
fn entries_sort_by_code_point_beyond_ascii() {
    let result = build_url(Prefix::Root, TestRoute::Login, pairs(&[("é", "1"), ("z", "2"), ("Z", "3")]));
    assert_eq!(result, "/login?Z=3&z=2&é=1");
}

#[test]
fn empty_parameter_list_still_adds_question_mark() {
    let result = build_url(Prefix::Root, TestRoute::Login, QueryParams::From(vec![]));
    assert_eq!(result, "/login?");
}

#[test]
fn documented_url_examples() {
    assert_eq!(build_url(Prefix::Root, DashboardRoute::Greetings, QueryParams::Empty), "/greet");
    assert_eq!(build_url(Prefix::Nested("baz"), AuthRoute::Signup, QueryParams::Empty), "/baz/signup");
    assert_eq!(
        build_url(Prefix::Root, AuthRoute::Login, pairs(&[("lang", "en")])),
        "/login?lang=en"
    );
}

#[test]
fn route_paths() {
    assert_eq!(AuthRoute::Login.as_url(), "/login");
    assert_eq!(AuthRoute::Logout.as_url(), "/logout");
    assert_eq!(AuthRoute::Signup.as_url(), "/signup");
    assert_eq!(DashboardRoute::Greetings.as_url(), "/greet");
}

#[test]
fn strip_and_compare_texts() {
    assert_eq!(strip_slashes("/a//b/"), "ab");
    assert_eq!(strip_slashes(""), "");
    assert!(text_leq("abc", "abd"));
    assert!(text_leq("ab", "abc"));
    assert!(!text_leq("abc", "ab"));
    assert!(text_leq("", ""));
    assert!(text_eq("true", "true"));
    assert!(!text_eq("true", "True"));
}

#[test]
fn url_depends_only_on_final_values() {
    let repeated = build_url(Prefix::Root, TestRoute::Login, pairs(&[("b", "0"), ("a", "1"), ("b", "2")]));
    let single = build_url(Prefix::Root, TestRoute::Login, pairs(&[("a", "1"), ("b", "2")]));
    assert_eq!(repeated, single);
    assert_eq!(single, "/login?a=1&b=2");
}
