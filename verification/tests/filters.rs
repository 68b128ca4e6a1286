use stealer::filter::{
    decide, first_matching_client, is_supported, select_client, FilterEntry, HttpFilter,
    UNSUPPORTED_PATTERN,
};
use stealer::protocol::{
    FilterPartSpec, FilterSubject, HttpFilterSpec, HttpHeader, MatchMode, ParsedRequest,
};
use stealer::version::{ProtocolVersion, HTTP_FRAMED_VERSION};

fn request(method: &str, path: &str, headers: &[(&str, &str)]) -> ParsedRequest {
    ParsedRequest {
        method: method.to_string(),
        path: path.to_string(),
        headers: headers
            .iter()
            .map(|(name, value)| HttpHeader { name: name.to_string(), value: value.to_string() })
            .collect(),
        body: Vec::new(),
    }
}

fn part(subject: FilterSubject, pattern: &str) -> FilterPartSpec {
    FilterPartSpec { subject, pattern: pattern.to_string() }
}

#[test]
fn header_filter_matches_header_names_without_regard_to_case() {
    let filter = HttpFilter::new_header_filter("^x-test$").unwrap();
    assert!(filter.matches(&request("GET", "/", &[("X-Test", "1")])));
    assert!(filter.matches(&request("GET", "/", &[("Host", "a"), ("x-TEST", "")])));
    assert!(!filter.matches(&request("GET", "/", &[("X-Tested", "1")])));
    assert!(!filter.matches(&request("GET", "/x-test", &[("Host", "x-test")])));
    assert!(!filter.matches(&request("GET", "/", &[])));
}

#[test]
fn header_filter_reports_the_compilers_message() {
    let error = HttpFilter::new_header_filter("a(").unwrap_err();
    assert_eq!(error, fancy_regex::Regex::new("(?i)a(").unwrap_err().to_string());
    let error = HttpFilter::new_header_filter("\\").unwrap_err();
    assert_eq!(error, fancy_regex::Regex::new("(?i)\\").unwrap_err().to_string());
}

#[test]
fn header_filter_takes_look_around() {
    let filter = HttpFilter::new_header_filter("^x-(?!internal)").unwrap();
    assert!(filter.matches(&request("GET", "/", &[("X-Public", "1")])));
    assert!(!filter.matches(&request("GET", "/", &[("X-Internal", "1")])));
}

#[test]
fn extended_filter_matches_path_and_method() {
    let spec = HttpFilterSpec {
        mode: MatchMode::All,
        parts: vec![part(FilterSubject::Path, "^/api/"), part(FilterSubject::Method, "^post$")],
    };
    let filter = HttpFilter::try_from_spec(&spec).unwrap();
    assert!(filter.matches(&request("POST", "/API/users", &[])));
    assert!(!filter.matches(&request("GET", "/api/users", &[])));
    assert!(!filter.matches(&request("POST", "/home", &[])));
}

#[test]
fn extended_filter_in_any_mode_needs_one_part() {
    let spec = HttpFilterSpec {
        mode: MatchMode::Any,
        parts: vec![part(FilterSubject::Path, "^/api/"), part(FilterSubject::Header, "^x-debug$")],
    };
    let filter = HttpFilter::try_from_spec(&spec).unwrap();
    assert!(filter.matches(&request("GET", "/api/users", &[])));
    assert!(filter.matches(&request("GET", "/", &[("X-Debug", "on")])));
    assert!(!filter.matches(&request("GET", "/", &[("Host", "a")])));
}

#[test]
fn extended_filter_without_parts() {
    let all = HttpFilterSpec { mode: MatchMode::All, parts: vec![] };
    let any = HttpFilterSpec { mode: MatchMode::Any, parts: vec![] };
    let all = HttpFilter::try_from_spec(&all).unwrap();
    let any = HttpFilter::try_from_spec(&any).unwrap();
    assert!(all.matches(&request("GET", "/", &[])));
    assert!(!any.matches(&request("GET", "/", &[])));
}

#[test]
fn extended_filter_reports_the_first_bad_pattern() {
    let spec = HttpFilterSpec {
        mode: MatchMode::All,
        parts: vec![
            part(FilterSubject::Path, "ok"),
            part(FilterSubject::Header, "(one"),
            part(FilterSubject::Method, "[two"),
        ],
    };
    let error = HttpFilter::try_from_spec(&spec).unwrap_err();
    assert_eq!(error, fancy_regex::Regex::new("(?i)(one").unwrap_err().to_string());
}

#[test]
fn first_match_goes_by_the_order_of_subscription() {
    let filters = vec![
        FilterEntry { client_id: 4, filter: HttpFilter::new_header_filter("^never$").unwrap() },
        FilterEntry { client_id: 2, filter: HttpFilter::new_header_filter("^x-").unwrap() },
        FilterEntry { client_id: 7, filter: HttpFilter::new_header_filter("test").unwrap() },
    ];
    assert_eq!(first_matching_client(&filters, &request("GET", "/", &[("X-Test", "1")])), Some(2));
    assert_eq!(first_matching_client(&filters, &request("GET", "/", &[("Testing", "1")])), Some(7));
    assert_eq!(first_matching_client(&filters, &request("GET", "/", &[("Host", "1")])), None);
    assert_eq!(first_matching_client(&Vec::new(), &request("GET", "/", &[("X-Test", "1")])), None);
}

#[test]
fn cloned_filter_matches_as_its_source() {
    let filter = HttpFilter::new_header_filter("^x-test$").unwrap();
    let copy = filter.clone();
    assert_eq!(filter, copy);
    assert!(copy.matches(&request("GET", "/", &[("X-Test", "1")])));
}

#[test]
fn framed_form_starts_at_its_threshold() {
    assert_eq!(HTTP_FRAMED_VERSION, ">=1.3.0");
    assert!(ProtocolVersion::new(1, 3, 0).takes_framed());
    assert!(ProtocolVersion::new(1, 3, 1).takes_framed());
    assert!(ProtocolVersion::new(1, 10, 0).takes_framed());
    assert!(ProtocolVersion::new(2, 0, 0).takes_framed());
    assert!(!ProtocolVersion::new(1, 2, 9).takes_framed());
    assert!(!ProtocolVersion::new(0, 9, 9).takes_framed());
}

#[test]
fn framed_form_is_not_for_pre_releases() {
    let version = ProtocolVersion {
        major: 1,
        minor: 4,
        patch: 0,
        pre: "alpha.1".to_string(),
        build: String::new(),
    };
    assert!(!version.takes_framed());
    let built = ProtocolVersion {
        major: 1,
        minor: 4,
        patch: 0,
        pre: String::new(),
        build: "build.5".to_string(),
    };
    assert!(built.takes_framed());
}

#[test]
fn version_requirements_are_evaluated_by_their_text() {
    let version = ProtocolVersion::new(1, 2, 3);
    assert!(version.meets("^1.2"));
    assert!(version.meets("=1.2.3"));
    assert!(!version.meets("<1.2.3"));
    assert!(!version.meets("not a requirement"));
    let odd = ProtocolVersion {
        major: 1,
        minor: 2,
        patch: 3,
        pre: "not valid!".to_string(),
        build: String::new(),
    };
    assert!(!odd.meets("*"));
}

#[test]
fn decide_goes_by_the_mode() {
    assert!(decide(MatchMode::All, &vec![]));
    assert!(!decide(MatchMode::Any, &vec![]));
    assert!(decide(MatchMode::All, &vec![true, true]));
    assert!(!decide(MatchMode::All, &vec![true, false, true]));
    assert!(decide(MatchMode::Any, &vec![false, false, true]));
    assert!(!decide(MatchMode::Any, &vec![false, false]));
}

#[test]
fn select_client_takes_the_first_true_outcome() {
    let filters = vec![
        FilterEntry { client_id: 4, filter: HttpFilter::new_header_filter("a").unwrap() },
        FilterEntry { client_id: 2, filter: HttpFilter::new_header_filter("b").unwrap() },
        FilterEntry { client_id: 7, filter: HttpFilter::new_header_filter("c").unwrap() },
    ];
    assert_eq!(select_client(&filters, &vec![false, true, true]), Some(2));
    assert_eq!(select_client(&filters, &vec![true, true, true]), Some(4));
    assert_eq!(select_client(&filters, &vec![false, false, true]), Some(7));
    assert_eq!(select_client(&filters, &vec![false, false, false]), None);
    assert_eq!(select_client(&filters, &vec![]), None);
    assert_eq!(select_client(&filters, &vec![false, false, false, true]), None);
    assert_eq!(select_client(&filters, &vec![false, true, false, true]), Some(2));
}

#[test]
fn patterns_with_refused_constructs_are_not_supported() {
    for pattern in [
        "(?(1)",
        "(?(1)a|b)",
        "(?(?=a)b|c",
        "( ?(1)a)",
        "(\t?(1)a)",
        "((?#note)?(1)",
        "a(?#note)b",
        "\\k<name>",
        "(a)\\k<1>",
        "a{100}",
        "a{1,100}",
        "a{1, 100}",
        "a{ 100}",
        "\\x{0041}",
        "a{1}b{1}c{1}d{1}e{1}f{1}g{1}",
    ] {
        assert!(!is_supported(pattern), "{pattern}");
        assert_eq!(HttpFilter::new_header_filter(pattern).unwrap_err(), UNSUPPORTED_PATTERN);
    }
    assert!(!is_supported(&"a".repeat(1025)));
}

#[test]
fn ordinary_patterns_are_supported() {
    for pattern in [
        "",
        "^x-test$",
        "a?(b)",
        "(a)?(b)",
        "(?:a|b)?(c)",
        "(?i)?(a)",
        "x-(?!internal)",
        "(?<=a)b",
        "(?P<name>a)(?P=name)",
        "(a)\\1",
        "a{1,99}",
        "\\d{2}",
        "/users/1234",
        "a{1}b{1}c{1}d{1}e{1}f{1}",
        "\\p{Greek}",
        "é?(ü)",
    ] {
        assert!(is_supported(pattern), "{pattern}");
        if let Ok(filter) = HttpFilter::new_header_filter(pattern) {
            filter.matches(&request("GET", "/", &[("X-Test", "1")]));
        }
    }
    assert!(is_supported(&"a".repeat(1024)));
    assert!(HttpFilter::new_header_filter("a?(b)").is_ok());
    assert!(HttpFilter::new_header_filter("(?i)?(a)").is_err());
    assert!(HttpFilter::new_header_filter(&"a".repeat(1020)).is_ok());
    assert!(HttpFilter::new_header_filter(&"a".repeat(1021)).is_err());
}
