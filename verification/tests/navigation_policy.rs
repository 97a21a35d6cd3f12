use libe_desk::error::AppError;
use libe_desk::navigation_policy::{
    allows_navigation, check_external_url, decide_for_parts, decide_navigation, host_is_home,
    new_window_action, NavigationDecision, NewWindowAction, UrlParts,
};

#[test]
fn accepts_libe_city_hosts() {
    assert_eq!(
        decide_navigation("https://libecity.com/"),
        NavigationDecision::Internal
    );
    assert_eq!(
        decide_navigation("https://library.libecity.com/a"),
        NavigationDecision::Internal
    );
}

#[test]
fn rejects_deceptive_or_unsafe_urls() {
    assert_eq!(
        decide_navigation("https://libecity.com.example.org"),
        NavigationDecision::External
    );
    assert_eq!(
        decide_navigation("javascript:alert(1)"),
        NavigationDecision::Reject
    );
    assert_eq!(decide_navigation("not a url"), NavigationDecision::Reject);
}

#[test]
fn plain_http_pages_of_the_app_are_internal() {
    assert_eq!(
        decide_navigation("http://skill.libecity.com/items?id=3"),
        NavigationDecision::Internal
    );
}

#[test]
fn host_case_does_not_matter() {
    assert_eq!(
        decide_navigation("https://Ichiba.LibeCity.COM/"),
        NavigationDecision::Internal
    );
    assert_eq!(
        decide_navigation("HTTPS://LIBECITY.COM/"),
        NavigationDecision::Internal
    );
}

#[test]
fn deep_subdomains_are_internal() {
    assert_eq!(
        decide_navigation("https://a.b.libecity.com/x"),
        NavigationDecision::Internal
    );
}

#[test]
fn lookalike_hosts_are_external() {
    assert_eq!(
        decide_navigation("https://evillibecity.com/"),
        NavigationDecision::External
    );
    assert_eq!(
        decide_navigation("https://libecity.co/"),
        NavigationDecision::External
    );
    assert_eq!(
        decide_navigation("https://example.org/?next=libecity.com"),
        NavigationDecision::External
    );
}

#[test]
fn mail_and_phone_links_are_external() {
    assert_eq!(
        decide_navigation("mailto:someone@example.org"),
        NavigationDecision::External
    );
    assert_eq!(
        decide_navigation("tel:+81-3-0000-0000"),
        NavigationDecision::External
    );
}

#[test]
fn other_schemes_are_rejected() {
    assert_eq!(decide_navigation("ftp://libecity.com/"), NavigationDecision::Reject);
    assert_eq!(decide_navigation("file:///etc/passwd"), NavigationDecision::Reject);
    assert_eq!(
        decide_navigation("data:text/html,<p>hi</p>"),
        NavigationDecision::Reject
    );
    assert_eq!(decide_navigation(""), NavigationDecision::Reject);
}

#[test]
fn decide_for_parts_follows_scheme_and_host() {
    let parts = |scheme: &str, host: Option<&str>| UrlParts {
        scheme: scheme.to_string(),
        host: host.map(|h| h.to_string()),
    };
    assert_eq!(
        decide_for_parts(&parts("https", Some("LIBECITY.com"))),
        NavigationDecision::Internal
    );
    assert_eq!(
        decide_for_parts(&parts("http", Some("x.libecity.com"))),
        NavigationDecision::Internal
    );
    assert_eq!(
        decide_for_parts(&parts("https", Some("libecity.com.evil"))),
        NavigationDecision::External
    );
    assert_eq!(
        decide_for_parts(&parts("https", None)),
        NavigationDecision::Reject
    );
    assert_eq!(
        decide_for_parts(&parts("mailto", None)),
        NavigationDecision::External
    );
    assert_eq!(
        decide_for_parts(&parts("tel", Some("libecity.com"))),
        NavigationDecision::External
    );
    assert_eq!(
        decide_for_parts(&parts("ws", Some("libecity.com"))),
        NavigationDecision::Reject
    );
}

#[test]
fn home_host_check() {
    assert!(host_is_home("libecity.com"));
    assert!(host_is_home("LIBRARY.LIBECITY.COM"));
    assert!(!host_is_home("libecity.com."));
    assert!(!host_is_home("xlibecity.com"));
    assert!(!host_is_home(""));
}

#[test]
fn navigation_inside_a_tab_only_to_the_app() {
    assert!(allows_navigation("https://libecity.com/room/1"));
    assert!(!allows_navigation("https://example.org/"));
    assert!(!allows_navigation("mailto:a@b.c"));
    assert!(!allows_navigation("javascript:void(0)"));
}

#[test]
fn new_window_requests() {
    assert_eq!(
        new_window_action("https://library.libecity.com/"),
        NewWindowAction::OpenInTab
    );
    assert_eq!(
        new_window_action("https://example.org/"),
        NewWindowAction::OpenOutside
    );
    assert_eq!(new_window_action("about:blank"), NewWindowAction::Ignore);
}

#[test]
fn external_open_requests() {
    assert!(check_external_url("https://example.org/").is_ok());
    assert!(check_external_url("tel:0120").is_ok());
    assert!(matches!(
        check_external_url("https://libecity.com/"),
        Err(AppError::InvalidUrl)
    ));
    assert!(matches!(
        check_external_url("nonsense"),
        Err(AppError::InvalidUrl)
    ));
}
