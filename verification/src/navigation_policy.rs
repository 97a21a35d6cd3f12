//! Where a URL may be opened: inside the app, in the system's handler, or nowhere.

use vstd::prelude::*;
use vstd::string::*;

use crate::error::AppError;
use crate::text::{
    ascii_lower, ascii_lowercase, has_suffix, lower_equals, lower_has_suffix, str_eq,
};

verus! {

/// What the shell does with a URL that a page asks to load.
#[derive(Debug, Clone, Copy, PartialEq, Eq, Structural)]
pub enum NavigationDecision {
    /// Load it in an app tab.
    Internal,
    /// Hand it to the operating system (browser, mail client, phone).
    External,
    /// Refuse it.
    Reject,
}

/// What the shell reads of a parsed URL: its scheme and, where it has one, its host.
pub struct UrlParts {
    pub scheme: String,
    pub host: Option<String>,
}

/// The mathematical value of `UrlParts`.
pub struct UrlPartsView {
    pub scheme: Seq<char>,
    pub host: Option<Seq<char>>,
}

impl View for UrlParts {
    type V = UrlPartsView;

    open spec fn view(&self) -> UrlPartsView {
        UrlPartsView {
            scheme: self.scheme@,
            host: match self.host {
                Some(h) => Some(h@),
                None => None,
            },
        }
    }
}

/// The error of `url::Url::parse`, carried through opaquely.
#[verifier::external_type_specification]
#[verifier::external_body]
pub struct ExUrlParseError(url::ParseError);

/// The scheme and host that the WHATWG URL parser of the `url` crate reads from `raw`,
/// or `None` where it does not accept `raw` as an absolute URL.
pub uninterp spec fn url_reading(raw: Seq<char>) -> Option<UrlPartsView>;

/// Calls `url::Url::parse` on `raw` and, on success, reads the result's `Url::scheme` and
/// `Url::host_str` into plain strings.  Trusted: the contract claims only that success and
/// the two strings are those that the parser gives for `raw` (named by `url_reading`); what
/// the parser accepts and how it normalises is the `url` crate's and is not stated here.
#[verifier::external_body]
pub(crate) fn read_url(raw: &str) -> (r: Result<UrlParts, url::ParseError>)
    ensures
        r is Ok <==> url_reading(raw@) is Some,
        r matches Ok(p) ==> url_reading(raw@) == Some(p@),
{
    match url::Url::parse(raw) {
        Ok(u) => Ok(
            UrlParts { scheme: u.scheme().to_string(), host: u.host_str().map(|h| h.to_string()) },
        ),
        Err(e) => Err(e),
    }
}

/// The app's own domain.
pub open spec fn home_domain() -> Seq<char> {
    "libecity.com"@
}

/// The suffix shared by every subdomain of the app's domain.
pub open spec fn home_subdomain_suffix() -> Seq<char> {
    ".libecity.com"@
}

/// A host belongs to the app when, ignoring ASCII case, it is the app's domain or one of
/// its subdomains.
pub open spec fn is_home_host(host: Seq<char>) -> bool {
    let low = ascii_lowercase(host);
    low == home_domain() || has_suffix(low, home_subdomain_suffix())
}

/// Whether a scheme names a web page.
pub open spec fn is_web_scheme(scheme: Seq<char>) -> bool {
    scheme == "https"@ || scheme == "http"@
}

/// Whether a scheme is handed to the system's mail or phone handler.
pub open spec fn is_contact_scheme(scheme: Seq<char>) -> bool {
    scheme == "mailto"@ || scheme == "tel"@
}

/// The decision for a URL of which `p` was read.
pub open spec fn decision_for(p: UrlPartsView) -> NavigationDecision {
    if is_contact_scheme(p.scheme) {
        NavigationDecision::External
    } else if is_web_scheme(p.scheme) {
        match p.host {
            None => NavigationDecision::Reject,
            Some(h) => if is_home_host(h) {
                NavigationDecision::Internal
            } else {
                NavigationDecision::External
            },
        }
    } else {
        NavigationDecision::Reject
    }
}

/// The decision for a raw URL: a URL that does not parse is refused.
pub open spec fn navigation_decision(raw: Seq<char>) -> NavigationDecision {
    match url_reading(raw) {
        None => NavigationDecision::Reject,
        Some(p) => decision_for(p),
    }
}

/// Decides `is_home_host`.
pub fn host_is_home(host: &str) -> (r: bool)
    ensures
        r == is_home_host(host@),
{
    lower_equals(host, "libecity.com") || lower_has_suffix(host, ".libecity.com")
}

/// The decision for a URL already read into its scheme and host.
pub fn decide_for_parts(parts: &UrlParts) -> (d: NavigationDecision)
    ensures
        d == decision_for(parts@),
{
    let scheme = parts.scheme.as_str();
    if str_eq(scheme, "mailto") || str_eq(scheme, "tel") {
        return NavigationDecision::External;
    }
    if !(str_eq(scheme, "https") || str_eq(scheme, "http")) {
        return NavigationDecision::Reject;
    }
    match &parts.host {
        None => NavigationDecision::Reject,
        Some(h) => {
            if host_is_home(h.as_str()) {
                NavigationDecision::Internal
            } else {
                NavigationDecision::External
            }
        },
    }
}

/// Parses `raw` as the `url` crate does and decides where it may be opened.
pub fn decide_navigation(raw_url: &str) -> (d: NavigationDecision)
    ensures
        d == navigation_decision(raw_url@),
{
    match read_url(raw_url) {
        Ok(parts) => decide_for_parts(&parts),
        Err(_) => NavigationDecision::Reject,
    }
}

/// Whether a tab may follow a navigation to `raw_url` itself: only to pages of the app.
pub fn allows_navigation(raw_url: &str) -> (r: bool)
    ensures
        r == (navigation_decision(raw_url@) == NavigationDecision::Internal),
{
    match decide_navigation(raw_url) {
        NavigationDecision::Internal => true,
        _ => false,
    }
}

/// What the shell does when a page asks for a new window (the window itself is never made).
#[derive(Debug, Clone, Copy, PartialEq, Eq, Structural)]
pub enum NewWindowAction {
    /// Ask the front end to open the URL in a new tab.
    OpenInTab,
    /// Hand the URL to the system's handler.
    OpenOutside,
    /// Do nothing.
    Ignore,
}

/// The action for a new-window request, by the decision for its URL.
pub open spec fn new_window_action_for(d: NavigationDecision) -> NewWindowAction {
    match d {
        NavigationDecision::Internal => NewWindowAction::OpenInTab,
        NavigationDecision::External => NewWindowAction::OpenOutside,
        NavigationDecision::Reject => NewWindowAction::Ignore,
    }
}

/// The action for a page's request to open `raw_url` in a new window.
pub fn new_window_action(raw_url: &str) -> (a: NewWindowAction)
    ensures
        a == new_window_action_for(navigation_decision(raw_url@)),
{
    match decide_navigation(raw_url) {
        NavigationDecision::Internal => NewWindowAction::OpenInTab,
        NavigationDecision::External => NewWindowAction::OpenOutside,
        NavigationDecision::Reject => NewWindowAction::Ignore,
    }
}

/// Checks a request to open `raw_url` outside the app: only URLs that the policy sends
/// outside may be, any other is answered with `InvalidUrl`.
pub fn check_external_url(raw_url: &str) -> (r: Result<(), AppError>)
    ensures
        navigation_decision(raw_url@) == NavigationDecision::External ==> r is Ok,
        navigation_decision(raw_url@) != NavigationDecision::External ==> r == Err::<(), AppError>(
            AppError::InvalidUrl,
        ),
{
    match decide_navigation(raw_url) {
        NavigationDecision::External => Ok(()),
        _ => Err(AppError::InvalidUrl),
    }
}

/// The three uses of the decision agree: a tab follows a URL itself exactly when a new
/// window for it becomes a tab, and a URL may be opened outside exactly when a new window for
/// it is handed to the system.
pub proof fn decision_uses_agree(d: NavigationDecision)
    ensures
        (d == NavigationDecision::Internal) <==> new_window_action_for(d)
            == NewWindowAction::OpenInTab,
        (d == NavigationDecision::External) <==> new_window_action_for(d)
            == NewWindowAction::OpenOutside,
        (d == NavigationDecision::Reject) <==> new_window_action_for(d) == NewWindowAction::Ignore,
{
}

/// The decision, spelled out by scheme: `mailto:` and `tel:` links open outside; an `http` or
/// `https` URL without a host is refused, and one with a host opens inside exactly when its
/// lower-cased host is `libecity.com` or ends in `.libecity.com`, else outside; a URL of any
/// other scheme is refused.
pub proof fn decision_by_scheme_and_host(p: UrlPartsView)
    ensures
        p.scheme == "mailto"@ || p.scheme == "tel"@ ==> decision_for(p)
            == NavigationDecision::External,
        (p.scheme == "http"@ || p.scheme == "https"@) && p.host is None ==> decision_for(p)
            == NavigationDecision::Reject,
        (p.scheme == "http"@ || p.scheme == "https"@) && p.host is Some ==> {
            &&& decision_for(p) != NavigationDecision::Reject
            &&& (decision_for(p) == NavigationDecision::Internal <==> (ascii_lowercase(
                p.host->0,
            ) == "libecity.com"@ || has_suffix(ascii_lowercase(p.host->0), ".libecity.com"@)))
        },
        p.scheme != "http"@ && p.scheme != "https"@ && p.scheme != "mailto"@ && p.scheme
            != "tel"@ ==> decision_for(p) == NavigationDecision::Reject,
{
    reveal_strlit("mailto");
    reveal_strlit("tel");
    reveal_strlit("http");
    reveal_strlit("https");
    assert("mailto"@.len() == 6 && "tel"@.len() == 3 && "http"@.len() == 4 && "https"@.len()
        == 5);
}

/// Only web pages open inside the app: a URL is decided `Internal` only when its scheme is
/// `http` or `https` and it has a host of the app's domain.
pub proof fn internal_only_for_home_web_pages(p: UrlPartsView)
    ensures
        decision_for(p) == NavigationDecision::Internal ==> {
            &&& is_web_scheme(p.scheme)
            &&& p.host is Some
            &&& is_home_host(p.host->0)
        },
{
}

/// Mail and phone links always leave the app, whatever else the URL holds.
pub proof fn contact_links_open_outside(p: UrlPartsView)
    requires
        is_contact_scheme(p.scheme),
    ensures
        decision_for(p) == NavigationDecision::External,
{
}

/// A web URL with a host is never refused: it opens either in the app or outside.
pub proof fn web_pages_are_never_refused(p: UrlPartsView)
    requires
        is_web_scheme(p.scheme),
        p.host is Some,
    ensures
        decision_for(p) != NavigationDecision::Reject,
{
}

/// The decision does not depend on the ASCII case of the host.
pub proof fn host_case_is_ignored(scheme: Seq<char>, host: Seq<char>)
    ensures
        decision_for(UrlPartsView { scheme, host: Some(host) }) == decision_for(
            UrlPartsView { scheme, host: Some(ascii_lowercase(host)) },
        ),
{
    assert(ascii_lowercase(ascii_lowercase(host)) =~= ascii_lowercase(host));
}

/// Every subdomain of a host of the app's domain belongs to the app too.
pub proof fn subdomain_of_home_is_home(label: Seq<char>, host: Seq<char>)
    requires
        is_home_host(host),
    ensures
        is_home_host(label + "."@ + host),
{
    reveal_strlit(".");
    reveal_strlit("libecity.com");
    reveal_strlit(".libecity.com");
    let whole = label + "."@ + host;
    let low = ascii_lowercase(whole);
    let low_host = ascii_lowercase(host);
    let prefix = ascii_lowercase(label + "."@);
    assert(low =~= prefix + low_host);
    if low_host == home_domain() {
        assert(prefix.last() == '.') by {
            assert(prefix[prefix.len() - 1] == ascii_lower('.'));
        }
        assert(low.subrange(low.len() - 13, low.len() as int) =~= home_subdomain_suffix());
    } else {
        let k = home_subdomain_suffix().len();
        assert(low.subrange(low.len() - k, low.len() as int) =~= low_host.subrange(
            low_host.len() - k,
            low_host.len() as int,
        ));
    }
}

/// A host is the app's only if, in lower case, it ends with the app's domain: a host that
/// merely begins with it, such as `libecity.com.example.org`, is someone else's.
pub proof fn home_host_ends_with_home_domain(host: Seq<char>)
    ensures
        is_home_host(host) ==> has_suffix(ascii_lowercase(host), home_domain()),
{
    reveal_strlit("libecity.com");
    reveal_strlit(".libecity.com");
    let low = ascii_lowercase(host);
    if has_suffix(low, home_subdomain_suffix()) {
        let tail = low.subrange(low.len() - 13, low.len() as int);
        assert(low.subrange(low.len() - 12, low.len() as int) =~= tail.subrange(1, 13));
        assert(tail.subrange(1, 13) =~= home_domain());
    }
    if low == home_domain() {
        assert(low.subrange(0, low.len() as int) =~= low);
    }
}

} // verus!
