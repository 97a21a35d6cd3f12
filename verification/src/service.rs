//! The services of the app's domain, their tab titles, and the labels of tab views.

use vstd::prelude::*;
use vstd::string::*;

use crate::navigation_policy::{UrlParts, UrlPartsView};
use crate::text::{concat_str, str_eq};

verus! {

/// The service that a host serves; `"custom"` for any host that is not one of the four.
pub open spec fn service_id_for_host(host: Seq<char>) -> Seq<char> {
    if host == "libecity.com"@ {
        "city"@
    } else if host == "library.libecity.com"@ {
        "library"@
    } else if host == "skill.libecity.com"@ {
        "skill"@
    } else if host == "ichiba.libecity.com"@ {
        "ichiba"@
    } else {
        "custom"@
    }
}

/// The service of a URL: that of its host, or of the empty host where it has none.
pub open spec fn service_id_of(p: UrlPartsView) -> Seq<char> {
    match p.host {
        Some(h) => service_id_for_host(h),
        None => service_id_for_host(Seq::empty()),
    }
}

/// The title that a new tab of a service shows before its page names itself.
pub open spec fn service_title_of(id: Seq<char>) -> Seq<char> {
    if id == "city"@ {
        "リベシティ"@
    } else if id == "library"@ {
        "ノウハウ図書館"@
    } else if id == "skill"@ {
        "スキルマーケット"@
    } else if id == "ichiba"@ {
        "リベシティ市場"@
    } else {
        "リベシティ関連ページ"@
    }
}

/// The label of the view that shows the tab `tab_id`.
pub open spec fn label_of(tab_id: Seq<char>) -> Seq<char> {
    "tab-"@ + tab_id
}

/// The four known hosts, spelled out: `libecity.com` is the city (リベシティ),
/// `library.libecity.com` the library (ノウハウ図書館), `skill.libecity.com` the skill
/// market (スキルマーケット), `ichiba.libecity.com` the market (リベシティ市場); any other
/// host, and a URL without one, is a custom page (リベシティ関連ページ).
pub proof fn known_hosts_and_their_services(p: UrlPartsView)
    ensures
        p.host == Some("libecity.com"@) ==> service_id_of(p) == "city"@ && service_title_of(
            service_id_of(p),
        ) == "リベシティ"@,
        p.host == Some("library.libecity.com"@) ==> service_id_of(p) == "library"@
            && service_title_of(service_id_of(p)) == "ノウハウ図書館"@,
        p.host == Some("skill.libecity.com"@) ==> service_id_of(p) == "skill"@
            && service_title_of(service_id_of(p)) == "スキルマーケット"@,
        p.host == Some("ichiba.libecity.com"@) ==> service_id_of(p) == "ichiba"@
            && service_title_of(service_id_of(p)) == "リベシティ市場"@,
        p.host != Some("libecity.com"@) && p.host != Some("library.libecity.com"@) && p.host
            != Some("skill.libecity.com"@) && p.host != Some("ichiba.libecity.com"@) ==> {
            &&& service_id_of(p) == "custom"@
            &&& service_title_of(service_id_of(p)) == "リベシティ関連ページ"@
        },
{
    reveal_strlit("libecity.com");
    reveal_strlit("library.libecity.com");
    reveal_strlit("skill.libecity.com");
    reveal_strlit("ichiba.libecity.com");
    reveal_strlit("");
    reveal_strlit("city");
    reveal_strlit("library");
    reveal_strlit("skill");
    reveal_strlit("ichiba");
    reveal_strlit("custom");
    assert("libecity.com"@.len() == 12 && "library.libecity.com"@.len() == 20
        && "skill.libecity.com"@.len() == 18 && "ichiba.libecity.com"@.len() == 19);
    assert("city"@.len() == 4 && "library"@.len() == 7 && "skill"@.len() == 5 && "ichiba"@.len()
        == 6 && "custom"@.len() == 6);
    assert("custom"@[0] != "ichiba"@[0]);
    if p.host is None {
        assert(Seq::<char>::empty().len() == 0);
    }
}

/// The service that the URL read into `parts` belongs to.
pub fn service_id(parts: &UrlParts) -> (r: &'static str)
    ensures
        r@ == service_id_of(parts@),
{
    let host: &str = match &parts.host {
        Some(h) => h.as_str(),
        None => "",
    };
    proof {
        reveal_strlit("");
        if parts.host is None {
            assert(host@ =~= Seq::<char>::empty());
        }
    }
    if str_eq(host, "libecity.com") {
        "city"
    } else if str_eq(host, "library.libecity.com") {
        "library"
    } else if str_eq(host, "skill.libecity.com") {
        "skill"
    } else if str_eq(host, "ichiba.libecity.com") {
        "ichiba"
    } else {
        "custom"
    }
}

/// The default title of a tab of service `id`.
pub fn service_title(id: &str) -> (r: &'static str)
    ensures
        r@ == service_title_of(id@),
{
    if str_eq(id, "city") {
        "リベシティ"
    } else if str_eq(id, "library") {
        "ノウハウ図書館"
    } else if str_eq(id, "skill") {
        "スキルマーケット"
    } else if str_eq(id, "ichiba") {
        "リベシティ市場"
    } else {
        "リベシティ関連ページ"
    }
}

/// The label of the view that shows the tab `tab_id`: `tab-` followed by the id.
pub fn webview_label(tab_id: &str) -> (r: String)
    ensures
        r@ == label_of(tab_id@),
{
    concat_str("tab-", tab_id)
}

} // verus!
