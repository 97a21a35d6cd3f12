//! The registry of open tabs: their order, which one is shown, and what each one shows.

use vstd::prelude::*;
use vstd::string::*;

use crate::error::AppError;
use crate::ids::{is_tab_id, random_tab_id};
use crate::navigation_policy::{
    decide_for_parts, navigation_decision, read_url, url_reading,
    NavigationDecision,
};
use crate::service::{
    label_of, service_id, service_id_of, service_title, service_title_of, webview_label,
};
use crate::text::{is_blank, str_eq, str_is_blank};

verus! {

/// The most tabs that can be open at once.
pub const TAB_LIMIT: usize = 20;

/// What the shell knows of one tab.
#[derive(Debug)]
pub struct TabInfo {
    pub id: String,
    pub service_id: String,
    pub title: String,
    pub url: String,
    pub active: bool,
    pub loading: bool,
    pub can_go_back: bool,
    pub can_go_forward: bool,
}

/// The mathematical value of a `TabInfo`.
pub struct TabView {
    pub id: Seq<char>,
    pub service_id: Seq<char>,
    pub title: Seq<char>,
    pub url: Seq<char>,
    pub active: bool,
    pub loading: bool,
    pub can_go_back: bool,
    pub can_go_forward: bool,
}

impl View for TabInfo {
    type V = TabView;

    open spec fn view(&self) -> TabView {
        TabView {
            id: self.id@,
            service_id: self.service_id@,
            title: self.title@,
            url: self.url@,
            active: self.active,
            loading: self.loading,
            can_go_back: self.can_go_back,
            can_go_forward: self.can_go_forward,
        }
    }
}

/// The value of an optional string.
pub open spec fn opt_view(o: Option<String>) -> Option<Seq<char>> {
    match o {
        Some(s) => Some(s@),
        None => None,
    }
}

/// The ids of a sequence of tabs, in order.
pub open spec fn tab_ids(tabs: Seq<TabView>) -> Seq<Seq<char>> {
    tabs.map_values(|t: TabView| t.id)
}

/// Some tab of `tabs` has the id `id`.
pub open spec fn holds_tab(tabs: Seq<TabView>, id: Seq<char>) -> bool {
    exists|i: int| 0 <= i < tabs.len() && #[trigger] tabs[i].id == id
}

/// The place of the tab with id `id` (meaningful where `holds_tab(tabs, id)`).
pub open spec fn position_of(tabs: Seq<TabView>, id: Seq<char>) -> int {
    choose|i: int| 0 <= i < tabs.len() && #[trigger] tabs[i].id == id
}

/// No two tabs share an id.
pub open spec fn ids_distinct(tabs: Seq<TabView>) -> bool {
    forall|i: int, j: int|
        0 <= i < tabs.len() && 0 <= j < tabs.len() && i != j ==> #[trigger] tabs[i].id
            != #[trigger] tabs[j].id
}

/// A tab with its `active` flag set to `active`.
pub open spec fn with_active_flag(t: TabView, active: bool) -> TabView {
    TabView { active, ..t }
}

/// Every tab is active exactly when its id is `target`.
pub open spec fn mark_active(tabs: Seq<TabView>, target: Option<Seq<char>>) -> Seq<TabView> {
    tabs.map_values(|t: TabView| with_active_flag(t, target == Some(t.id)))
}

/// Each tab as it would be with no tab active.
pub open spec fn all_inactive(tabs: Seq<TabView>) -> Seq<TabView> {
    tabs.map_values(|t: TabView| with_active_flag(t, false))
}

/// The mathematical value of a `TabRegistry`: the shown tab's id and the tabs in order.
pub struct RegistryView {
    pub active: Option<Seq<char>>,
    pub tabs: Seq<TabView>,
}

impl RegistryView {
    /// What every registry satisfies: ids are distinct, the shown tab is one of the tabs
    /// and the only one flagged active, and some tab is shown whenever there is one.
    pub open spec fn valid(self) -> bool {
        &&& ids_distinct(self.tabs)
        &&& forall|i: int|
            0 <= i < self.tabs.len() ==> (#[trigger] self.tabs[i]).active == (self.active
                == Some(self.tabs[i].id))
        &&& self.active matches Some(a) ==> holds_tab(self.tabs, a)
        &&& self.tabs.len() > 0 ==> self.active is Some
    }
}

/// The tab that an open request adds.
pub open spec fn new_tab(id: Seq<char>, service_id: Seq<char>, url: Seq<char>) -> TabView {
    TabView {
        id,
        service_id,
        title: service_title_of(service_id),
        url,
        active: true,
        loading: true,
        can_go_back: false,
        can_go_forward: false,
    }
}

/// `tabs` with `tab` in the place of the tab of the same id, or appended where there is none.
pub open spec fn placed(tabs: Seq<TabView>, tab: TabView) -> Seq<TabView> {
    if holds_tab(tabs, tab.id) {
        tabs.update(position_of(tabs, tab.id), tab)
    } else {
        tabs.push(tab)
    }
}

/// The registry after opening `tab`: it is placed and becomes the one shown.
pub open spec fn opened(v: RegistryView, tab: TabView) -> RegistryView {
    RegistryView { active: Some(tab.id), tabs: mark_active(placed(v.tabs, tab), Some(tab.id)) }
}

/// The registry after showing the tab `id`.
pub open spec fn activated(v: RegistryView, id: Seq<char>) -> RegistryView {
    RegistryView { active: Some(id), tabs: mark_active(v.tabs, Some(id)) }
}

/// The tab shown after a tab at place `i` is closed and `rest` remain: the one that took
/// its place, or the last one where it was the last.
pub open spec fn successor(rest: Seq<TabView>, i: int) -> Option<Seq<char>> {
    if rest.len() == 0 {
        None
    } else if i < rest.len() {
        Some(rest[i].id)
    } else {
        Some(rest[rest.len() - 1].id)
    }
}

/// The registry after closing the tab `id`.
pub open spec fn closed(v: RegistryView, id: Seq<char>) -> RegistryView {
    let i = position_of(v.tabs, id);
    let rest = v.tabs.remove(i);
    let next = successor(rest, i);
    RegistryView { active: next, tabs: mark_active(rest, next) }
}

/// A tab after a page load event for `url`: a load of another URL than the one shown
/// makes "back" possible and "forward" impossible.
pub open spec fn after_page_load(t: TabView, url: Seq<char>, started: bool) -> TabView {
    TabView {
        url,
        loading: started,
        can_go_back: if t.url != url {
            true
        } else {
            t.can_go_back
        },
        can_go_forward: if t.url != url {
            false
        } else {
            t.can_go_forward
        },
        ..t
    }
}

/// The registry with the tab `id` replaced by `f` of it, where there is such a tab.
pub open spec fn with_tab_changed(
    v: RegistryView,
    id: Seq<char>,
    f: spec_fn(TabView) -> TabView,
) -> RegistryView {
    if holds_tab(v.tabs, id) {
        let i = position_of(v.tabs, id);
        RegistryView { active: v.active, tabs: v.tabs.update(i, f(v.tabs[i])) }
    } else {
        v
    }
}

/// The registry after the tab `id` reported a page load.
pub open spec fn page_loaded(
    v: RegistryView,
    id: Seq<char>,
    url: Seq<char>,
    started: bool,
) -> RegistryView {
    with_tab_changed(v, id, |t: TabView| after_page_load(t, url, started))
}

/// The registry after the page of tab `id` changed its title: a blank title is ignored.
pub open spec fn retitled(v: RegistryView, id: Seq<char>, title: Seq<char>) -> RegistryView {
    if is_blank(title) {
        v
    } else {
        with_tab_changed(v, id, |t: TabView| TabView { title, ..t })
    }
}

/// The registry after tab `id` went back in its history: it can then go forward.
pub open spec fn went_back(v: RegistryView, id: Seq<char>) -> RegistryView {
    with_tab_changed(v, id, |t: TabView| TabView { can_go_forward: true, ..t })
}

/// The tab that a page-info request asks for: the given one, else the one shown.
pub open spec fn requested_tab(v: RegistryView, tab_id: Option<Seq<char>>) -> Option<Seq<char>> {
    match tab_id {
        Some(id) => Some(id),
        None => v.active,
    }
}

/// The view label and visibility of each tab, in order.
pub open spec fn visibility(tabs: Seq<TabView>) -> Seq<(Seq<char>, bool)> {
    tabs.map_values(|t: TabView| (label_of(t.id), t.active))
}

/// Where some tab has id `id`, `position_of` finds one.
proof fn lemma_position(tabs: Seq<TabView>, id: Seq<char>)
    requires
        holds_tab(tabs, id),
    ensures
        0 <= position_of(tabs, id) < tabs.len(),
        tabs[position_of(tabs, id)].id == id,
{
}

/// With distinct ids, the place of an id is the only place holding it.
proof fn lemma_position_unique(tabs: Seq<TabView>, id: Seq<char>, k: int)
    requires
        ids_distinct(tabs),
        0 <= k < tabs.len(),
        tabs[k].id == id,
    ensures
        position_of(tabs, id) == k,
{
    lemma_position(tabs, id);
}

/// Setting the active flags after `target` keeps every other field.
proof fn lemma_mark_active_keeps_ids(tabs: Seq<TabView>, target: Option<Seq<char>>)
    ensures
        mark_active(tabs, target).len() == tabs.len(),
        tab_ids(mark_active(tabs, target)) == tab_ids(tabs),
        all_inactive(mark_active(tabs, target)) == all_inactive(tabs),
{
    assert(tab_ids(mark_active(tabs, target)) =~= tab_ids(tabs));
    assert(all_inactive(mark_active(tabs, target)) =~= all_inactive(tabs));
}

/// Showing `target` among distinct tabs that hold it gives a valid registry.
proof fn lemma_shown_valid(tabs: Seq<TabView>, target: Option<Seq<char>>)
    requires
        ids_distinct(tabs),
        target matches Some(a) ==> holds_tab(tabs, a),
        tabs.len() > 0 ==> target is Some,
    ensures
        (RegistryView { active: target, tabs: mark_active(tabs, target) }).valid(),
{
    let m = mark_active(tabs, target);
    assert(forall|i: int| 0 <= i < m.len() ==> (#[trigger] m[i]).id == tabs[i].id);
    if let Some(a) = target {
        let k = choose|k: int| 0 <= k < tabs.len() && #[trigger] tabs[k].id == a;
        assert(m[k].id == a);
    }
}

/// Opening keeps a registry valid.
proof fn lemma_opened_valid(v: RegistryView, tab: TabView)
    requires
        v.valid(),
    ensures
        opened(v, tab).valid(),
{
    let p = placed(v.tabs, tab);
    if holds_tab(v.tabs, tab.id) {
        lemma_position(v.tabs, tab.id);
        let k = position_of(v.tabs, tab.id);
        assert(p[k].id == tab.id);
        assert(ids_distinct(p)) by {
            assert forall|i: int, j: int|
                0 <= i < p.len() && 0 <= j < p.len() && i != j implies #[trigger] p[i].id
                != #[trigger] p[j].id by {
                if i != k && j != k {
                    assert(p[i] == v.tabs[i] && p[j] == v.tabs[j]);
                } else if i == k {
                    assert(p[j] == v.tabs[j]);
                } else {
                    assert(p[i] == v.tabs[i]);
                }
            }
        }
    } else {
        let k = v.tabs.len() as int;
        assert(p[k].id == tab.id);
        assert(ids_distinct(p)) by {
            assert forall|i: int, j: int|
                0 <= i < p.len() && 0 <= j < p.len() && i != j implies #[trigger] p[i].id
                != #[trigger] p[j].id by {
                if i != k && j != k {
                    assert(p[i] == v.tabs[i] && p[j] == v.tabs[j]);
                } else if i == k {
                    assert(p[j] == v.tabs[j]);
                } else {
                    assert(p[i] == v.tabs[i]);
                }
            }
        }
    }
    lemma_shown_valid(p, Some(tab.id));
}

/// Showing a tab that is open keeps a registry valid.
proof fn lemma_activated_valid(v: RegistryView, id: Seq<char>)
    requires
        v.valid(),
        holds_tab(v.tabs, id),
    ensures
        activated(v, id).valid(),
{
    lemma_shown_valid(v.tabs, Some(id));
}

/// Closing an open tab keeps a registry valid.
proof fn lemma_closed_valid(v: RegistryView, id: Seq<char>)
    requires
        v.valid(),
        holds_tab(v.tabs, id),
    ensures
        closed(v, id).valid(),
{
    lemma_position(v.tabs, id);
    let i = position_of(v.tabs, id);
    let rest = v.tabs.remove(i);
    assert(forall|j: int| 0 <= j < rest.len() ==> #[trigger] rest[j] == (if j < i {
        v.tabs[j]
    } else {
        v.tabs[j + 1]
    }));
    assert(ids_distinct(rest)) by {
        assert forall|a: int, b: int|
            0 <= a < rest.len() && 0 <= b < rest.len() && a != b implies #[trigger] rest[a].id
            != #[trigger] rest[b].id by {
            let a2 = if a < i {
                a
            } else {
                a + 1
            };
            let b2 = if b < i {
                b
            } else {
                b + 1
            };
            assert(rest[a] == v.tabs[a2]);
            assert(rest[b] == v.tabs[b2]);
        }
    }
    let next = successor(rest, i);
    if rest.len() > 0 {
        let k = if i < rest.len() {
            i
        } else {
            rest.len() - 1
        };
        assert(rest[k].id == next->0);
    }
    lemma_shown_valid(rest, next);
}

/// Changing a tab in a way that keeps its id and flag keeps a registry valid.
proof fn lemma_changed_valid(v: RegistryView, id: Seq<char>, f: spec_fn(TabView) -> TabView)
    requires
        v.valid(),
        forall|t: TabView| #[trigger] f(t).id == t.id && f(t).active == t.active,
    ensures
        with_tab_changed(v, id, f).valid(),
{
    if holds_tab(v.tabs, id) {
        lemma_position(v.tabs, id);
        let k = position_of(v.tabs, id);
        let w = with_tab_changed(v, id, f);
        assert(f(v.tabs[k]).id == v.tabs[k].id);
        assert(forall|j: int| 0 <= j < w.tabs.len() ==> (#[trigger] w.tabs[j]).id == v.tabs[j].id
            && w.tabs[j].active == v.tabs[j].active);
        if let Some(a) = w.active {
            let m = choose|m: int| 0 <= m < v.tabs.len() && #[trigger] v.tabs[m].id == a;
            assert(w.tabs[m].id == a);
        }
    }
}

/// Every operation on the registry keeps it valid: opening, showing or closing an open tab,
/// page loads, titles and history steps.
pub proof fn operations_keep_registry_valid(
    v: RegistryView,
    tab: TabView,
    id: Seq<char>,
    url: Seq<char>,
    started: bool,
    title: Seq<char>,
)
    requires
        v.valid(),
    ensures
        opened(v, tab).valid(),
        holds_tab(v.tabs, id) ==> activated(v, id).valid(),
        holds_tab(v.tabs, id) ==> closed(v, id).valid(),
        page_loaded(v, id, url, started).valid(),
        retitled(v, id, title).valid(),
        went_back(v, id).valid(),
{
    lemma_opened_valid(v, tab);
    if holds_tab(v.tabs, id) {
        lemma_activated_valid(v, id);
        lemma_closed_valid(v, id);
    }
    lemma_changed_valid(v, id, |t: TabView| after_page_load(t, url, started));
    lemma_changed_valid(v, id, |t: TabView| TabView { title, ..t });
    lemma_changed_valid(v, id, |t: TabView| TabView { can_go_forward: true, ..t });
}

/// A request that passed the tab limit check leaves the registry within the limit once the
/// tab is recorded.
pub proof fn open_respects_tab_limit(v: RegistryView, tab: TabView)
    requires
        v.valid(),
        v.tabs.len() < TAB_LIMIT,
    ensures
        opened(v, tab).valid(),
        opened(v, tab).tabs.len() <= TAB_LIMIT,
{
    lemma_opened_valid(v, tab);
}

/// A tab with a new id is added after all others and is the only one shown; the others
/// keep their order.
pub proof fn opened_tab_is_last_and_shown(v: RegistryView, tab: TabView)
    requires
        v.valid(),
        !holds_tab(v.tabs, tab.id),
        tab.active,
    ensures
        opened(v, tab).active == Some(tab.id),
        opened(v, tab).tabs.len() == v.tabs.len() + 1,
        opened(v, tab).tabs.last() == tab,
        tab_ids(opened(v, tab).tabs) == tab_ids(v.tabs).push(tab.id),
        forall|i: int| 0 <= i < v.tabs.len() ==> !(#[trigger] opened(v, tab).tabs[i]).active,
{
    let w = opened(v, tab);
    assert(w.tabs.last() == with_active_flag(tab, true));
    assert(tab_ids(w.tabs) =~= tab_ids(v.tabs).push(tab.id));
    assert forall|i: int| 0 <= i < v.tabs.len() implies !(#[trigger] w.tabs[i]).active by {
        assert(v.tabs[i].id != tab.id);
    }
}

/// Closing a tab just opened with a new id gives back the tabs as they were, but for
/// which one is shown.
pub proof fn closing_undoes_opening(v: RegistryView, tab: TabView)
    requires
        v.valid(),
        !holds_tab(v.tabs, tab.id),
    ensures
        all_inactive(closed(opened(v, tab), tab.id).tabs) == all_inactive(v.tabs),
        tab_ids(closed(opened(v, tab), tab.id).tabs) == tab_ids(v.tabs),
{
    let w = opened(v, tab);
    lemma_opened_valid(v, tab);
    let n = v.tabs.len() as int;
    assert(w.tabs[n].id == tab.id);
    lemma_position_unique(w.tabs, tab.id, n);
    let rest = w.tabs.remove(n);
    assert(rest =~= mark_active(v.tabs, Some(tab.id)));
    let c = closed(w, tab.id);
    lemma_mark_active_keeps_ids(rest, successor(rest, n));
    lemma_mark_active_keeps_ids(v.tabs, Some(tab.id));
}

/// Showing an open tab flags it alone as active, changes nothing else, and showing it again
/// changes nothing.
pub proof fn activation_shows_only_that_tab(v: RegistryView, id: Seq<char>)
    requires
        v.valid(),
        holds_tab(v.tabs, id),
    ensures
        activated(v, id).valid(),
        forall|i: int|
            0 <= i < v.tabs.len() ==> ((#[trigger] activated(v, id).tabs[i]).active <==> v.tabs[i].id
                == id),
        all_inactive(activated(v, id).tabs) == all_inactive(v.tabs),
        activated(activated(v, id), id) == activated(v, id),
{
    lemma_activated_valid(v, id);
    lemma_mark_active_keeps_ids(v.tabs, Some(id));
    let w = activated(v, id);
    assert(activated(w, id).tabs =~= w.tabs);
}

/// Closing an open tab removes it and no other, keeps the order of the rest, and leaves a
/// tab shown whenever one is left.
pub proof fn closing_removes_only_that_tab(v: RegistryView, id: Seq<char>)
    requires
        v.valid(),
        holds_tab(v.tabs, id),
    ensures
        closed(v, id).valid(),
        closed(v, id).tabs.len() == v.tabs.len() - 1,
        tab_ids(closed(v, id).tabs) == tab_ids(v.tabs).remove(position_of(v.tabs, id)),
        !holds_tab(closed(v, id).tabs, id),
        closed(v, id).tabs.len() > 0 ==> closed(v, id).active is Some,
{
    lemma_closed_valid(v, id);
    lemma_position(v.tabs, id);
    let i = position_of(v.tabs, id);
    let rest = v.tabs.remove(i);
    let c = closed(v, id);
    lemma_mark_active_keeps_ids(rest, successor(rest, i));
    assert(tab_ids(rest) =~= tab_ids(v.tabs).remove(i));
    if holds_tab(c.tabs, id) {
        let k = choose|k: int| 0 <= k < c.tabs.len() && #[trigger] c.tabs[k].id == id;
        assert(c.tabs[k].id == rest[k].id);
        if k < i {
            assert(rest[k] == v.tabs[k]);
        } else {
            assert(rest[k] == v.tabs[k + 1]);
        }
    }
}

/// Which tab is shown after a close, in terms of the tabs before it: the one after the
/// closed tab where there is one, else the one before it, else none; it alone is flagged.
pub proof fn closing_shows_the_neighbour(v: RegistryView, id: Seq<char>)
    requires
        v.valid(),
        holds_tab(v.tabs, id),
    ensures
        ({
            let i = position_of(v.tabs, id);
            let n = v.tabs.len();
            let w = closed(v, id);
            &&& n == 1 ==> w.active is None
            &&& i + 1 < n ==> w.active == Some(v.tabs[i + 1].id)
            &&& n > 1 && i == n - 1 ==> w.active == Some(v.tabs[n - 2].id)
            &&& forall|k: int|
                0 <= k < w.tabs.len() ==> ((#[trigger] w.tabs[k]).active <==> w.active == Some(
                    w.tabs[k].id,
                ))
        }),
{
    lemma_position(v.tabs, id);
    lemma_closed_valid(v, id);
    let i = position_of(v.tabs, id);
    let n = v.tabs.len();
    let rest = v.tabs.remove(i);
    if i + 1 < n {
        assert(rest[i] == v.tabs[i + 1]);
    }
    if n > 1 && i == n - 1 {
        assert(rest[n - 2] == v.tabs[n - 2]);
    }
}

/// A page load event of an open tab records its URL, sets its loading flag to whether the
/// load has started, and after a move to another URL allows back and forbids forward (a
/// load of the same URL keeps both); nothing else changes.  Events of other ids change
/// nothing.
pub proof fn page_load_records_event(
    v: RegistryView,
    id: Seq<char>,
    url: Seq<char>,
    started: bool,
)
    requires
        v.valid(),
    ensures
        !holds_tab(v.tabs, id) ==> page_loaded(v, id, url, started) == v,
        holds_tab(v.tabs, id) ==> ({
            let i = position_of(v.tabs, id);
            let w = page_loaded(v, id, url, started);
            &&& 0 <= i < v.tabs.len()
            &&& w.active == v.active
            &&& w.tabs.len() == v.tabs.len()
            &&& forall|k: int| 0 <= k < v.tabs.len() && k != i ==> w.tabs[k] == v.tabs[k]
            &&& w.tabs[i].id == v.tabs[i].id
            &&& w.tabs[i].service_id == v.tabs[i].service_id
            &&& w.tabs[i].title == v.tabs[i].title
            &&& w.tabs[i].active == v.tabs[i].active
            &&& w.tabs[i].url == url
            &&& w.tabs[i].loading == started
            &&& v.tabs[i].url != url ==> w.tabs[i].can_go_back && !w.tabs[i].can_go_forward
            &&& v.tabs[i].url == url ==> w.tabs[i].can_go_back == v.tabs[i].can_go_back
                && w.tabs[i].can_go_forward == v.tabs[i].can_go_forward
        }),
{
    if holds_tab(v.tabs, id) {
        lemma_position(v.tabs, id);
    }
}

/// A title change of an open tab, shown or not, replaces its title unless the new one is
/// blank; nothing else changes.  Blank titles and other ids change nothing.
pub proof fn title_change_records_title(v: RegistryView, id: Seq<char>, title: Seq<char>)
    requires
        v.valid(),
    ensures
        is_blank(title) || !holds_tab(v.tabs, id) ==> retitled(v, id, title) == v,
        !is_blank(title) && holds_tab(v.tabs, id) ==> ({
            let i = position_of(v.tabs, id);
            let w = retitled(v, id, title);
            &&& 0 <= i < v.tabs.len()
            &&& w.active == v.active
            &&& w.tabs.len() == v.tabs.len()
            &&& forall|k: int| 0 <= k < v.tabs.len() && k != i ==> w.tabs[k] == v.tabs[k]
            &&& w.tabs[i] == TabView { title, ..v.tabs[i] }
        }),
{
    if holds_tab(v.tabs, id) {
        lemma_position(v.tabs, id);
    }
}

/// Asking for page information without a tab id gives the tab that is shown, whenever
/// some tab is open.
pub proof fn shown_tab_answers_page_info(v: RegistryView)
    requires
        v.valid(),
        v.tabs.len() > 0,
    ensures
        requested_tab(v, None) is Some,
        holds_tab(v.tabs, requested_tab(v, None)->0),
        v.tabs[position_of(v.tabs, requested_tab(v, None)->0)].active,
{
    lemma_position(v.tabs, v.active->0);
}

/// Loading another URL than the one shown makes "back" possible and "forward" impossible.
pub proof fn new_page_resets_forward(
    v: RegistryView,
    id: Seq<char>,
    url: Seq<char>,
    started: bool,
)
    requires
        v.valid(),
        holds_tab(v.tabs, id),
        v.tabs[position_of(v.tabs, id)].url != url,
    ensures
        page_loaded(v, id, url, started).tabs[position_of(v.tabs, id)].url == url,
        page_loaded(v, id, url, started).tabs[position_of(v.tabs, id)].can_go_back,
        !page_loaded(v, id, url, started).tabs[position_of(v.tabs, id)].can_go_forward,
{
    lemma_position(v.tabs, id);
}

/// A blank title never replaces a tab's title.
pub proof fn blank_title_is_ignored(v: RegistryView, id: Seq<char>, title: Seq<char>)
    requires
        is_blank(title),
    ensures
        retitled(v, id, title) == v,
{
}

impl TabInfo {
    /// An equal copy of this tab.
    pub fn snapshot(&self) -> (r: TabInfo)
        ensures
            r@ == self@,
    {
        TabInfo {
            id: self.id.clone(),
            service_id: self.service_id.clone(),
            title: self.title.clone(),
            url: self.url.clone(),
            active: self.active,
            loading: self.loading,
            can_go_back: self.can_go_back,
            can_go_forward: self.can_go_forward,
        }
    }
}

/// An equal copy of an optional string.
fn copy_opt(o: &Option<String>) -> (r: Option<String>)
    ensures
        opt_view(r) == opt_view(*o),
{
    match o {
        Some(s) => Some(s.clone()),
        None => None,
    }
}

/// A request to open a tab that passed the checks: the new tab's id, its URL and service.
pub struct OpenTicket {
    pub id: String,
    pub url: String,
    pub service_id: String,
}

/// The open tabs, in the order in which they were opened, and the one that is shown.
pub struct TabRegistry {
    active_id: Option<String>,
    tabs: Vec<TabInfo>,
}

impl View for TabRegistry {
    type V = RegistryView;

    closed spec fn view(&self) -> RegistryView {
        RegistryView {
            active: opt_view(self.active_id),
            tabs: self.tabs@.map_values(|t: TabInfo| t@),
        }
    }
}

impl TabRegistry {
    /// A registry with no tab.
    pub fn new() -> (r: TabRegistry)
        ensures
            r@.valid(),
            r@.active is None,
            r@.tabs.len() == 0,
    {
        let r = TabRegistry { active_id: None, tabs: Vec::new() };
        assert(r@.tabs =~= Seq::<TabView>::empty());
        r
    }

    /// The place of the tab `id`, if it is open.
    fn find_tab(&self, id: &str) -> (r: Option<usize>)
        requires
            self@.valid(),
        ensures
            r matches Some(i) ==> i < self@.tabs.len() && i == position_of(self@.tabs, id@)
                && self@.tabs[i as int].id == id@,
            r is None ==> !holds_tab(self@.tabs, id@),
    {
        let n = self.tabs.len();
        let mut i: usize = 0;
        while i < n
            invariant
                n == self.tabs@.len(),
                n == self@.tabs.len(),
                self@.valid(),
                i <= n,
                forall|j: int| 0 <= j < i ==> self@.tabs[j].id != id@,
            decreases n - i,
        {
            if str_eq(self.tabs[i].id.as_str(), id) {
                assert(self@.tabs[i as int] == self.tabs@[i as int]@);
                proof {
                    lemma_position_unique(self@.tabs, id@, i as int);
                }
                return Some(i);
            }
            assert(self@.tabs[i as int] == self.tabs@[i as int]@);
            i += 1;
        }
        None
    }

    /// Sets every tab's `active` flag to whether its id is `target`.
    fn set_active_flags(&mut self, target: &Option<String>)
        ensures
            final(self).active_id == old(self).active_id,
            final(self)@.tabs == mark_active(old(self)@.tabs, opt_view(*target)),
    {
        let n = self.tabs.len();
        let ghost goal = opt_view(*target);
        let mut i: usize = 0;
        while i < n
            invariant
                n == self.tabs@.len(),
                n == old(self).tabs@.len(),
                self.active_id == old(self).active_id,
                goal == opt_view(*target),
                i <= n,
                forall|j: int|
                    0 <= j < i ==> (#[trigger] self.tabs@[j])@ == with_active_flag(
                        old(self).tabs@[j]@,
                        goal == Some(old(self).tabs@[j]@.id),
                    ),
                forall|j: int| i <= j < n ==> #[trigger] self.tabs@[j] == old(self).tabs@[j],
            decreases n - i,
        {
            let mut t = self.tabs[i].snapshot();
            let flag = match target {
                Some(id) => t.id == *id,
                None => false,
            };
            t.active = flag;
            self.tabs.set(i, t);
            i += 1;
        }
        assert(self@.tabs =~= mark_active(old(self)@.tabs, goal));
    }

    /// Replaces the tab at place `i` by `t`.
    fn replace_tab(&mut self, i: usize, t: TabInfo)
        requires
            i < old(self)@.tabs.len(),
        ensures
            final(self).active_id == old(self).active_id,
            final(self)@.active == old(self)@.active,
            final(self)@.tabs == old(self)@.tabs.update(i as int, t@),
    {
        let ghost tv = t@;
        self.tabs.set(i, t);
        assert(self@.tabs =~= old(self)@.tabs.update(i as int, tv));
    }

    /// Checks an open request against the navigation policy and the tab limit, and on
    /// success draws a fresh id for the new tab.  The registry is not changed: the view of
    /// the tab is made next, and `finish_open` records it once that has succeeded.
    pub fn begin_open(&self, raw_url: &str) -> (r: Result<OpenTicket, AppError>)
        ensures
            navigation_decision(raw_url@) != NavigationDecision::Internal ==> r == Err::<
                OpenTicket,
                AppError,
            >(AppError::InvalidUrl),
            navigation_decision(raw_url@) == NavigationDecision::Internal && self@.tabs.len()
                >= TAB_LIMIT ==> r == Err::<OpenTicket, AppError>(AppError::TabLimitReached),
            navigation_decision(raw_url@) == NavigationDecision::Internal && self@.tabs.len()
                < TAB_LIMIT ==> (r matches Ok(t) && {
                &&& t.url@ == raw_url@
                &&& t.service_id@ == service_id_of(url_reading(raw_url@)->0)
                &&& is_tab_id(t.id@)
            }),
    {
        let parts = match read_url(raw_url) {
            Ok(p) => p,
            Err(_) => {
                return Err(AppError::InvalidUrl);
            },
        };
        match decide_for_parts(&parts) {
            NavigationDecision::Internal => {},
            _ => {
                return Err(AppError::InvalidUrl);
            },
        }
        if self.tabs.len() >= TAB_LIMIT {
            return Err(AppError::TabLimitReached);
        }
        let id = random_tab_id();
        Ok(
            OpenTicket {
                id,
                url: String::from_str(raw_url),
                service_id: String::from_str(service_id(&parts)),
            },
        )
    }

    /// Records a tab whose view was made: it is added after the others (or takes the place
    /// of a tab of the same id) and becomes the one shown.
    pub fn finish_open(&mut self, ticket: OpenTicket) -> (tab: TabInfo)
        requires
            old(self)@.valid(),
        ensures
            final(self)@.valid(),
            tab@ == new_tab(ticket.id@, ticket.service_id@, ticket.url@),
            final(self)@ == opened(old(self)@, tab@),
    {
        let title = String::from_str(service_title(ticket.service_id.as_str()));
        let tab = TabInfo {
            id: ticket.id,
            service_id: ticket.service_id,
            title,
            url: ticket.url,
            active: true,
            loading: true,
            can_go_back: false,
            can_go_forward: false,
        };
        let result = tab.snapshot();
        let ghost tv = tab@;
        match self.find_tab(result.id.as_str()) {
            Some(i) => {
                self.replace_tab(i, tab);
            },
            None => {
                self.tabs.push(tab);
                assert(self@.tabs =~= old(self)@.tabs.push(tv));
            },
        }
        assert(self@.tabs == placed(old(self)@.tabs, tv));
        let target = Some(result.id.clone());
        self.set_active_flags(&target);
        self.active_id = target;
        proof {
            lemma_opened_valid(old(self)@, tv);
        }
        result
    }

    /// Shows the tab `tab_id` and hides the others.  Answers with the view label of every
    /// tab and whether it is now shown, or `TabNotFound` (changing nothing) where no tab
    /// has that id.
    pub fn activate_tab(&mut self, tab_id: &str) -> (r: Result<Vec<(String, bool)>, AppError>)
        requires
            old(self)@.valid(),
        ensures
            final(self)@.valid(),
            !holds_tab(old(self)@.tabs, tab_id@) ==> r == Err::<Vec<(String, bool)>, AppError>(
                AppError::TabNotFound,
            ) && final(self)@ == old(self)@,
            holds_tab(old(self)@.tabs, tab_id@) ==> final(self)@ == activated(old(self)@, tab_id@)
                && (r matches Ok(labels) && labels@.map_values(|p: (String, bool)| (p.0@, p.1))
                == visibility(final(self)@.tabs)),
    {
        if self.find_tab(tab_id).is_none() {
            return Err(AppError::TabNotFound);
        }
        let target = Some(String::from_str(tab_id));
        self.set_active_flags(&target);
        self.active_id = target;
        proof {
            lemma_activated_valid(old(self)@, tab_id@);
        }
        let n = self.tabs.len();
        let mut labels: Vec<(String, bool)> = Vec::new();
        let mut i: usize = 0;
        while i < n
            invariant
                n == self.tabs@.len(),
                n == self@.tabs.len(),
                i <= n,
                labels@.len() == i,
                forall|j: int|
                    0 <= j < i ==> ((#[trigger] labels@[j]).0@, labels@[j].1) == (
                        label_of(self@.tabs[j].id),
                        self@.tabs[j].active,
                    ),
            decreases n - i,
        {
            assert(self@.tabs[i as int] == self.tabs@[i as int]@);
            let label = webview_label(self.tabs[i].id.as_str());
            labels.push((label, self.tabs[i].active));
            i += 1;
        }
        assert(labels@.map_values(|p: (String, bool)| (p.0@, p.1)) =~= visibility(self@.tabs));
        Ok(labels)
    }

    /// Closes the tab `tab_id`.  The tab that took its place, or else the new last tab,
    /// becomes the one shown; its id is the answer (`None` when no tab is left).  Answers
    /// `TabNotFound`, changing nothing, where no tab has that id.
    pub fn close_tab(&mut self, tab_id: &str) -> (r: Result<Option<String>, AppError>)
        requires
            old(self)@.valid(),
        ensures
            final(self)@.valid(),
            !holds_tab(old(self)@.tabs, tab_id@) ==> r == Err::<Option<String>, AppError>(
                AppError::TabNotFound,
            ) && final(self)@ == old(self)@,
            holds_tab(old(self)@.tabs, tab_id@) ==> final(self)@ == closed(old(self)@, tab_id@)
                && (r matches Ok(next) && opt_view(next) == final(self)@.active),
    {
        let i = match self.find_tab(tab_id) {
            Some(i) => i,
            None => {
                return Err(AppError::TabNotFound);
            },
        };
        let ghost before = self@;
        self.tabs.remove(i);
        assert(self@.tabs =~= before.tabs.remove(i as int));
        let n = self.tabs.len();
        let next: Option<String> = if n == 0 {
            None
        } else if i < n {
            assert(self@.tabs[i as int] == self.tabs@[i as int]@);
            Some(self.tabs[i].id.clone())
        } else {
            assert(self@.tabs[n - 1] == self.tabs@[n - 1]@);
            Some(self.tabs[n - 1].id.clone())
        };
        assert(opt_view(next) == successor(self@.tabs, i as int));
        self.set_active_flags(&next);
        self.active_id = copy_opt(&next);
        proof {
            lemma_closed_valid(before, tab_id@);
        }
        Ok(next)
    }

    /// Records a page load event of the tab `tab_id` for `url` (`started` while it loads).
    /// Events for a tab that is not open are ignored.
    pub fn note_page_load(&mut self, tab_id: &str, url: String, started: bool)
        requires
            old(self)@.valid(),
        ensures
            final(self)@.valid(),
            final(self)@ == page_loaded(old(self)@, tab_id@, url@, started),
    {
        proof {
            lemma_changed_valid(
                old(self)@,
                tab_id@,
                |t: TabView| after_page_load(t, url@, started),
            );
        }
        if let Some(i) = self.find_tab(tab_id) {
            let mut t = self.tabs[i].snapshot();
            if !(t.url == url) {
                t.can_go_back = true;
                t.can_go_forward = false;
            }
            t.url = url;
            t.loading = started;
            self.replace_tab(i, t);
        }
    }

    /// Records a new title of the page of tab `tab_id`; a title that is empty once trimmed
    /// is ignored, as are events for a tab that is not open.
    pub fn note_title(&mut self, tab_id: &str, title: String)
        requires
            old(self)@.valid(),
        ensures
            final(self)@.valid(),
            final(self)@ == retitled(old(self)@, tab_id@, title@),
    {
        let ghost tv = title@;
        proof {
            lemma_changed_valid(old(self)@, tab_id@, |t: TabView| TabView { title: tv, ..t });
        }
        if str_is_blank(title.as_str()) {
            return ;
        }
        if let Some(i) = self.find_tab(tab_id) {
            let mut t = self.tabs[i].snapshot();
            t.title = title;
            self.replace_tab(i, t);
        }
    }

    /// Records that tab `tab_id` went back in its history, so that it can go forward.
    pub fn note_went_back(&mut self, tab_id: &str)
        requires
            old(self)@.valid(),
        ensures
            final(self)@.valid(),
            final(self)@ == went_back(old(self)@, tab_id@),
    {
        proof {
            lemma_changed_valid(
                old(self)@,
                tab_id@,
                |t: TabView| TabView { can_go_forward: true, ..t },
            );
        }
        if let Some(i) = self.find_tab(tab_id) {
            let mut t = self.tabs[i].snapshot();
            t.can_go_forward = true;
            self.replace_tab(i, t);
        }
    }

    /// The tab `tab_id`, or the one shown where no id is given; `TabNotFound` where there
    /// is no such tab.
    pub fn get_page_info(&self, tab_id: Option<String>) -> (r: Result<TabInfo, AppError>)
        requires
            self@.valid(),
        ensures
            match requested_tab(self@, opt_view(tab_id)) {
                None => r == Err::<TabInfo, AppError>(AppError::TabNotFound),
                Some(id) => if holds_tab(self@.tabs, id) {
                    r matches Ok(t) && t@ == self@.tabs[position_of(self@.tabs, id)]
                } else {
                    r == Err::<TabInfo, AppError>(AppError::TabNotFound)
                },
            },
    {
        let id = match tab_id {
            Some(id) => id,
            None => match copy_opt(&self.active_id) {
                Some(id) => id,
                None => {
                    return Err(AppError::TabNotFound);
                },
            },
        };
        match self.find_tab(id.as_str()) {
            Some(i) => {
                assert(self@.tabs[i as int] == self.tabs@[i as int]@);
                Ok(self.tabs[i].snapshot())
            },
            None => Err(AppError::TabNotFound),
        }
    }

    /// All open tabs, in order (the list that the tab bar shows).
    pub fn list_tabs(&self) -> (r: Vec<TabInfo>)
        ensures
            r@.map_values(|t: TabInfo| t@) == self@.tabs,
    {
        let n = self.tabs.len();
        let mut out: Vec<TabInfo> = Vec::new();
        let mut i: usize = 0;
        while i < n
            invariant
                n == self.tabs@.len(),
                i <= n,
                out@.len() == i,
                forall|j: int| 0 <= j < i ==> (#[trigger] out@[j])@ == self.tabs@[j]@,
            decreases n - i,
        {
            out.push(self.tabs[i].snapshot());
            i += 1;
        }
        assert(out@.map_values(|t: TabInfo| t@) =~= self@.tabs);
        out
    }
}

} // verus!
