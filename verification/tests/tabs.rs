use libe_desk::error::AppError;
use libe_desk::service::{service_title, webview_label};
use libe_desk::tabs::{TabRegistry, TAB_LIMIT};

fn open(reg: &mut TabRegistry, url: &str) -> String {
    let ticket = reg.begin_open(url).expect("open request refused");
    let tab = reg.finish_open(ticket);
    tab.id
}

fn ids(reg: &TabRegistry) -> Vec<String> {
    reg.list_tabs().into_iter().map(|t| t.id).collect()
}

fn active(reg: &TabRegistry) -> Vec<bool> {
    reg.list_tabs().into_iter().map(|t| t.active).collect()
}

#[test]
fn new_tab_ids_are_32_lower_hex_digits() {
    let reg = TabRegistry::new();
    let a = reg.begin_open("https://libecity.com/").unwrap();
    let b = reg.begin_open("https://libecity.com/").unwrap();
    for id in [&a.id, &b.id] {
        assert_eq!(id.len(), 32);
        assert!(id.chars().all(|c| c.is_ascii_digit() || ('a'..='f').contains(&c)));
    }
    assert_ne!(a.id, b.id);
}

#[test]
fn open_records_service_title_and_flags() {
    let mut reg = TabRegistry::new();
    let ticket = reg.begin_open("https://library.libecity.com/book/1").unwrap();
    assert_eq!(ticket.service_id, "library");
    assert_eq!(ticket.url, "https://library.libecity.com/book/1");
    let tab = reg.finish_open(ticket);
    assert_eq!(tab.service_id, "library");
    assert_eq!(tab.title, "ノウハウ図書館");
    assert!(tab.active && tab.loading && !tab.can_go_back && !tab.can_go_forward);
    assert_eq!(reg.list_tabs().len(), 1);
}

#[test]
fn unknown_subdomain_is_a_custom_service() {
    let mut reg = TabRegistry::new();
    let ticket = reg.begin_open("https://news.libecity.com/").unwrap();
    assert_eq!(ticket.service_id, "custom");
    let tab = reg.finish_open(ticket);
    assert_eq!(tab.title, "リベシティ関連ページ");
}

#[test]
fn open_refuses_urls_outside_the_app() {
    let reg = TabRegistry::new();
    assert!(matches!(
        reg.begin_open("https://example.org/"),
        Err(AppError::InvalidUrl)
    ));
    assert!(matches!(
        reg.begin_open("mailto:a@b.c"),
        Err(AppError::InvalidUrl)
    ));
    assert!(matches!(reg.begin_open("garbage"), Err(AppError::InvalidUrl)));
}

#[test]
fn open_stops_at_the_tab_limit() {
    let mut reg = TabRegistry::new();
    for _ in 0..TAB_LIMIT {
        open(&mut reg, "https://libecity.com/");
    }
    assert_eq!(reg.list_tabs().len(), 20);
    assert!(matches!(
        reg.begin_open("https://libecity.com/"),
        Err(AppError::TabLimitReached)
    ));
    assert!(matches!(
        reg.begin_open("https://example.org/"),
        Err(AppError::InvalidUrl)
    ));
    assert_eq!(reg.list_tabs().len(), 20);
}

#[test]
fn newest_tab_is_last_and_only_active() {
    let mut reg = TabRegistry::new();
    let a = open(&mut reg, "https://libecity.com/");
    let b = open(&mut reg, "https://skill.libecity.com/");
    let c = open(&mut reg, "https://ichiba.libecity.com/");
    assert_eq!(ids(&reg), vec![a, b, c.clone()]);
    assert_eq!(active(&reg), vec![false, false, true]);
    assert_eq!(reg.get_page_info(None).unwrap().id, c);
}

#[test]
fn activate_shows_one_tab_and_reports_labels() {
    let mut reg = TabRegistry::new();
    let a = open(&mut reg, "https://libecity.com/");
    let b = open(&mut reg, "https://skill.libecity.com/");
    let labels = reg.activate_tab(&a).unwrap();
    assert_eq!(
        labels,
        vec![(format!("tab-{a}"), true), (format!("tab-{b}"), false)]
    );
    assert_eq!(active(&reg), vec![true, false]);
    assert_eq!(reg.get_page_info(None).unwrap().id, a);
    let again = reg.activate_tab(&a).unwrap();
    assert_eq!(again, labels);
}

#[test]
fn activate_unknown_tab_changes_nothing() {
    let mut reg = TabRegistry::new();
    let a = open(&mut reg, "https://libecity.com/");
    assert!(matches!(reg.activate_tab("nope"), Err(AppError::TabNotFound)));
    assert_eq!(ids(&reg), vec![a.clone()]);
    assert_eq!(reg.get_page_info(None).unwrap().id, a);
}

#[test]
fn closing_shows_the_tab_that_took_its_place() {
    let mut reg = TabRegistry::new();
    let a = open(&mut reg, "https://libecity.com/");
    let b = open(&mut reg, "https://skill.libecity.com/");
    let c = open(&mut reg, "https://ichiba.libecity.com/");
    reg.activate_tab(&b).unwrap();
    let next = reg.close_tab(&b).unwrap();
    assert_eq!(next, Some(c.clone()));
    assert_eq!(ids(&reg), vec![a.clone(), c.clone()]);
    assert_eq!(active(&reg), vec![false, true]);
}

#[test]
fn closing_the_last_tab_shows_the_new_last_one() {
    let mut reg = TabRegistry::new();
    let a = open(&mut reg, "https://libecity.com/");
    let b = open(&mut reg, "https://skill.libecity.com/");
    let next = reg.close_tab(&b).unwrap();
    assert_eq!(next, Some(a.clone()));
    assert_eq!(reg.get_page_info(None).unwrap().id, a);
}

#[test]
fn closing_a_hidden_tab_moves_the_focus() {
    let mut reg = TabRegistry::new();
    let a = open(&mut reg, "https://libecity.com/");
    let b = open(&mut reg, "https://skill.libecity.com/");
    let c = open(&mut reg, "https://ichiba.libecity.com/");
    // `c` is shown; closing `a` shows the tab that took `a`'s place.
    let next = reg.close_tab(&a).unwrap();
    assert_eq!(next, Some(b.clone()));
    assert_eq!(ids(&reg), vec![b, c]);
    assert_eq!(active(&reg), vec![true, false]);
}

#[test]
fn closing_every_tab_leaves_nothing_shown() {
    let mut reg = TabRegistry::new();
    let a = open(&mut reg, "https://libecity.com/");
    assert_eq!(reg.close_tab(&a).unwrap(), None);
    assert_eq!(reg.list_tabs().len(), 0);
    assert!(matches!(reg.get_page_info(None), Err(AppError::TabNotFound)));
}

#[test]
fn closing_unknown_tab_changes_nothing() {
    let mut reg = TabRegistry::new();
    let a = open(&mut reg, "https://libecity.com/");
    assert!(matches!(reg.close_tab("zzz"), Err(AppError::TabNotFound)));
    assert_eq!(ids(&reg), vec![a]);
    assert_eq!(active(&reg), vec![true]);
}

#[test]
fn close_undoes_open() {
    let mut reg = TabRegistry::new();
    let a = open(&mut reg, "https://libecity.com/");
    let b = open(&mut reg, "https://skill.libecity.com/");
    let before: Vec<(String, String, String)> = reg
        .list_tabs()
        .into_iter()
        .map(|t| (t.id, t.title, t.url))
        .collect();
    let c = open(&mut reg, "https://ichiba.libecity.com/");
    reg.close_tab(&c).unwrap();
    let after: Vec<(String, String, String)> = reg
        .list_tabs()
        .into_iter()
        .map(|t| (t.id, t.title, t.url))
        .collect();
    assert_eq!(before, after);
    assert_eq!(ids(&reg), vec![a, b]);
}

#[test]
fn page_info_by_id() {
    let mut reg = TabRegistry::new();
    let a = open(&mut reg, "https://libecity.com/");
    let _b = open(&mut reg, "https://skill.libecity.com/");
    let info = reg.get_page_info(Some(a.clone())).unwrap();
    assert_eq!(info.id, a);
    assert_eq!(info.url, "https://libecity.com/");
    assert!(!info.active);
    assert!(matches!(
        reg.get_page_info(Some("missing".to_string())),
        Err(AppError::TabNotFound)
    ));
    let empty = TabRegistry::new();
    assert!(matches!(empty.get_page_info(None), Err(AppError::TabNotFound)));
}

#[test]
fn page_loads_track_history() {
    let mut reg = TabRegistry::new();
    let a = open(&mut reg, "https://libecity.com/");
    reg.note_page_load(&a, "https://libecity.com/".to_string(), false);
    let t = reg.get_page_info(None).unwrap();
    assert!(!t.loading && !t.can_go_back && !t.can_go_forward);

    reg.note_went_back(&a);
    assert!(reg.get_page_info(None).unwrap().can_go_forward);

    reg.note_page_load(&a, "https://libecity.com/room".to_string(), true);
    let t = reg.get_page_info(None).unwrap();
    assert_eq!(t.url, "https://libecity.com/room");
    assert!(t.loading && t.can_go_back && !t.can_go_forward);

    // a load of the same URL keeps the history flags
    reg.note_went_back(&a);
    reg.note_page_load(&a, "https://libecity.com/room".to_string(), false);
    let t = reg.get_page_info(None).unwrap();
    assert!(!t.loading && t.can_go_back && t.can_go_forward);

    // events for unknown tabs are ignored
    reg.note_page_load("ghost", "https://x/".to_string(), true);
    reg.note_went_back("ghost");
    assert_eq!(reg.list_tabs().len(), 1);
}

#[test]
fn titles_ignore_blank_ones() {
    let mut reg = TabRegistry::new();
    let a = open(&mut reg, "https://libecity.com/");
    assert_eq!(reg.get_page_info(None).unwrap().title, "リベシティ");
    reg.note_title(&a, "  \t\n\u{3000}".to_string());
    assert_eq!(reg.get_page_info(None).unwrap().title, "リベシティ");
    reg.note_title(&a, "".to_string());
    assert_eq!(reg.get_page_info(None).unwrap().title, "リベシティ");
    reg.note_title(&a, " トップ ".to_string());
    assert_eq!(reg.get_page_info(None).unwrap().title, " トップ ");
    reg.note_title("ghost", "x".to_string());
    assert_eq!(reg.list_tabs().len(), 1);
}

#[test]
fn service_titles() {
    assert_eq!(service_title("city"), "リベシティ");
    assert_eq!(service_title("library"), "ノウハウ図書館");
    assert_eq!(service_title("skill"), "スキルマーケット");
    assert_eq!(service_title("ichiba"), "リベシティ市場");
    assert_eq!(service_title("custom"), "リベシティ関連ページ");
    assert_eq!(service_title(""), "リベシティ関連ページ");
}

#[test]
fn webview_labels() {
    assert_eq!(webview_label("abc"), "tab-abc");
    assert_eq!(webview_label(""), "tab-");
}

#[test]
fn error_messages_and_codes() {
    assert_eq!(AppError::TabNotFound.message(), "対象のタブが見つかりません");
    assert_eq!(AppError::TabLimitReached.message(), "開けるタブは最大20件です");
    assert_eq!(AppError::InvalidUrl.message(), "このURLは開けません");
    assert_eq!(
        AppError::WebviewFailure("boom".to_string()).message(),
        "ページ表示の操作に失敗しました: boom"
    );
    assert_eq!(AppError::TabNotFound.code(), "TabNotFound");
    assert_eq!(AppError::TabLimitReached.code(), "TabLimitReached");
    assert_eq!(AppError::InvalidUrl.code(), "InvalidUrl");
    assert_eq!(AppError::WebviewFailure(String::new()).code(), "WebviewFailure");
}
