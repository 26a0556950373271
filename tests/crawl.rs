use bip_api::crawl::{CrawlAction, CrawlPhase, Crawler};
use bip_api::error::EngineError;
use bip_api::parsing::{BipData, ParsingError};

fn record(s: &str) -> BipData {
    BipData { content: None, summary: s.to_string(), tag_words: None }
}

fn param<'a>(form: &'a [(String, String)], key: &str) -> Vec<&'a str> {
    form.iter().filter(|(k, _)| k == key).map(|(_, v)| v.as_str()).collect()
}

/// A list endpoint with links at offsets 0 and 100 and none at 200.
fn links_at(offset: u64) -> Vec<String> {
    if offset < 200 {
        vec![format!("http://host/detail.do?o={}&i=1", offset), format!("http://host/detail.do?o={}&i=2", offset)]
    } else {
        vec![]
    }
}

#[test]
fn pagination_stops_at_first_empty_page() {
    let mut c = Crawler::new(100).unwrap();
    assert!(matches!(c.start(), CrawlAction::Bootstrap));
    assert!(matches!(c.on_session(1), CrawlAction::FetchSearchForm));
    let form = vec![("jahrgang".to_string(), "2019".to_string())];
    let mut action = c.on_search_form(Ok(form.clone()));
    let mut list_requests = 0;
    let mut offsets = vec![];
    let mut emitted = 0;
    loop {
        match action {
            CrawlAction::SubmitSearch { offset, form } => {
                list_requests += 1;
                offsets.push(offset);
                assert_eq!(param(&form, "offset"), vec![offset.to_string().as_str()]);
                assert_eq!(param(&form, "jahrgang"), vec!["2019"]);
                let method = if offset == 0 { "Suchen" } else { ">" };
                assert_eq!(param(&form, "method"), vec![method]);
                action = c.on_list_page(Ok(links_at(offset)), Ok(form.clone()));
            }
            CrawlAction::FetchDetails { links } => {
                let results = links.iter().map(|l| Ok(record(l))).collect();
                let (report, next) = c.on_details(results);
                emitted += report.items.iter().filter(|r| r.is_ok()).count();
                action = next;
            }
            CrawlAction::Finish => break,
            other => panic!("unexpected action {:?}", other),
        }
    }
    assert_eq!(list_requests, 3);
    assert_eq!(offsets, vec![0, 100, 200]);
    assert_eq!(emitted, 4);
    assert_eq!(c.current_phase(), CrawlPhase::Done);
}

#[test]
fn one_failed_detail_page_spares_the_others() {
    let mut c = Crawler::new(100).unwrap();
    c.start();
    c.on_session(2);
    c.on_search_form(Ok(vec![]));
    let action = c.on_list_page(Ok(links_at(0)), Ok(vec![]));
    assert!(matches!(action, CrawlAction::FetchDetails { .. }));
    let results = vec![
        Ok(record("a")),
        Err(ParsingError::MissingField("summary".to_string())),
        Ok(record("c")),
        Ok(record("d")),
    ];
    let (report, next) = c.on_details(results);
    let summaries: Vec<&str> = report.items.iter().filter_map(|r| r.as_ref().ok()).map(|r| r.summary.as_str()).collect();
    assert_eq!(summaries, vec!["a", "c", "d"]);
    assert_eq!(report.failed, 1);
    assert!(report.items[1].is_err());
    assert!(matches!(next, CrawlAction::SubmitSearch { offset: 100, .. }));
    assert_eq!(c.current_phase(), CrawlPhase::AwaitPage { offset: 100 });
}

#[test]
fn missing_session_cookie_is_fatal() {
    let mut c = Crawler::new(100).unwrap();
    c.start();
    assert!(matches!(c.on_session(0), CrawlAction::Abort(EngineError::NoSessionCookie)));
    assert_eq!(c.current_phase(), CrawlPhase::Failed);
    assert!(Crawler::new(0).is_none());
}

#[test]
fn unreadable_list_page_is_fatal() {
    let mut c = Crawler::new(100).unwrap();
    c.start();
    c.on_session(1);
    c.on_search_form(Ok(vec![]));
    let a = c.on_list_page(Err(EngineError::SessionExpired), Ok(vec![]));
    assert!(matches!(a, CrawlAction::Abort(EngineError::SessionExpired)));
    assert_eq!(c.current_phase(), CrawlPhase::Failed);
}

#[test]
fn list_page_without_next_form_fails_after_its_details() {
    let mut c = Crawler::new(50).unwrap();
    c.start();
    c.on_session(1);
    c.on_search_form(Ok(vec![]));
    let a = c.on_list_page(Ok(links_at(0)), Err(EngineError::NoFormFound));
    assert_eq!(c.current_phase(), CrawlPhase::AwaitDetails { offset: 0, form_ready: false });
    assert!(matches!(a, CrawlAction::FetchDetails { .. }));
    let (report, next) = c.on_details(vec![Ok(record("x"))]);
    assert_eq!(report.items.len(), 1);
    assert_eq!(report.failed, 0);
    assert!(matches!(next, CrawlAction::Abort(EngineError::NoFormFound)));
    let _ = report;
    assert_eq!(c.current_phase(), CrawlPhase::Failed);
}

#[test]
fn search_form_error_is_fatal() {
    let mut c = Crawler::new(100).unwrap();
    c.start();
    c.on_session(1);
    assert!(matches!(c.on_search_form(Err(EngineError::NoFormFound)), CrawlAction::Abort(EngineError::NoFormFound)));
    assert_eq!(c.current_phase(), CrawlPhase::Failed);
}

#[test]
fn missing_next_form_error_is_passed_on() {
    let mut c = Crawler::new(100).unwrap();
    c.start();
    c.on_session(1);
    c.on_search_form(Ok(vec![]));
    c.on_list_page(Ok(links_at(0)), Err(EngineError::HttpStatusError(503)));
    let (_, next) = c.on_details(vec![]);
    assert!(matches!(next, CrawlAction::Abort(EngineError::HttpStatusError(503))));
}
