use bip_api::error::{EngineError, ParseFailure};
use bip_api::selector::{resolve_links, Selector};
use bip_api::{detail_links, list_page_links, reply_verdict, ApiError, SEARCH_URL};

#[test]
fn relative_href_resolves_against_base() {
    let html = "<html><body><a class=\"l\" href=\"foo/bar.do\">x</a></body></html>";
    let sel = Selector::new("http://host/base/page.do".to_string(), html.to_string()).unwrap();
    let links = sel.select_links("//a/@href").unwrap();
    assert_eq!(links, vec!["http://host/base/foo/bar.do".to_string()]);
}

#[test]
fn absolute_and_rooted_hrefs() {
    let hrefs = vec!["/root.do".to_string(), "https://other/x?y=1".to_string(), "../up".to_string()];
    let links = resolve_links("http://host/a/b/c.do", &hrefs).unwrap();
    assert_eq!(
        links,
        vec![
            "http://host/root.do".to_string(),
            "https://other/x?y=1".to_string(),
            "http://host/a/up".to_string()
        ]
    );
}

#[test]
fn unresolvable_link_aborts_extraction() {
    let r = resolve_links("not a url", &vec!["foo".to_string()]);
    assert!(matches!(r, Err(EngineError::ParsingError(ParseFailure::InvalidUrl))));
    let r = resolve_links("http://host/", &vec!["ok".to_string(), "http://[bad".to_string()]);
    assert!(matches!(r, Err(EngineError::ParsingError(ParseFailure::InvalidUrl))));
}

#[test]
fn invalid_link_query_is_an_error() {
    let sel = Selector::new("http://host/".to_string(), "<a href=\"x\">x</a>".to_string()).unwrap();
    assert!(matches!(
        sel.select_links("//a[@"),
        Err(EngineError::ParsingError(ParseFailure::InvalidQuery))
    ));
    assert_eq!(sel.select_links("//table/@href").unwrap(), Vec::<String>::new());
}

fn result_page() -> String {
    "<html><body><div class=\"tabelleGross\"><table><tr><td><a class=\"linkIntern\" href=\"simple_search_detail_vp.do?vorgangId=1\">Eins</a></td></tr>\
     <tr><td><a class=\"linkExtern\" href=\"http://elsewhere/\">Aus</a></td></tr>\
     <tr><td><a class=\"linkIntern\" href=\"/dip21.web/x.do?id=2\">Zwei</a></td></tr></table></div>\
     <a class=\"linkIntern\" href=\"outside.do\">Nein</a></body></html>"
        .to_string()
}

#[test]
fn detail_links_of_a_result_page() {
    let links = detail_links(SEARCH_URL, &result_page()).unwrap();
    assert_eq!(
        links,
        vec![
            "http://dipbt.bundestag.de/dip21.web/searchProcedures/simple_search_detail_vp.do?vorgangId=1".to_string(),
            "http://dipbt.bundestag.de/dip21.web/x.do?id=2".to_string()
        ]
    );
}

#[test]
fn detail_links_resolve_against_the_page_url() {
    let body = "<div class=\"tabelleGross\"><a class=\"linkIntern\" href=\"foo/bar.do\">x</a></div>";
    assert_eq!(
        detail_links("http://host/base/page.do", body).unwrap(),
        vec!["http://host/base/foo/bar.do".to_string()]
    );
}

#[test]
fn detail_links_without_matches_is_empty() {
    assert_eq!(detail_links(SEARCH_URL, "<p>nichts</p>").unwrap(), Vec::<String>::new());
}

#[test]
fn detail_links_fail_as_a_whole_on_a_bad_href() {
    let body = "<div class=\"tabelleGross\"><a class=\"linkIntern\" href=\"ok.do\">a</a><a class=\"linkIntern\" href=\"http://[bad\">b</a></div>";
    assert!(matches!(
        detail_links(SEARCH_URL, body),
        Err(ApiError::SelectionError(ParseFailure::InvalidUrl))
    ));
    assert!(matches!(
        detail_links(SEARCH_URL, ""),
        Err(ApiError::SelectionError(ParseFailure::MalformedHtml))
    ));
}

#[test]
fn logged_out_page_is_detected() {
    let body = "<html><body><p>Sie wurden vom System abgemeldet.</p></body></html>";
    assert!(matches!(list_page_links(SEARCH_URL, body), Err(ApiError::LoggedOut)));
    assert_eq!(list_page_links(SEARCH_URL, &result_page()).unwrap().len(), 2);
    assert_eq!(list_page_links(SEARCH_URL, "<html><body></body></html>").unwrap().len(), 0);
}

#[test]
fn nul_in_a_query_is_an_invalid_query() {
    let sel = Selector::new("http://host/".to_string(), "<form><a href=\"x\">x</a></form>".to_string()).unwrap();
    assert!(matches!(
        sel.select_links("//a/@href\0"),
        Err(EngineError::ParsingError(ParseFailure::InvalidQuery))
    ));
    assert!(matches!(
        sel.select_text("//a\0"),
        Err(EngineError::ParsingError(ParseFailure::InvalidQuery))
    ));
    assert!(matches!(
        sel.form_data("//form\0"),
        Err(EngineError::ParsingError(ParseFailure::InvalidQuery))
    ));
}

#[test]
fn reply_verdicts() {
    assert!(reply_verdict(200, "<p>ok</p>").is_ok());
    assert!(matches!(reply_verdict(302, "x"), Err(EngineError::HttpStatusError(302))));
    assert!(matches!(reply_verdict(500, "x"), Err(EngineError::HttpStatusError(500))));
    assert!(matches!(
        reply_verdict(200, "Sie wurden vom System abgemeldet"),
        Err(EngineError::SessionExpired)
    ));
}
