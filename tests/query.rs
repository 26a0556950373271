use bip_api::error::{EngineError, ParseFailure};
use bip_api::parsing::{record_from_blocks, record_from_page, BipData, ParsingError};
use bip_api::selector::Selector;
use bip_api::{contains_bytes, default_query, has_distinct_keys, is_logged_out, search_query, set_param, to_decimal, Citation, ElectionPeriod};

#[test]
fn default_query_holds_the_portal_parameters() {
    let q = default_query();
    assert_eq!(q.len(), 45);
    assert_eq!(q[0], ("verkuendungsblatt".to_string(), "".to_string()));
    assert_eq!(q[44], ("method".to_string(), "Suchen".to_string()));
    assert!(q.contains(&("javascriptActive".to_string(), "yes".to_string())));
    assert!(q.contains(&("unterbegriffsTiefe".to_string(), "0".to_string())));
}

#[test]
fn search_query_sets_year_offset_and_period() {
    let q = search_query(100, 2019, ElectionPeriod::EP18);
    assert_eq!(q.len(), 46);
    assert_eq!(q[1], ("jahrgang".to_string(), "2019".to_string()));
    assert_eq!(q[3], ("wahlperiode".to_string(), "6".to_string()));
    assert_eq!(q[45], ("offset".to_string(), "100".to_string()));
}

#[test]
fn set_param_replaces_first_or_appends() {
    let mut q = vec![("a".to_string(), "1".to_string()), ("a".to_string(), "2".to_string())];
    set_param(&mut q, "a", "x".to_string());
    set_param(&mut q, "b", "y".to_string());
    assert_eq!(
        q,
        vec![
            ("a".to_string(), "x".to_string()),
            ("a".to_string(), "2".to_string()),
            ("b".to_string(), "y".to_string())
        ]
    );
}

#[test]
fn decimal_notation() {
    assert_eq!(to_decimal(0), "0");
    assert_eq!(to_decimal(7), "7");
    assert_eq!(to_decimal(100), "100");
    assert_eq!(to_decimal(u64::MAX), "18446744073709551615");
}

#[test]
fn election_period_codes() {
    assert_eq!(ElectionPeriod::EP7.code(), 17);
    assert_eq!(ElectionPeriod::EP16.code(), 4);
    assert_eq!(ElectionPeriod::EP18.code(), 6);
    assert_eq!(ElectionPeriod::EP19.code(), 8);
    assert_eq!(Citation::BGBl1 { year: 2019, page: 3 }, Citation::BGBl1 { year: 2019, page: 3 });
}

#[test]
fn byte_search() {
    assert!(contains_bytes("abcabd", "abd"));
    assert!(!contains_bytes("abcab", "abd"));
    assert!(contains_bytes("x", ""));
    assert!(!contains_bytes("", "x"));
    assert!(is_logged_out("...Sie wurden vom System abgemeldet..."));
    assert!(!is_logged_out("Sie wurden vom System angemeldet"));
}

#[test]
fn builder_normalizes_and_requires_summary() {
    let d = BipData::builder()
        .content(Some("a   b".to_string()))
        .summary("s\t\ts\n\n\n\nt".to_string())
        .tag_words(None)
        .build()
        .unwrap();
    assert_eq!(d.content, Some("a b".to_string()));
    assert_eq!(d.summary, "s s\n\nt");
    assert_eq!(d.tag_words, None);
    match BipData::builder().content(Some("x".to_string())).build() {
        Err(ParsingError::MissingField(f)) => assert_eq!(f, "summary"),
        other => panic!("unexpected {:?}", other),
    }
}

#[test]
fn record_from_detail_page() {
    let html = "<html><body>\
        <fieldset><h1>Basisinformationen</h1><p>Gesetz   zur\n\n\n Sache</p></fieldset>\
        <fieldset><h1>Schlagwörter</h1>Recht;  Ordnung</fieldset>\
        </body></html>";
    let sel = Selector::new("http://host/d.do".to_string(), html.to_string()).unwrap();
    let d = record_from_page(&sel).unwrap();
    assert_eq!(d.summary, "BasisinformationenGesetz zur\n\nSache");
    assert_eq!(d.content, None);
    assert_eq!(d.tag_words, Some("SchlagwörterRecht; Ordnung".to_string()));
    let empty = Selector::new("http://host/d.do".to_string(), "<p>x</p>".to_string()).unwrap();
    assert!(matches!(record_from_page(&empty), Err(ParsingError::ScrapingError(_))));
}

#[test]
fn record_from_blocks_policy() {
    let absent = || Err(EngineError::ParsingError(ParseFailure::UnexpectedSchema));
    let d = record_from_blocks(absent(), Ok("a  b".to_string()), Ok("x\t y".to_string())).unwrap();
    assert_eq!(d.content, None);
    assert_eq!(d.summary, "a b");
    assert_eq!(d.tag_words, Some("x y".to_string()));
    match record_from_blocks(Ok("c".to_string()), absent(), absent()) {
        Err(ParsingError::ScrapingError(EngineError::ParsingError(ParseFailure::UnexpectedSchema))) => {}
        other => panic!("unexpected {:?}", other),
    }
    match record_from_blocks(
        Err(EngineError::ParsingError(ParseFailure::InvalidQuery)),
        Ok("s".to_string()),
        absent(),
    ) {
        Err(ParsingError::ScrapingError(EngineError::ParsingError(ParseFailure::InvalidQuery))) => {}
        other => panic!("unexpected {:?}", other),
    }
}

#[test]
fn query_names_stay_distinct() {
    assert!(has_distinct_keys(&default_query()));
    assert!(has_distinct_keys(&search_query(200, 2020, ElectionPeriod::EP19)));
    assert!(!has_distinct_keys(&vec![("a".to_string(), "1".to_string()), ("a".to_string(), "2".to_string())]));
}
