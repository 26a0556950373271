use bip_api::error::{EngineError, ParseFailure};
use bip_api::selector::{normalized_text, Selector};
use bip_api::text::strip_whitespaces_and_linebreaks;

#[test]
fn collapses_horizontal_whitespace() {
    assert_eq!(strip_whitespaces_and_linebreaks("a \t\x0b\x0c\r  b"), "a b");
}

#[test]
fn collapses_blank_lines() {
    assert_eq!(strip_whitespaces_and_linebreaks("a \t b\n\n\n c"), "a b\n\nc");
    assert_eq!(strip_whitespaces_and_linebreaks("x\n  \n\u{a0}\ny"), "x\n\ny");
}

#[test]
fn keeps_single_line_breaks() {
    assert_eq!(strip_whitespaces_and_linebreaks("one\n  two"), "one\n two");
    assert_eq!(strip_whitespaces_and_linebreaks(""), "");
}

#[test]
fn normalization_is_idempotent() {
    let inputs = [
        "  Titel:\t\tGesetz \r\n\r\n\n  zur   Änderung\n\n",
        "a\n \n \nb  c\t\n",
        "\n\n\n",
        "plain",
    ];
    for s in inputs.iter() {
        let once = strip_whitespaces_and_linebreaks(s);
        let twice = strip_whitespaces_and_linebreaks(&once);
        assert_eq!(once, twice);
    }
}

#[test]
fn normalized_text_requires_one_node() {
    assert_eq!(normalized_text(&vec!["a  b".to_string()]).unwrap(), "a b");
    assert!(matches!(
        normalized_text(&vec![]),
        Err(EngineError::ParsingError(ParseFailure::UnexpectedSchema))
    ));
    assert!(matches!(
        normalized_text(&vec!["a".to_string(), "b".to_string()]),
        Err(EngineError::ParsingError(ParseFailure::UnexpectedSchema))
    ));
}

#[test]
fn select_text_reads_one_block() {
    let html = "<div><fieldset><h1>Inhalt</h1>Das   Gesetz\n\n\n\nregelt</fieldset><p>x</p><p>y</p></div>";
    let sel = Selector::new("http://host/".to_string(), html.to_string()).unwrap();
    assert_eq!(sel.select_text("//fieldset").unwrap(), "InhaltDas Gesetz\n\nregelt");
    assert!(matches!(
        sel.select_text("//p"),
        Err(EngineError::ParsingError(ParseFailure::UnexpectedSchema))
    ));
    assert!(matches!(
        sel.select_text("//table"),
        Err(EngineError::ParsingError(ParseFailure::UnexpectedSchema))
    ));
}

#[test]
fn empty_body_is_malformed() {
    assert!(matches!(
        Selector::new("http://host/".to_string(), String::new()),
        Err(EngineError::ParsingError(ParseFailure::MalformedHtml))
    ));
}
