use bip_api::dom::{Element, HtmlNode};
use bip_api::error::{EngineError, ParseFailure};
use bip_api::form::extract_form_state;
use bip_api::selector::Selector;

fn sample_page() -> String {
    let mut html = String::from("<html><body><h1>Suche</h1><form action=\"x.do\" method=\"post\">");
    for i in 0..92 {
        html.push_str(&format!("<input type=\"text\" name=\"f{}\" value=\"v{}\">", i, i));
    }
    html.push_str("<input type=\"hidden\" name=\"token\" value=\"abc\">");
    html.push_str("<input type=\"submit\" name=\"go\" value=\"Suchen\">");
    html.push_str("<input type=\"reset\" name=\"clear\" value=\"x\">");
    html.push_str("<input type=\"image\" name=\"img\" value=\"y\">");
    html.push_str("<input type=\"checkbox\" name=\"unchecked\" value=\"1\">");
    html.push_str("<input type=\"checkbox\" name=\"checked\" value=\"1\" checked=\"checked\">");
    html.push_str("<input type=\"radio\" name=\"r\" value=\"a\">");
    html.push_str("<input type=\"radio\" name=\"r\" value=\"b\" checked>");
    html.push_str("<input type=\"text\" name=\"off\" value=\"z\" disabled=\"disabled\">");
    html.push_str("<input type=\"text\" name=\"novalue\">");
    html.push_str("<select name=\"s1\"><option value=\"a\">A</option><option value=\"b\" selected=\"selected\">B</option></select>");
    html.push_str("<select name=\"s2\"><option value=\"first\">1</option><option value=\"second\">2</option></select>");
    html.push_str("<select name=\"empty\"></select>");
    html.push_str("<textarea name=\"t1\">some text</textarea>");
    html.push_str("<textarea name=\"t2\"></textarea>");
    html.push_str("</form><form><input name=\"other\" value=\"form\"></form></body></html>");
    html
}

fn pairs(v: &[(&str, &str)]) -> Vec<(String, String)> {
    v.iter().map(|(a, b)| (a.to_string(), b.to_string())).collect()
}

#[test]
fn parse_form() {
    let sel = Selector::new("http://host/search.do".to_string(), sample_page()).unwrap();
    let values = sel.form_data("//form").unwrap();
    assert_eq!(values.len(), 99);
}

#[test]
fn form_state_is_deterministic_across_parses() {
    let a = Selector::new("http://host/search.do".to_string(), sample_page()).unwrap();
    let b = Selector::new("http://host/search.do".to_string(), sample_page()).unwrap();
    assert_eq!(a.form_data("//form").unwrap(), b.form_data("//form").unwrap());
}

#[test]
fn form_state_follows_the_field_rules() {
    let sel = Selector::new("http://host/search.do".to_string(), sample_page()).unwrap();
    let values = sel.form_data("//form").unwrap();
    assert_eq!(values[0], ("f0".to_string(), "v0".to_string()));
    let tail: Vec<(String, String)> = values[92..].to_vec();
    assert_eq!(
        tail,
        pairs(&[
            ("token", "abc"),
            ("checked", "1"),
            ("r", "b"),
            ("s1", "b"),
            ("s2", "first"),
            ("t1", "some text"),
            ("t2", ""),
        ])
    );
    assert!(!values.iter().any(|(n, _)| n == "other"));
}

#[test]
fn form_state_groups_inputs_selects_textareas() {
    let html = "<form><textarea name=\"t\">x</textarea><select name=\"s\"><option value=\"o\">o</option></select><div><input name=\"i\" value=\"v\"></div></form>";
    let sel = Selector::new("http://host/".to_string(), html.to_string()).unwrap();
    assert_eq!(
        sel.form_data("//form").unwrap(),
        pairs(&[("i", "v"), ("s", "o"), ("t", "x")])
    );
}

#[test]
fn missing_form_is_an_error() {
    let sel = Selector::new("http://host/".to_string(), "<p>no form</p>".to_string()).unwrap();
    assert!(matches!(sel.form_data("//form"), Err(EngineError::NoFormFound)));
}

#[test]
fn malformed_form_locator_is_an_error() {
    let sel = Selector::new("http://host/".to_string(), "<form></form>".to_string()).unwrap();
    assert!(matches!(
        sel.form_data("//form[["),
        Err(EngineError::ParsingError(ParseFailure::InvalidQuery))
    ));
}

fn attr(n: &str, v: &str) -> (String, String) {
    (n.to_string(), v.to_string())
}

fn element(name: &str, attributes: Vec<(String, String)>, children: Vec<HtmlNode>) -> HtmlNode {
    HtmlNode::Element(Element { name: name.to_string(), attributes, children })
}

#[test]
fn extract_form_state_on_a_built_tree() {
    let form = Element {
        name: "form".to_string(),
        attributes: vec![],
        children: vec![
            element(
                "select",
                vec![attr("name", "sel")],
                vec![
                    element("option", vec![attr("selected", "")], vec![]),
                    element("option", vec![attr("value", "x")], vec![]),
                    element("option", vec![attr("value", "y"), attr("selected", "selected")], vec![]),
                ],
            ),
            element(
                "p",
                vec![],
                vec![element(
                    "textarea",
                    vec![attr("name", "note")],
                    vec![HtmlNode::Text("a".to_string()), HtmlNode::Other, HtmlNode::Text("b".to_string())],
                )],
            ),
            element("input", vec![attr("type", "checkbox"), attr("name", "c"), attr("value", "1")], vec![]),
            element("input", vec![attr("name", "q"), attr("value", "")], vec![]),
        ],
    };
    assert_eq!(
        extract_form_state(&form),
        pairs(&[("q", ""), ("sel", "y"), ("note", "ab")])
    );
}

#[test]
fn selects_without_options_are_reported() {
    let sel = Selector::new("http://host/search.do".to_string(), sample_page()).unwrap();
    let (fields, skipped) = sel.form_data_reporting("//form").unwrap();
    assert_eq!(fields.len(), 99);
    assert_eq!(skipped, vec!["empty".to_string()]);
}
