use vstd::prelude::*;
use crate::dom::{
    contains_nul, find_nodes, has_nul, opt_texts_view, parse_html, root_element, select_texts,
    texts_view, to_html_node, xpath_texts, html_parses, Element, HtmlNode, MAX_DEPTH,
};
use crate::error::{EngineError, ParseFailure};
use crate::form::{extract_form_state_reporting, fields_view, form_state, skipped_selects};
use crate::text::{normalized, strip_whitespaces_and_linebreaks};

verus! {

/// The absolute URL that `href` names relative to the absolute URL `base`,
/// serialized; `None` where `base` is no absolute URL or `href` does not resolve.
pub uninterp spec fn joined_url(base: Seq<char>, href: Seq<char>) -> Option<Seq<char>>;

/// Whether every href of `hs` resolves against `base`.
pub open spec fn all_joinable(base: Seq<char>, hs: Seq<Seq<char>>) -> bool {
    forall|i: int| 0 <= i < hs.len() ==> #[trigger] joined_url(base, hs[i]) is Some
}

/// Whether `links` are the hrefs `hs` resolved against `base`, one for one, in order.
pub open spec fn joined_all(base: Seq<char>, hs: Seq<Seq<char>>, links: Seq<Seq<char>>) -> bool {
    links.len() == hs.len() && forall|i: int|
        0 <= i < hs.len() ==> joined_url(base, hs[i]) == Some(#[trigger] links[i])
}

/// The texts of the nodes that `xpath` selects in `source`; `None` where the
/// expression is malformed or holds a NUL character.
pub open spec fn selected(source: Seq<char>, xpath: Seq<char>) -> Option<Seq<Seq<char>>> {
    if has_nul(xpath) {
        None
    } else {
        xpath_texts(source, xpath)
    }
}

/// The result of extracting links from the hrefs `found` against `base`: an
/// invalid query fails with `InvalidQuery`; otherwise every href is resolved,
/// in order, and any href that does not resolve fails the whole extraction.
pub open spec fn links_outcome(
    base: Seq<char>,
    found: Option<Seq<Seq<char>>>,
    r: Result<Vec<String>, EngineError>,
) -> bool {
    match found {
        None => r == Err::<Vec<String>, EngineError>(EngineError::ParsingError(ParseFailure::InvalidQuery)),
        Some(hs) => (r is Ok <==> all_joinable(base, hs)) && (r matches Ok(v) ==> joined_all(
            base,
            hs,
            texts_view(v@),
        )) && (r is Err ==> r == Err::<Vec<String>, EngineError>(
            EngineError::ParsingError(ParseFailure::InvalidUrl),
        )),
    }
}

/// The result of reading the text of the single node among `found`.
pub open spec fn text_outcome(found: Option<Seq<Seq<char>>>, r: Result<String, EngineError>) -> bool {
    match found {
        None => r == Err::<String, EngineError>(EngineError::ParsingError(ParseFailure::InvalidQuery)),
        Some(cs) => if cs.len() == 1 {
            r matches Ok(s) && s@ == normalized(cs[0])
        } else {
            r == Err::<String, EngineError>(EngineError::ParsingError(ParseFailure::UnexpectedSchema))
        },
    }
}

/// The view of an optional string.
pub open spec fn opt_view(r: Option<String>) -> Option<Seq<char>> {
    match r {
        Some(s) => Some(s@),
        None => None,
    }
}

/// Relies on url::Url::parse, to read `base`, and on Url::join, to resolve
/// `href` against it; the result is the serialization of the joined URL.
#[verifier::external_body]
fn join_url(base: &str, href: &str) -> (r: Option<String>)
    ensures
        opt_view(r) == joined_url(base@, href@),
{
    match url::Url::parse(base) {
        Ok(b) => match b.join(href) {
            Ok(u) => Some(u.as_str().to_string()),
            Err(_) => None,
        },
        Err(_) => None,
    }
}

/// Resolves every href against `base`, in order; fails on the first one that
/// does not resolve.
pub fn resolve_links(base: &str, hrefs: &Vec<String>) -> (r: Result<Vec<String>, EngineError>)
    ensures
        links_outcome(base@, Some(texts_view(hrefs@)), r),
{
    let ghost hs = texts_view(hrefs@);
    let mut out: Vec<String> = Vec::new();
    let mut i: usize = 0;
    while i < hrefs.len()
        invariant
            i <= hrefs@.len(),
            hs == texts_view(hrefs@),
            out@.len() == i,
            forall|j: int| 0 <= j < i ==> joined_url(base@, hs[j]) == Some(#[trigger] out@[j]@),
        decreases hrefs@.len() - i,
    {
        match join_url(base, hrefs[i].as_str()) {
            Some(u) => out.push(u),
            None => {
                assert(!(joined_url(base@, hs[i as int]) is Some));
                return Err(EngineError::ParsingError(ParseFailure::InvalidUrl));
            },
        }
        i = i + 1;
    }
    assert forall|i: int| 0 <= i < hs.len() implies #[trigger] joined_url(base@, hs[i]) is Some by {
        assert(joined_url(base@, hs[i]) == Some(out@[i]@));
    }
    assert forall|i: int| 0 <= i < hs.len() implies joined_url(base@, hs[i]) == Some(
        #[trigger] texts_view(out@)[i],
    ) by {
        assert(joined_url(base@, hs[i]) == Some(out@[i]@));
    }
    Ok(out)
}

/// The normalized text of the single node whose text content is `contents`;
/// fails unless exactly one node matched.
pub fn normalized_text(contents: &Vec<String>) -> (r: Result<String, EngineError>)
    ensures
        text_outcome(Some(texts_view(contents@)), r),
{
    if contents.len() != 1 {
        return Err(EngineError::ParsingError(ParseFailure::UnexpectedSchema));
    }
    Ok(strip_whitespaces_and_linebreaks(contents[0].as_str()))
}

/// A parsed document together with the URL that its relative links resolve against.
pub struct Selector {
    base_url: String,
    source: String,
    doc: libxml::tree::Document,
}

impl Selector {
    #[verifier::type_invariant]
    spec fn parsed(self) -> bool {
        html_parses(self.source@)
    }

    /// The URL relative links of this document resolve against.
    pub closed spec fn base(&self) -> Seq<char> {
        self.base_url@
    }

    /// The HTML text the document was parsed from.
    pub closed spec fn source(&self) -> Seq<char> {
        self.source@
    }

    /// Parses `body`; `base_url` is the URL the document was served from.
    /// Parsing is lenient: it fails only where no tree at all can be built.
    pub fn new(base_url: String, body: String) -> (r: Result<Self, EngineError>)
        ensures
            r is Ok <==> html_parses(body@),
            r matches Ok(s) ==> s.base() == base_url@ && s.source() == body@,
            r is Err ==> r == Err::<Self, EngineError>(EngineError::ParsingError(ParseFailure::MalformedHtml)),
    {
        match parse_html(body.as_str()) {
            Ok(doc) => Ok(Selector { base_url, source: body, doc }),
            Err(_) => Err(EngineError::ParsingError(ParseFailure::MalformedHtml)),
        }
    }

    /// The texts of the nodes that `xpath` selects.
    fn texts(&self, xpath: &str) -> (r: Option<Vec<String>>)
        ensures
            opt_texts_view(r) == selected(self.source(), xpath@),
    {
        if contains_nul(xpath) {
            return None;
        }
        proof {
            use_type_invariant(self);
        }
        select_texts(self.source.as_str(), xpath)
    }

    /// Extracts links using `xpath`: the text of each selected node, resolved
    /// against the document's URL, so that every link is absolute.
    pub fn select_links(&self, xpath: &str) -> (r: Result<Vec<String>, EngineError>)
        ensures
            links_outcome(self.base(), selected(self.source(), xpath@), r),
    {
        match self.texts(xpath) {
            None => Err(EngineError::ParsingError(ParseFailure::InvalidQuery)),
            Some(hrefs) => resolve_links(self.base_url.as_str(), &hrefs),
        }
    }

    /// The normalized text of the single node that `xpath` selects.
    pub fn select_text(&self, xpath: &str) -> (r: Result<String, EngineError>)
        ensures
            text_outcome(selected(self.source(), xpath@), r),
    {
        match self.texts(xpath) {
            None => Err(EngineError::ParsingError(ParseFailure::InvalidQuery)),
            Some(contents) => normalized_text(&contents),
        }
    }

    /// The current field values of the first form that `xpath` locates,
    /// with the names of its selects skipped for want of an option (each one
    /// a non-fatal warning): an invalid locator fails with `InvalidQuery`, a
    /// locator that matches nothing with `NoFormFound`.
    pub fn form_data_reporting(&self, xpath: &str) -> (r: Result<(Vec<(String, String)>, Vec<String>), EngineError>)
        ensures
            selected(self.source(), xpath@) is None ==> r == Err::<(Vec<(String, String)>, Vec<String>), EngineError>(
                EngineError::ParsingError(ParseFailure::InvalidQuery),
            ),
            selected(self.source(), xpath@) matches Some(cs) && cs.len() == 0 ==> r == Err::<
                (Vec<(String, String)>, Vec<String>),
                EngineError,
            >(EngineError::NoFormFound),
            selected(self.source(), xpath@) matches Some(cs) && cs.len() > 0 ==> (r matches Ok(v)
                && exists|f: Element| #[trigger] form_state(f) == fields_view(v.0@) && skipped_selects(f) == texts_view(v.1@)),
    {
        let located = match self.texts(xpath) {
            None => {
                return Err(EngineError::ParsingError(ParseFailure::InvalidQuery));
            },
            Some(t) => t.len(),
        };
        if located == 0 {
            return Err(EngineError::NoFormFound);
        }
        let mut form = Element { name: String::new(), attributes: Vec::new(), children: Vec::new() };
        if let Some(root) = root_element(&self.doc) {
            if let Some(nodes) = find_nodes(&root, xpath) {
                if nodes.len() > 0 {
                    if let HtmlNode::Element(e) = to_html_node(&nodes[0], MAX_DEPTH) {
                        form = e;
                    }
                }
            }
        }
        let r = extract_form_state_reporting(&form);
        assert(form_state(form) == fields_view(r.0@));
        Ok(r)
    }

    /// The current field values of the first form that `xpath` locates: an
    /// invalid locator fails with `InvalidQuery`, a locator that matches nothing
    /// with `NoFormFound`; otherwise the result is the state of the located form.
    pub fn form_data(&self, xpath: &str) -> (r: Result<Vec<(String, String)>, EngineError>)
        ensures
            selected(self.source(), xpath@) is None ==> r == Err::<Vec<(String, String)>, EngineError>(
                EngineError::ParsingError(ParseFailure::InvalidQuery),
            ),
            selected(self.source(), xpath@) matches Some(cs) && cs.len() == 0 ==> r == Err::<
                Vec<(String, String)>,
                EngineError,
            >(EngineError::NoFormFound),
            selected(self.source(), xpath@) matches Some(cs) && cs.len() > 0 ==> (r matches Ok(v)
                && exists|f: Element| #[trigger] form_state(f) == fields_view(v@)),
    {
        match self.form_data_reporting(xpath) {
            Ok(v) => Ok(v.0),
            Err(e) => Err(e),
        }
    }
}

} // verus!
