use vstd::prelude::*;
use crate::error::{EngineError, ParseFailure};
use crate::selector::{opt_view, selected, Selector};
use crate::text::{normalized, strip_whitespaces_and_linebreaks};

verus! {

/// Why a record could not be built from a detail page.
#[derive(Debug)]
pub enum ParsingError {
    /// A required field was not set; the field's name.
    MissingField(String),
    /// The page could not be read.
    ScrapingError(EngineError),
    /// The page could not be fetched; the transport's description.
    IoError(String),
}

/// One record of a detail page, each field a normalized text block.
#[derive(Debug)]
pub struct BipData {
    pub content: Option<String>,
    pub summary: String,
    pub tag_words: Option<String>,
}

/// Collects the fields of a `BipData`; `summary` is required.
pub struct BipDataBuilder {
    content: Option<String>,
    summary: Option<String>,
    tag_words: Option<String>,
}

/// `o` with the normalization applied to the value it holds.
pub open spec fn normalized_opt(o: Option<Seq<char>>) -> Option<Seq<char>> {
    match o {
        Some(s) => Some(normalized(s)),
        None => None,
    }
}

fn normalize_opt(input: Option<String>) -> (r: Option<String>)
    ensures
        opt_view(r) == normalized_opt(opt_view(input)),
{
    match input {
        Some(i) => Some(strip_whitespaces_and_linebreaks(i.as_str())),
        None => None,
    }
}

impl BipData {
    /// A builder with no field set.
    pub fn builder() -> (r: BipDataBuilder)
        ensures
            r.content_view() is None,
            r.summary_view() is None,
            r.tag_words_view() is None,
    {
        BipDataBuilder { content: None, summary: None, tag_words: None }
    }
}

impl BipDataBuilder {
    /// The content set so far.
    pub closed spec fn content_view(&self) -> Option<Seq<char>> {
        opt_view(self.content)
    }

    /// The summary set so far.
    pub closed spec fn summary_view(&self) -> Option<Seq<char>> {
        opt_view(self.summary)
    }

    /// The tag words set so far.
    pub closed spec fn tag_words_view(&self) -> Option<Seq<char>> {
        opt_view(self.tag_words)
    }

    /// Sets the content, normalized.
    pub fn content(self, input: Option<String>) -> (r: Self)
        ensures
            r.content_view() == normalized_opt(opt_view(input)),
            r.summary_view() == self.summary_view(),
            r.tag_words_view() == self.tag_words_view(),
    {
        BipDataBuilder { content: normalize_opt(input), ..self }
    }

    /// Sets the summary, normalized.
    pub fn summary(self, input: String) -> (r: Self)
        ensures
            r.content_view() == self.content_view(),
            r.summary_view() == Some(normalized(input@)),
            r.tag_words_view() == self.tag_words_view(),
    {
        BipDataBuilder { summary: Some(strip_whitespaces_and_linebreaks(input.as_str())), ..self }
    }

    /// Sets the tag words, normalized.
    pub fn tag_words(self, input: Option<String>) -> (r: Self)
        ensures
            r.content_view() == self.content_view(),
            r.summary_view() == self.summary_view(),
            r.tag_words_view() == normalized_opt(opt_view(input)),
    {
        BipDataBuilder { tag_words: normalize_opt(input), ..self }
    }

    /// The record; fails when no summary was set.
    pub fn build(self) -> (r: Result<BipData, ParsingError>)
        ensures
            self.summary_view() is None <==> r is Err,
            r matches Err(e) ==> e matches ParsingError::MissingField(f) && f@ == "summary"@,
            r matches Ok(d) ==> Some(d.summary@) == self.summary_view() && opt_view(d.content)
                == self.content_view() && opt_view(d.tag_words) == self.tag_words_view(),
    {
        match self.summary {
            Some(summary) => Ok(BipData { content: self.content, summary, tag_words: self.tag_words }),
            None => Err(ParsingError::MissingField(String::from_str("summary"))),
        }
    }
}

/// Path of the detail page's content block.
pub const CONTENT_XPATH: &'static str = "//fieldset[h1[contains(text(), 'Inhalt')]]";

/// Path of the detail page's basic information block.
pub const SUMMARY_XPATH: &'static str = "//fieldset[h1[contains(text(), 'Basisinformationen')]]";

/// Path of the detail page's keyword block.
pub const TAG_WORDS_XPATH: &'static str = "//fieldset[h1[contains(text(), 'Schlagwörter')]]";

/// The view of the result of reading a block.
pub open spec fn block_view(r: Result<String, EngineError>) -> Result<Seq<char>, EngineError> {
    match r {
        Ok(s) => Ok(s@),
        Err(e) => Err(e),
    }
}

/// Whether reading a block failed for another reason than that no single node matched it.
pub open spec fn block_broken(r: Result<Seq<char>, EngineError>) -> bool {
    r is Err && r != Err::<Seq<char>, EngineError>(EngineError::ParsingError(ParseFailure::UnexpectedSchema))
}

/// The normalized text of an optional block, absent where no single node matched.
pub open spec fn optional_text(r: Result<Seq<char>, EngineError>) -> Option<Seq<char>> {
    match r {
        Ok(s) => Some(normalized(s)),
        Err(_) => None,
    }
}

/// The record built from the blocks `c` (content), `s` (basic information) and
/// `t` (keywords): a block that no single node matched leaves its optional field
/// unset; any other failure, checked in that order, is the result.
pub open spec fn record_outcome(
    c: Result<Seq<char>, EngineError>,
    s: Result<Seq<char>, EngineError>,
    t: Result<Seq<char>, EngineError>,
    r: Result<BipData, ParsingError>,
) -> bool {
    &&& r is Ok <==> !block_broken(c) && s is Ok && !block_broken(t)
    &&& block_broken(c) ==> (r matches Err(ParsingError::ScrapingError(e)) && c == Err::<Seq<char>, EngineError>(e))
    &&& !block_broken(c) && s is Err ==> (r matches Err(ParsingError::ScrapingError(e)) && s == Err::<Seq<char>, EngineError>(e))
    &&& !block_broken(c) && s is Ok && block_broken(t) ==> (r matches Err(ParsingError::ScrapingError(e)) && t == Err::<Seq<char>, EngineError>(e))
    &&& r matches Ok(d) ==> opt_view(d.content) == optional_text(c) && d.summary@ == normalized(s->Ok_0)
        && opt_view(d.tag_words) == optional_text(t)
}

fn optional_block(r: Result<String, EngineError>) -> (o: Result<Option<String>, ParsingError>)
    ensures
        block_broken(block_view(r)) <==> o is Err,
        o matches Err(ParsingError::ScrapingError(e)) ==> block_view(r) == Err::<Seq<char>, EngineError>(e),
        o is Err ==> o matches Err(ParsingError::ScrapingError(_)),
        o matches Ok(v) ==> opt_view(v) == match r {
            Ok(s) => Some(s@),
            Err(_) => None,
        },
{
    match r {
        Ok(s) => Ok(Some(s)),
        Err(EngineError::ParsingError(ParseFailure::UnexpectedSchema)) => Ok(None),
        Err(e) => Err(ParsingError::ScrapingError(e)),
    }
}

/// Builds the record of a detail page from the texts of its blocks, as read
/// from the page: the content (optional), the basic information (required)
/// and the keywords (optional).
pub fn record_from_blocks(
    content: Result<String, EngineError>,
    summary: Result<String, EngineError>,
    tag_words: Result<String, EngineError>,
) -> (r: Result<BipData, ParsingError>)
    ensures
        record_outcome(block_view(content), block_view(summary), block_view(tag_words), r),
{
    let ghost content_in = block_view(content);
    let ghost summary_in = block_view(summary);
    let ghost tag_words_in = block_view(tag_words);
    let content = optional_block(content)?;
    let summary = match summary {
        Ok(s) => s,
        Err(e) => {
            return Err(ParsingError::ScrapingError(e));
        },
    };
    let tag_words = optional_block(tag_words)?;
    let r = BipData::builder().content(content).summary(summary).tag_words(tag_words).build();
    assert(optional_text(content_in) == normalized_opt(opt_view(content)));
    assert(optional_text(tag_words_in) == normalized_opt(opt_view(tag_words)));
    r
}

/// The normalized text of the single node among `found`, as `select_text` reads it.
pub open spec fn block_text(found: Option<Seq<Seq<char>>>) -> Result<Seq<char>, EngineError> {
    match found {
        None => Err(EngineError::ParsingError(ParseFailure::InvalidQuery)),
        Some(cs) => if cs.len() == 1 {
            Ok(normalized(cs[0]))
        } else {
            Err(EngineError::ParsingError(ParseFailure::UnexpectedSchema))
        },
    }
}

/// The record of a parsed detail page, from its content block, its basic
/// information block (required) and its keyword block.
pub fn record_from_page(sel: &Selector) -> (r: Result<BipData, ParsingError>)
    ensures
        record_outcome(
            block_text(selected(sel.source(), CONTENT_XPATH@)),
            block_text(selected(sel.source(), SUMMARY_XPATH@)),
            block_text(selected(sel.source(), TAG_WORDS_XPATH@)),
            r,
        ),
{
    let content = sel.select_text(CONTENT_XPATH);
    let summary = sel.select_text(SUMMARY_XPATH);
    let tag_words = sel.select_text(TAG_WORDS_XPATH);
    assert(block_view(content) == block_text(selected(sel.source(), CONTENT_XPATH@)));
    assert(block_view(summary) == block_text(selected(sel.source(), SUMMARY_XPATH@)));
    assert(block_view(tag_words) == block_text(selected(sel.source(), TAG_WORDS_XPATH@)));
    record_from_blocks(content, summary, tag_words)
}

} // verus!
