use vstd::prelude::*;

pub mod crawl;
pub mod dom;
pub mod error;
pub mod form;
pub mod parsing;
pub mod rate;
pub mod retry;
pub mod selector;
pub mod text;

use vstd::string::StringSliceAdditionalSpecFns;
use crate::error::{EngineError, ParseFailure};
use crate::form::{fields_view, FieldView};
use crate::dom::html_parses;
use crate::selector::{all_joinable, joined_all, selected, Selector};
use crate::dom::texts_view;

verus! {

/// A citation in the federal law gazette.
#[derive(Clone, Copy, Debug, PartialEq, Eq, Structural)]
pub enum Citation {
    BGBl1 { year: i32, page: u32 },
    BGBl2 { year: i32, page: u32 },
}

/// An election period of the parliament.
#[derive(Clone, Copy, Debug, PartialEq, Eq, Structural)]
pub enum ElectionPeriod {
    EP7,
    EP8,
    EP9,
    EP10,
    EP11,
    EP12,
    EP13,
    EP14,
    EP15,
    EP16,
    EP17,
    EP18,
    EP19,
}

/// The number the search portal uses for an election period.
pub open spec fn period_code(p: ElectionPeriod) -> u32 {
    match p {
        ElectionPeriod::EP7 => 17,
        ElectionPeriod::EP8 => 16,
        ElectionPeriod::EP9 => 15,
        ElectionPeriod::EP10 => 14,
        ElectionPeriod::EP11 => 13,
        ElectionPeriod::EP12 => 12,
        ElectionPeriod::EP13 => 11,
        ElectionPeriod::EP14 => 10,
        ElectionPeriod::EP15 => 9,
        ElectionPeriod::EP16 => 4,
        ElectionPeriod::EP17 => 5,
        ElectionPeriod::EP18 => 6,
        ElectionPeriod::EP19 => 8,
    }
}

impl ElectionPeriod {
    /// The number the search portal uses for this election period.
    pub fn code(self) -> (r: u32)
        ensures
            r == period_code(self),
    {
        match self {
            ElectionPeriod::EP7 => 17,
            ElectionPeriod::EP8 => 16,
            ElectionPeriod::EP9 => 15,
            ElectionPeriod::EP10 => 14,
            ElectionPeriod::EP11 => 13,
            ElectionPeriod::EP12 => 12,
            ElectionPeriod::EP13 => 11,
            ElectionPeriod::EP14 => 10,
            ElectionPeriod::EP15 => 9,
            ElectionPeriod::EP16 => 4,
            ElectionPeriod::EP17 => 5,
            ElectionPeriod::EP18 => 6,
            ElectionPeriod::EP19 => 8,
        }
    }
}

/// Errors of the search client.
#[derive(Debug)]
pub enum ApiError {
    /// Transport failure, with its description.
    IoError(String),
    /// The bootstrap exchange set no session cookie.
    NoCookie,
    /// A page could not be read.
    ParsingError(ParseFailure),
    /// The host closed the session.
    LoggedOut,
    /// The result links could not be selected.
    SelectionError(ParseFailure),
}

/// The URL that has to be visited to get the cookies for subsequent search queries.
pub const COOKIE_LANDING: &'static str = "http://dipbt.bundestag.de/dip21.web/bt";

/// The URL of search queries; it requires the session cookies.
pub const SEARCH_URL: &'static str = "http://dipbt.bundestag.de/dip21.web/searchProcedures/advanced_search_list.do";

/// The URL that relative links of result pages resolve against.
pub const BASE_URL: &'static str = "http://dipbt.bundestag.de/";

/// Path of the links to detail pages on a result page.
pub const DETAIL_LINKS_XPATH: &'static str = "//div[@class='tabelleGross']//a[@class='linkIntern']/@href";

/// Text of the page the host answers with once it has closed the session.
pub const LOGOUT_MARKER: &'static str = "Sie wurden vom System abgemeldet";

/// How many results one list page holds.
pub const PAGE_SIZE: u64 = 100;

/// The decimal digit for `d < 10`.
pub open spec fn digit_char(d: nat) -> char {
    if d == 0 { '0' } else if d == 1 { '1' } else if d == 2 { '2' } else if d == 3 { '3' }
    else if d == 4 { '4' } else if d == 5 { '5' } else if d == 6 { '6' } else if d == 7 { '7' }
    else if d == 8 { '8' } else { '9' }
}

/// The decimal notation of `n`, without leading zeros.
pub open spec fn decimal(n: nat) -> Seq<char>
    decreases n,
{
    if n < 10 {
        seq![digit_char(n)]
    } else {
        decimal(n / 10).push(digit_char(n % 10))
    }
}

fn digit_str(d: u64) -> (r: String)
    requires
        d < 10,
    ensures
        r@ == seq![digit_char(d as nat)],
{
    let s = if d == 0 { "0" } else if d == 1 { "1" } else if d == 2 { "2" } else if d == 3 { "3" }
    else if d == 4 { "4" } else if d == 5 { "5" } else if d == 6 { "6" } else if d == 7 { "7" }
    else if d == 8 { "8" } else { "9" };
    proof {
        reveal_strlit("0");
        reveal_strlit("1");
        reveal_strlit("2");
        reveal_strlit("3");
        reveal_strlit("4");
        reveal_strlit("5");
        reveal_strlit("6");
        reveal_strlit("7");
        reveal_strlit("8");
        reveal_strlit("9");
    }
    let r = String::from_str(s);
    assert(r@ =~= seq![digit_char(d as nat)]);
    r
}

/// The decimal notation of `n`.
pub fn to_decimal(n: u64) -> (r: String)
    ensures
        r@ == decimal(n as nat),
    decreases n,
{
    if n < 10 {
        digit_str(n)
    } else {
        let mut s = to_decimal(n / 10);
        let d = digit_str(n % 10);
        s.append(d.as_str());
        assert(s@ =~= decimal((n / 10) as nat).push(digit_char((n % 10) as nat)));
        s
    }
}

/// The parameters the search portal expects, with their default values.
pub open spec fn default_query_spec() -> Seq<FieldView> {
    seq![
        ("verkuendungsblatt"@, ""@),
        ("jahrgang"@, ""@),
        ("seite"@, ""@),
        ("wahlperiode"@, ""@),
        ("drsId"@, ""@),
        ("plprId"@, ""@),
        ("aeDrsId"@, ""@),
        ("aePlprId"@, ""@),
        ("vorgangId"@, ""@),
        ("procedureContext"@, ""@),
        ("vpId"@, ""@),
        ("formChanged"@, "false"@),
        ("promptUser"@, "false"@),
        ("overrideChanged"@, "true"@),
        ("javascriptActive"@, "yes"@),
        ("personId"@, ""@),
        ("personNachname"@, ""@),
        ("prompt"@, "no"@),
        ("anchor"@, ""@),
        ("wahlperiodeaktualisiert"@, "false"@),
        ("startDatum"@, ""@),
        ("endDatum"@, ""@),
        ("includeVorgangstyp"@, "UND"@),
        ("nummer"@, ""@),
        ("suchwort"@, ""@),
        ("suchwortUndSchlagwort"@, "ODER"@),
        ("schlagwort1"@, ""@),
        ("linkSchlagwort2"@, "UND"@),
        ("schlagwort2"@, ""@),
        ("linkSchlagwort3"@, "UND"@),
        ("schlagwort3"@, ""@),
        ("unterbegriffsTiefe"@, "0"@),
        ("sachgebiet"@, ""@),
        ("includeKu"@, "UND"@),
        ("ressort"@, ""@),
        ("nachname"@, ""@),
        ("vorname"@, ""@),
        ("heftnummer"@, ""@),
        ("verkuendungStartDatum"@, ""@),
        ("verkuendungEndDatum"@, ""@),
        ("btBrBeteiligung"@, "alle"@),
        ("gestaOrdnungsnummer"@, ""@),
        ("beratungsstand"@, ""@),
        ("signaturParlamentsarchiv"@, ""@),
        ("method"@, "Suchen"@),
    ]
}

fn pair(k: &str, v: &str) -> (r: (String, String))
    ensures
        r.0@ == k@,
        r.1@ == v@,
{
    (String::from_str(k), String::from_str(v))
}

/// Whether no two pairs of `q` have the same name.
pub fn has_distinct_keys(q: &Vec<(String, String)>) -> (r: bool)
    ensures
        r == keys_distinct(fields_view(q@)),
{
    let mut j: usize = 0;
    while j < q.len()
        invariant
            j <= q@.len(),
            forall|a: int, b: int| 0 <= a < b < j ==> (#[trigger] fields_view(q@)[a]).0 != (#[trigger] fields_view(q@)[b]).0,
        decreases q@.len() - j,
    {
        let mut i: usize = 0;
        while i < j
            invariant
                i <= j < q@.len(),
                forall|a: int| 0 <= a < i ==> (#[trigger] fields_view(q@)[a]).0 != fields_view(q@)[j as int].0,
            decreases j - i,
        {
            if crate::dom::str_eq(q[i].0.as_str(), q[j].0.as_str()) {
                assert(fields_view(q@)[i as int].0 == fields_view(q@)[j as int].0);
                return false;
            }
            i = i + 1;
        }
        j = j + 1;
    }
    true
}

/// Prepares the query parameters as the search portal expects them.
pub fn default_query() -> (r: Vec<(String, String)>)
    ensures
        fields_view(r@) == default_query_spec(),
{
    let mut q: Vec<(String, String)> = Vec::new();
    q.push(pair("verkuendungsblatt", ""));
    q.push(pair("jahrgang", ""));
    q.push(pair("seite", ""));
    q.push(pair("wahlperiode", ""));
    q.push(pair("drsId", ""));
    q.push(pair("plprId", ""));
    q.push(pair("aeDrsId", ""));
    q.push(pair("aePlprId", ""));
    q.push(pair("vorgangId", ""));
    q.push(pair("procedureContext", ""));
    q.push(pair("vpId", ""));
    q.push(pair("formChanged", "false"));
    q.push(pair("promptUser", "false"));
    q.push(pair("overrideChanged", "true"));
    q.push(pair("javascriptActive", "yes"));
    q.push(pair("personId", ""));
    q.push(pair("personNachname", ""));
    q.push(pair("prompt", "no"));
    q.push(pair("anchor", ""));
    q.push(pair("wahlperiodeaktualisiert", "false"));
    q.push(pair("startDatum", ""));
    q.push(pair("endDatum", ""));
    q.push(pair("includeVorgangstyp", "UND"));
    q.push(pair("nummer", ""));
    q.push(pair("suchwort", ""));
    q.push(pair("suchwortUndSchlagwort", "ODER"));
    q.push(pair("schlagwort1", ""));
    q.push(pair("linkSchlagwort2", "UND"));
    q.push(pair("schlagwort2", ""));
    q.push(pair("linkSchlagwort3", "UND"));
    q.push(pair("schlagwort3", ""));
    q.push(pair("unterbegriffsTiefe", "0"));
    q.push(pair("sachgebiet", ""));
    q.push(pair("includeKu", "UND"));
    q.push(pair("ressort", ""));
    q.push(pair("nachname", ""));
    q.push(pair("vorname", ""));
    q.push(pair("heftnummer", ""));
    q.push(pair("verkuendungStartDatum", ""));
    q.push(pair("verkuendungEndDatum", ""));
    q.push(pair("btBrBeteiligung", "alle"));
    q.push(pair("gestaOrdnungsnummer", ""));
    q.push(pair("beratungsstand", ""));
    q.push(pair("signaturParlamentsarchiv", ""));
    q.push(pair("method", "Suchen"));
    assert(fields_view(q@) =~= default_query_spec());
    q
}

/// `s` with the value of its first pair named `k` set to `v`, or with `(k, v)`
/// appended where no pair is named `k`.
pub open spec fn with_param(s: Seq<FieldView>, k: Seq<char>, v: Seq<char>) -> Seq<FieldView>
    decreases s.len(),
{
    if s.len() == 0 {
        seq![(k, v)]
    } else if s[0].0 == k {
        seq![(k, v)] + s.drop_first()
    } else {
        seq![s[0]] + with_param(s.drop_first(), k, v)
    }
}

/// Whether no two pairs of `s` have the same name.
pub open spec fn keys_distinct(s: Seq<FieldView>) -> bool {
    forall|i: int, j: int| 0 <= i < j < s.len() ==> (#[trigger] s[i]).0 != (#[trigger] s[j]).0
}

/// Setting a parameter keeps the names of a query distinct.
pub proof fn lemma_with_param_keeps_keys_distinct(s: Seq<FieldView>, k: Seq<char>, v: Seq<char>)
    requires
        keys_distinct(s),
    ensures
        keys_distinct(with_param(s, k, v)),
{
    if exists|i: int| 0 <= i < s.len() && #[trigger] s[i].0 == k {
        let i = choose|i: int| 0 <= i < s.len() && #[trigger] s[i].0 == k;
        assert forall|j: int| 0 <= j < i implies (#[trigger] s[j]).0 != k by {
            assert(s[j].0 != s[i].0);
        }
        lemma_with_param_at(s, i, k, v);
        let t = s.update(i, (k, v));
        assert forall|a: int, b: int| 0 <= a < b < t.len() implies (#[trigger] t[a]).0 != (#[trigger] t[b]).0 by {
            assert(s[a].0 != s[b].0);
        }
    } else {
        assert forall|j: int| 0 <= j < s.len() implies (#[trigger] s[j]).0 != k by {}
        lemma_with_param_absent(s, k, v);
        let t = s.push((k, v));
        assert forall|a: int, b: int| 0 <= a < b < t.len() implies (#[trigger] t[a]).0 != (#[trigger] t[b]).0 by {
            if b < s.len() {
                assert(s[a].0 != s[b].0);
            } else {
                assert(t[a] == s[a]);
            }
        }
    }
}

/// Sets parameter `k` of the query `q` to `v`: the first pair named `k` takes
/// the value, or the pair is appended where none is named `k`.
pub fn set_param(q: &mut Vec<(String, String)>, k: &str, v: String)
    ensures
        fields_view(final(q)@) == with_param(fields_view(old(q)@), k@, v@),
        keys_distinct(fields_view(old(q)@)) ==> keys_distinct(fields_view(final(q)@)),
{
    proof {
        if keys_distinct(fields_view(q@)) {
            lemma_with_param_keeps_keys_distinct(fields_view(q@), k@, v@);
        }
    }
    let ghost s = fields_view(q@);
    let mut i: usize = 0;
    while i < q.len()
        invariant
            i <= q@.len(),
            s == fields_view(old(q)@),
            q@ == old(q)@,
            forall|j: int| 0 <= j < i ==> (#[trigger] q@[j]).0@ != k@,
        decreases q@.len() - i,
    {
        if crate::dom::str_eq(q[i].0.as_str(), k) {
            let ghost before = q@;
            let name = String::from_str(k);
            q.set(i, (name, v));
            proof {
                lemma_with_param_at(s, i as int, k@, v@);
                assert(fields_view(q@) =~= s.update(i as int, (k@, v@)));
            }
            return;
        }
        i = i + 1;
    }
    proof {
        lemma_with_param_absent(s, k@, v@);
    }
    q.push((String::from_str(k), v));
    assert(fields_view(q@) =~= s.push((k@, v@)));
}

proof fn lemma_with_param_at(s: Seq<FieldView>, i: int, k: Seq<char>, v: Seq<char>)
    requires
        0 <= i < s.len(),
        s[i].0 == k,
        forall|j: int| 0 <= j < i ==> (#[trigger] s[j]).0 != k,
    ensures
        with_param(s, k, v) == s.update(i, (k, v)),
    decreases i,
{
    if i == 0 {
        assert(seq![(k, v)] + s.drop_first() =~= s.update(0, (k, v)));
    } else {
        assert(s[0].0 != k);
        let t = s.drop_first();
        assert forall|j: int| 0 <= j < i - 1 implies (#[trigger] t[j]).0 != k by {
            assert(t[j] == s[j + 1]);
        }
        lemma_with_param_at(t, i - 1, k, v);
        assert(seq![s[0]] + t.update(i - 1, (k, v)) =~= s.update(i, (k, v)));
    }
}

proof fn lemma_with_param_absent(s: Seq<FieldView>, k: Seq<char>, v: Seq<char>)
    requires
        forall|j: int| 0 <= j < s.len() ==> (#[trigger] s[j]).0 != k,
    ensures
        with_param(s, k, v) == s.push((k, v)),
    decreases s.len(),
{
    if s.len() == 0 {
        assert(seq![(k, v)] =~= s.push((k, v)));
    } else {
        assert(s[0].0 != k);
        let t = s.drop_first();
        assert forall|j: int| 0 <= j < t.len() implies (#[trigger] t[j]).0 != k by {
            assert(t[j] == s[j + 1]);
        }
        lemma_with_param_absent(t, k, v);
        assert(seq![s[0]] + t.push((k, v)) =~= s.push((k, v)));
    }
}

/// The parameters of the search for `year` and `period`, at result `offset`.
pub open spec fn search_query_spec(offset: u64, year: u32, period: ElectionPeriod) -> Seq<FieldView> {
    with_param(
        with_param(
            with_param(default_query_spec(), "jahrgang"@, decimal(year as nat)),
            "offset"@,
            decimal(offset as nat),
        ),
        "wahlperiode"@,
        decimal(period_code(period) as nat),
    )
}

/// The form of the search for `year` and `period` that asks for the results
/// from `offset` on.
pub fn search_query(offset: u64, year: u32, period: ElectionPeriod) -> (r: Vec<(String, String)>)
    ensures
        fields_view(r@) == search_query_spec(offset, year, period),
        keys_distinct(default_query_spec()) ==> keys_distinct(fields_view(r@)),
{
    let mut q = default_query();
    set_param(&mut q, "jahrgang", to_decimal(year as u64));
    set_param(&mut q, "offset", to_decimal(offset));
    set_param(&mut q, "wahlperiode", to_decimal(period.code() as u64));
    q
}

/// Whether the bytes `needle` occur in `hay` at position `i`.
pub open spec fn occurs_at(hay: Seq<u8>, needle: Seq<u8>, i: int) -> bool {
    0 <= i && i + needle.len() <= hay.len() && hay.subrange(i, i + needle.len()) == needle
}

/// Whether the bytes `needle` occur anywhere in `hay`.
pub open spec fn occurs_in(hay: Seq<u8>, needle: Seq<u8>) -> bool {
    exists|i: int| #[trigger] occurs_at(hay, needle, i)
}

/// Whether `text` contains `pattern`, compared on their UTF-8 bytes.
pub fn contains_bytes(text: &str, pattern: &str) -> (r: bool)
    ensures
        r == occurs_in(text.spec_bytes(), pattern.spec_bytes()),
{
    let hay = text.as_bytes();
    let needle = pattern.as_bytes();
    let n = hay.len();
    let m = needle.len();
    if m > n {
        assert forall|i: int| !#[trigger] occurs_at(hay@, needle@, i) by {}
        return false;
    }
    let mut i: usize = 0;
    while i <= n - m
        invariant
            hay@ == text.spec_bytes(),
            needle@ == pattern.spec_bytes(),
            n == hay@.len(),
            m == needle@.len(),
            m <= n,
            i <= n - m + 1,
            forall|p: int| 0 <= p < i ==> !#[trigger] occurs_at(hay@, needle@, p),
        decreases n - m + 1 - i,
    {
        let mut j: usize = 0;
        while j < m && hay[i + j] == needle[j]
            invariant
                i <= n - m,
                j <= m,
                n == hay@.len(),
                m == needle@.len(),
                forall|q: int| 0 <= q < j ==> hay@[i + q] == needle@[q],
            decreases m - j,
        {
            j = j + 1;
        }
        if j == m {
            assert(hay@.subrange(i as int, i + m) =~= needle@);
            assert(occurs_at(hay@, needle@, i as int));
            return true;
        }
        assert(hay@.subrange(i as int, i + m)[j as int] != needle@[j as int]);
        i = i + 1;
    }
    assert forall|p: int| !#[trigger] occurs_at(hay@, needle@, p) by {
        if 0 <= p < i {
        }
    }
    false
}

/// Whether `body` is the page of a session the host has closed.
pub fn is_logged_out(body: &str) -> (r: bool)
    ensures
        r == occurs_in(body.spec_bytes(), LOGOUT_MARKER.spec_bytes()),
{
    contains_bytes(body, LOGOUT_MARKER)
}

/// The verdict on a reply whose retrying ended with HTTP status `status`: a
/// status in 200..=299 succeeds unless the body is the page of a closed session.
pub fn reply_verdict(status: u16, body: &str) -> (r: Result<(), EngineError>)
    ensures
        !(200 <= status <= 299) ==> (r matches Err(EngineError::HttpStatusError(s)) && s == status),
        200 <= status <= 299 && occurs_in(body.spec_bytes(), LOGOUT_MARKER.spec_bytes()) ==> r matches Err(
            EngineError::SessionExpired,
        ),
        200 <= status <= 299 && !occurs_in(body.spec_bytes(), LOGOUT_MARKER.spec_bytes()) ==> r is Ok,
{
    if status < 200 || status > 299 {
        return Err(EngineError::HttpStatusError(status));
    }
    if is_logged_out(body) {
        return Err(EngineError::SessionExpired);
    }
    Ok(())
}

/// The result of scraping detail links from the result page `body` served
/// from `page_url`: a body without any tree is `MalformedHtml`; otherwise there
/// is one link per matched href, in document order, each resolved against the
/// page's URL, and any href that does not resolve fails the whole extraction.
pub open spec fn detail_links_outcome(
    page_url: Seq<char>,
    body: Seq<char>,
    r: Result<Vec<String>, ApiError>,
) -> bool {
    if !html_parses(body) {
        r == Err::<Vec<String>, ApiError>(ApiError::SelectionError(ParseFailure::MalformedHtml))
    } else {
        match selected(body, DETAIL_LINKS_XPATH@) {
            None => r == Err::<Vec<String>, ApiError>(ApiError::SelectionError(ParseFailure::InvalidQuery)),
            Some(hs) => (r is Ok <==> all_joinable(page_url, hs)) && (r matches Ok(v) ==> joined_all(
                page_url,
                hs,
                texts_view(v@),
            )) && (r is Err ==> r == Err::<Vec<String>, ApiError>(
                ApiError::SelectionError(ParseFailure::InvalidUrl),
            )),
        }
    }
}

/// Scrapes the links to detail pages from the result page `body`, which was
/// served from `page_url`.
pub fn detail_links(page_url: &str, body: &str) -> (r: Result<Vec<String>, ApiError>)
    ensures
        detail_links_outcome(page_url@, body@, r),
{
    let sel = match Selector::new(String::from_str(page_url), String::from_str(body)) {
        Ok(s) => s,
        Err(_) => {
            return Err(ApiError::SelectionError(ParseFailure::MalformedHtml));
        },
    };
    match sel.select_links(DETAIL_LINKS_XPATH) {
        Ok(v) => Ok(v),
        Err(EngineError::ParsingError(kind)) => Err(ApiError::SelectionError(kind)),
        Err(_) => Err(ApiError::SelectionError(ParseFailure::UnexpectedSchema)),
    }
}

/// The detail links of a search response `body` served from `page_url`: it
/// fails with `LoggedOut` exactly when the body is the page of a closed
/// session, and otherwise gives what `detail_links` gives.
pub fn list_page_links(page_url: &str, body: &str) -> (r: Result<Vec<String>, ApiError>)
    ensures
        occurs_in(body.spec_bytes(), LOGOUT_MARKER.spec_bytes()) ==> r matches Err(ApiError::LoggedOut),
        !occurs_in(body.spec_bytes(), LOGOUT_MARKER.spec_bytes()) ==> detail_links_outcome(
            page_url@,
            body@,
            r,
        ),
{
    if is_logged_out(body) {
        return Err(ApiError::LoggedOut);
    }
    detail_links(page_url, body)
}

} // verus!
