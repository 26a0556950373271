use vstd::prelude::*;
use crate::error::EngineError;
use crate::form::{fields_view, FieldView};
use crate::parsing::{BipData, ParsingError};
use crate::{decimal, set_param, to_decimal, with_param};

verus! {

/// Where a crawl stands.
#[derive(Clone, Copy, Debug, PartialEq, Eq, Structural)]
pub enum CrawlPhase {
    /// Nothing was sent yet.
    Init,
    /// The cookie landing page was requested.
    AwaitSession,
    /// The search page was requested for its form.
    AwaitForm,
    /// The list page at `offset` was requested.
    AwaitPage { offset: u64 },
    /// The detail pages of the list page at `offset` are being fetched;
    /// `form_ready` tells whether that list page held the form for the next one.
    AwaitDetails { offset: u64, form_ready: bool },
    /// The crawl is complete.
    Done,
    /// The crawl stopped on an unrecoverable failure.
    Failed,
}

/// What the crawl asks its driver to do next.
#[derive(Debug)]
pub enum CrawlAction {
    /// Request the cookie landing page and report how many cookies it set.
    Bootstrap,
    /// Request the search page and report the state of its form.
    FetchSearchForm,
    /// Post `form` to the search endpoint and report the list page.
    SubmitSearch { offset: u64, form: Vec<(String, String)> },
    /// Fetch these detail pages and report their records, in this order.
    FetchDetails { links: Vec<String> },
    /// The crawl is complete.
    Finish,
    /// The crawl stopped on this error.
    Abort(EngineError),
}

/// Value of the form's `method` parameter that starts a search.
pub const START_SEARCH: &'static str = "Suchen";

/// Value of the form's `method` parameter that asks for the next page.
pub const NEXT_PAGE: &'static str = ">";

/// The phase after a list page was answered: `fetched` tells whether it could
/// be read, `nonempty` whether it held links, `form_ready` whether it held the
/// form for the next page.
pub open spec fn after_list_page(p: CrawlPhase, fetched: bool, nonempty: bool, form_ready: bool) -> CrawlPhase {
    match p {
        CrawlPhase::AwaitPage { offset } => if !fetched {
            CrawlPhase::Failed
        } else if !nonempty {
            CrawlPhase::Done
        } else {
            CrawlPhase::AwaitDetails { offset, form_ready }
        },
        _ => p,
    }
}

/// The phase after the detail pages of a list page were handled, whatever
/// their records were.
pub open spec fn after_details(p: CrawlPhase, page_size: u64) -> CrawlPhase {
    match p {
        CrawlPhase::AwaitDetails { offset, form_ready } => if !form_ready {
            CrawlPhase::Failed
        } else if offset + page_size > u64::MAX {
            CrawlPhase::Done
        } else {
            CrawlPhase::AwaitPage { offset: (offset + page_size) as u64 }
        },
        _ => p,
    }
}

/// The form posted for the list page at `offset`.
pub open spec fn submitted_form(form: Seq<FieldView>, method: Seq<char>, offset: u64) -> Seq<FieldView> {
    with_param(with_param(form, "method"@, method), "offset"@, decimal(offset as nat))
}

/// The records among `rs`, in order.
pub open spec fn successes(rs: Seq<Result<BipData, ParsingError>>) -> Seq<BipData>
    decreases rs.len(),
{
    if rs.len() == 0 {
        Seq::empty()
    } else {
        let rest = successes(rs.drop_first());
        match rs[0] {
            Ok(d) => seq![d] + rest,
            Err(_) => rest,
        }
    }
}

/// The failures among `rs`, in order.
pub open spec fn failures(rs: Seq<Result<BipData, ParsingError>>) -> Seq<ParsingError>
    decreases rs.len(),
{
    if rs.len() == 0 {
        Seq::empty()
    } else {
        let rest = failures(rs.drop_first());
        match rs[0] {
            Ok(_) => rest,
            Err(e) => seq![e] + rest,
        }
    }
}

/// What the detail pages of one list page yielded.
#[derive(Debug)]
pub struct DetailReport {
    /// One result per detail page, in dispatch order, for the item pipeline:
    /// each record is emitted, each failure reported and skipped.
    pub items: Vec<Result<BipData, ParsingError>>,
    /// How many of the pages failed.
    pub failed: usize,
}

/// The pagination state machine: list page by list page, with a fan-out to
/// the detail pages of each.
pub struct Crawler {
    page_size: u64,
    phase: CrawlPhase,
    next_form: Vec<(String, String)>,
    form_error: Option<EngineError>,
    list_requests: Ghost<nat>,
}

impl Crawler {
    /// The current phase.
    pub closed spec fn phase(&self) -> CrawlPhase {
        self.phase
    }

    /// How many results a list page holds.
    pub closed spec fn page_size(&self) -> u64 {
        self.page_size
    }

    /// The form state kept for the next list page.
    pub closed spec fn form_view(&self) -> Seq<FieldView> {
        fields_view(self.next_form@)
    }

    /// Why the last list page held no form for the next one, if it did not.
    pub closed spec fn form_error(&self) -> Option<EngineError> {
        self.form_error
    }

    /// How many list pages were requested so far.
    pub closed spec fn list_requests(&self) -> nat {
        self.list_requests@
    }

    /// A crawl over list pages of `page_size` results; `None` for an empty page size.
    pub fn new(page_size: u64) -> (r: Option<Crawler>)
        ensures
            page_size == 0 <==> r is None,
            r matches Some(c) ==> c.phase() == CrawlPhase::Init && c.page_size() == page_size
                && c.list_requests() == 0,
    {
        if page_size == 0 {
            return None;
        }
        Some(Crawler { page_size, phase: CrawlPhase::Init, next_form: Vec::new(), form_error: None, list_requests: Ghost(0) })
    }

    /// The current phase.
    pub fn current_phase(&self) -> (r: CrawlPhase)
        ensures
            r == self.phase(),
    {
        self.phase
    }

    /// Starts the crawl: the session comes first.
    pub fn start(&mut self) -> (r: CrawlAction)
        requires
            old(self).phase() == CrawlPhase::Init,
        ensures
            final(self).phase() == CrawlPhase::AwaitSession,
            final(self).page_size() == old(self).page_size(),
            final(self).list_requests() == old(self).list_requests(),
            r is Bootstrap,
    {
        self.phase = CrawlPhase::AwaitSession;
        CrawlAction::Bootstrap
    }

    /// The cookie landing page set `cookies` cookies.
    pub fn on_session(&mut self, cookies: usize) -> (r: CrawlAction)
        requires
            old(self).phase() == CrawlPhase::AwaitSession,
        ensures
            final(self).page_size() == old(self).page_size(),
            final(self).list_requests() == old(self).list_requests(),
            cookies == 0 ==> final(self).phase() == CrawlPhase::Failed && r matches CrawlAction::Abort(
                EngineError::NoSessionCookie,
            ),
            cookies > 0 ==> final(self).phase() == CrawlPhase::AwaitForm && r is FetchSearchForm,
    {
        if cookies == 0 {
            self.phase = CrawlPhase::Failed;
            return CrawlAction::Abort(EngineError::NoSessionCookie);
        }
        self.phase = CrawlPhase::AwaitForm;
        CrawlAction::FetchSearchForm
    }

    /// The search page was answered with the state of its form, or an error.
    pub fn on_search_form(&mut self, form: Result<Vec<(String, String)>, EngineError>) -> (r: CrawlAction)
        requires
            old(self).phase() == CrawlPhase::AwaitForm,
        ensures
            final(self).page_size() == old(self).page_size(),
            form matches Err(e) ==> (final(self).phase() == CrawlPhase::Failed && (r matches CrawlAction::Abort(a) && a == e)
                && final(self).list_requests() == old(self).list_requests()),
            form matches Ok(f) ==> (final(self).phase() == (CrawlPhase::AwaitPage { offset: 0 })
                && final(self).list_requests() == old(self).list_requests() + 1 && (r matches CrawlAction::SubmitSearch { offset, form: g }
                && offset == 0 && fields_view(g@) == submitted_form(fields_view(f@), START_SEARCH@, 0))),
    {
        match form {
            Err(e) => {
                self.phase = CrawlPhase::Failed;
                CrawlAction::Abort(e)
            },
            Ok(f) => {
                let mut g = f;
                set_param(&mut g, "method", String::from_str(START_SEARCH));
                set_param(&mut g, "offset", to_decimal(0));
                self.phase = CrawlPhase::AwaitPage { offset: 0 };
                self.list_requests = Ghost(self.list_requests@ + 1);
                CrawlAction::SubmitSearch { offset: 0, form: g }
            },
        }
    }

    /// The list page was answered: the detail links it holds (or why they could
    /// not be read) and the state of its form for the next page.
    pub fn on_list_page(
        &mut self,
        links: Result<Vec<String>, EngineError>,
        next_form: Result<Vec<(String, String)>, EngineError>,
    ) -> (r: CrawlAction)
        requires
            old(self).phase() is AwaitPage,
        ensures
            final(self).page_size() == old(self).page_size(),
            final(self).list_requests() == old(self).list_requests(),
            final(self).phase() == after_list_page(
                old(self).phase(),
                links is Ok,
                links matches Ok(v) && v@.len() > 0,
                next_form is Ok,
            ),
            links matches Err(e) ==> (r matches CrawlAction::Abort(a) && a == e),
            links matches Ok(v) && v@.len() > 0 ==> final(self).form_error() == match next_form {
                Ok(_) => None::<EngineError>,
                Err(e) => Some(e),
            },
            links matches Ok(v) ==> (v@.len() == 0 ==> r is Finish) && (v@.len() > 0 ==> (r matches CrawlAction::FetchDetails { links: w } && w@ == v@)),
    {
        let offset = match self.phase {
            CrawlPhase::AwaitPage { offset } => offset,
            _ => 0,
        };
        match links {
            Err(e) => {
                self.phase = CrawlPhase::Failed;
                CrawlAction::Abort(e)
            },
            Ok(v) => {
                if v.len() == 0 {
                    self.phase = CrawlPhase::Done;
                    return CrawlAction::Finish;
                }
                let form_ready = next_form.is_ok();
                match next_form {
                    Ok(f) => {
                        self.next_form = f;
                        self.form_error = None;
                    },
                    Err(e) => self.form_error = Some(e),
                }
                self.phase = CrawlPhase::AwaitDetails { offset, form_ready };
                CrawlAction::FetchDetails { links: v }
            },
        }
    }

    /// The detail pages were handled, with these results in dispatch order.
    /// Each record goes to the pipeline; a failed page is reported and skipped,
    /// and the crawl goes on whatever the results.
    pub fn on_details(&mut self, results: Vec<Result<BipData, ParsingError>>) -> (r: (DetailReport, CrawlAction))
        requires
            old(self).phase() is AwaitDetails,
        ensures
            final(self).page_size() == old(self).page_size(),
            final(self).phase() == after_details(old(self).phase(), old(self).page_size()),
            r.0.items@ == results@,
            r.0.failed == failures(results@).len(),
            final(self).phase() is AwaitPage ==> (final(self).list_requests() == old(self).list_requests() + 1
                && (r.1 matches CrawlAction::SubmitSearch { offset, form } && final(self).phase() == (CrawlPhase::AwaitPage { offset })
                && fields_view(form@) == submitted_form(old(self).form_view(), NEXT_PAGE@, offset))),
            !(final(self).phase() is AwaitPage) ==> final(self).list_requests() == old(self).list_requests(),
            final(self).phase() == CrawlPhase::Done ==> r.1 is Finish,
            final(self).phase() == CrawlPhase::Failed ==> (r.1 matches CrawlAction::Abort(a) && (old(
                self,
            ).form_error() matches Some(p) ==> a == p)),
    {
        let failed = count_failures(&results);
        let report = DetailReport { items: results, failed };
        let (offset, form_ready) = match self.phase {
            CrawlPhase::AwaitDetails { offset, form_ready } => (offset, form_ready),
            _ => (0, false),
        };
        if !form_ready {
            self.phase = CrawlPhase::Failed;
            let mut err: Option<EngineError> = None;
            std::mem::swap(&mut err, &mut self.form_error);
            let e = match err {
                Some(e) => e,
                None => EngineError::NoFormFound,
            };
            return (report, CrawlAction::Abort(e));
        }
        if offset > u64::MAX - self.page_size {
            self.phase = CrawlPhase::Done;
            return (report, CrawlAction::Finish);
        }
        let next = offset + self.page_size;
        let mut g: Vec<(String, String)> = Vec::new();
        std::mem::swap(&mut g, &mut self.next_form);
        set_param(&mut g, "method", String::from_str(NEXT_PAGE));
        set_param(&mut g, "offset", to_decimal(next));
        self.phase = CrawlPhase::AwaitPage { offset: next };
        self.list_requests = Ghost(self.list_requests@ + 1);
        (report, CrawlAction::SubmitSearch { offset: next, form: g })
    }
}

/// How many of the detail results are failures.
fn count_failures(results: &Vec<Result<BipData, ParsingError>>) -> (r: usize)
    ensures
        r == failures(results@).len(),
{
    let mut n: usize = 0;
    let mut k: usize = 0;
    assert(results@.take(0) =~= Seq::<Result<BipData, ParsingError>>::empty());
    while k < results.len()
        invariant
            k <= results@.len(),
            n == failures(results@.take(k as int)).len(),
            n <= k,
        decreases results@.len() - k,
    {
        proof {
            lemma_split_step(results@, k as int);
        }
        if results[k].is_err() {
            n = n + 1;
        }
        k = k + 1;
    }
    assert(results@.take(k as int) =~= results@);
    n
}

proof fn lemma_split_append(a: Seq<Result<BipData, ParsingError>>, b: Seq<Result<BipData, ParsingError>>)
    ensures
        successes(a + b) == successes(a) + successes(b),
        failures(a + b) == failures(a) + failures(b),
    decreases a.len(),
{
    if a.len() == 0 {
        assert(a + b =~= b);
    } else {
        assert((a + b).drop_first() =~= a.drop_first() + b);
        lemma_split_append(a.drop_first(), b);
    }
}

proof fn lemma_split_step(orig: Seq<Result<BipData, ParsingError>>, k: int)
    requires
        0 <= k < orig.len(),
    ensures
        successes(orig.take(k + 1)) == successes(orig.take(k)) + match orig[k] {
            Ok(d) => seq![d],
            Err(_) => Seq::<BipData>::empty(),
        },
        failures(orig.take(k + 1)) == failures(orig.take(k)) + match orig[k] {
            Ok(_) => Seq::<ParsingError>::empty(),
            Err(e) => seq![e],
        },
{
    let one = seq![orig[k]];
    assert(orig.take(k + 1) =~= orig.take(k) + one);
    lemma_split_append(orig.take(k), one);
    assert(one.drop_first() =~= Seq::<Result<BipData, ParsingError>>::empty());
    assert(successes(one.drop_first()) == Seq::<BipData>::empty());
    assert(failures(one.drop_first()) == Seq::<ParsingError>::empty());
    match orig[k] {
        Ok(d) => {
            assert(seq![d] + Seq::<BipData>::empty() =~= seq![d]);
        },
        Err(e) => {
            assert(seq![e] + Seq::<ParsingError>::empty() =~= seq![e]);
        },
    }
}

/// The phase after one list page of a crawl whose pages and forms are all
/// readable, with its detail pages when it holds links.
pub open spec fn list_round(p: CrawlPhase, page_size: u64, nonempty: bool) -> CrawlPhase {
    if nonempty {
        after_details(after_list_page(p, true, true, true), page_size)
    } else {
        after_list_page(p, true, false, true)
    }
}

/// The phase and the count of list requests after a crawl in phase `p`, with
/// `requests` list requests made, is answered list pages that hold links
/// exactly where `pages` holds.
pub open spec fn crawl_pages(p: CrawlPhase, requests: nat, page_size: u64, pages: Seq<bool>) -> (
    CrawlPhase,
    nat,
)
    decreases pages.len(),
{
    if pages.len() == 0 || !(p is AwaitPage) {
        (p, requests)
    } else {
        let q = list_round(p, page_size, pages[0]);
        crawl_pages(
            q,
            if q is AwaitPage {
                requests + 1
            } else {
                requests
            },
            page_size,
            pages.drop_first(),
        )
    }
}

/// Pagination ends at the first empty list page: when the pages at `offset`,
/// `offset + page_size`, ... hold links for `n` pages and the next one holds none,
/// the crawl makes `n` more list requests and is then done.
pub proof fn lemma_crawl_ends_at_first_empty_page(
    offset: u64,
    requests: nat,
    page_size: u64,
    n: nat,
    pages: Seq<bool>,
)
    requires
        page_size > 0,
        n < pages.len(),
        forall|k: int| 0 <= k < n ==> #[trigger] pages[k],
        !pages[n as int],
        offset + n * page_size <= u64::MAX,
    ensures
        crawl_pages(CrawlPhase::AwaitPage { offset }, requests, page_size, pages) == (
            CrawlPhase::Done,
            requests + n,
        ),
    decreases n,
{
    if n == 0 {
        assert(crawl_pages(CrawlPhase::Done, requests, page_size, pages.drop_first()) == (
            CrawlPhase::Done,
            requests,
        ));
    } else {
        assert(pages[0]);
        assert(offset + page_size <= offset + n * page_size) by (nonlinear_arith)
            requires
                n >= 1,
                page_size > 0,
        ;
        let next = (offset + page_size) as u64;
        let rest = pages.drop_first();
        assert forall|k: int| 0 <= k < n - 1 implies #[trigger] rest[k] by {
            assert(rest[k] == pages[k + 1]);
        }
        assert(rest[n - 1] == pages[n as int]);
        assert(next + (n - 1) * page_size == offset + n * page_size) by (nonlinear_arith)
            requires
                next == offset + page_size,
        ;
        assert(list_round(CrawlPhase::AwaitPage { offset }, page_size, true) == (CrawlPhase::AwaitPage {
            offset: next,
        }));
        lemma_crawl_ends_at_first_empty_page(next, requests + 1, page_size, (n - 1) as nat, rest);
    }
}

/// Every item of `rs` is a record.
pub open spec fn all_records(rs: Seq<Result<BipData, ParsingError>>) -> bool {
    forall|i: int| 0 <= i < rs.len() ==> #[trigger] rs[i] is Ok
}

proof fn lemma_all_records(rs: Seq<Result<BipData, ParsingError>>)
    requires
        all_records(rs),
    ensures
        successes(rs) == rs.map_values(|r: Result<BipData, ParsingError>| r->Ok_0),
        successes(rs).len() == rs.len(),
    decreases rs.len(),
{
    if rs.len() > 0 {
        let t = rs.drop_first();
        assert(rs[0] is Ok);
        assert forall|i: int| 0 <= i < t.len() implies #[trigger] t[i] is Ok by {
            assert(t[i] == rs[i + 1]);
        }
        lemma_all_records(t);
        assert(successes(rs) =~= rs.map_values(|r: Result<BipData, ParsingError>| r->Ok_0));
    }
}

/// A detail page that fails does not keep the others from the pipeline: when
/// exactly the page at `j` fails, the records emitted are those of the other
/// pages, in dispatch order.
pub proof fn lemma_one_failure_spares_the_rest(rs: Seq<Result<BipData, ParsingError>>, j: int)
    requires
        0 <= j < rs.len(),
        rs[j] is Err,
        forall|i: int| 0 <= i < rs.len() && i != j ==> #[trigger] rs[i] is Ok,
    ensures
        successes(rs) == rs.remove(j).map_values(|r: Result<BipData, ParsingError>| r->Ok_0),
        successes(rs).len() == rs.len() - 1,
{
    let a = rs.take(j);
    let b = rs.skip(j + 1);
    let one = seq![rs[j]];
    assert(rs =~= a + one + b);
    assert(rs.remove(j) =~= a + b);
    assert forall|i: int| 0 <= i < a.len() implies #[trigger] a[i] is Ok by {
        assert(a[i] == rs[i]);
    }
    assert forall|i: int| 0 <= i < b.len() implies #[trigger] b[i] is Ok by {
        assert(b[i] == rs[i + j + 1]);
    }
    lemma_all_records(a);
    lemma_all_records(b);
    lemma_all_records(a + b);
    lemma_split_append(a + one, b);
    lemma_split_append(a, one);
    lemma_split_append(a, b);
    assert(one.drop_first() =~= Seq::<Result<BipData, ParsingError>>::empty());
    assert(one[0] is Err);
    assert(successes(one.drop_first()) == Seq::<BipData>::empty());
    assert(successes(one) == Seq::<BipData>::empty());
    assert(successes(a) + Seq::<BipData>::empty() =~= successes(a));
}

} // verus!
