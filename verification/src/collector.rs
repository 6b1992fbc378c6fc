//! The link collector: the stateful heart of the scrape. It decides, page
//! by page and element by element, which media references are kept, when
//! the next-page cursor changes, and when collection must stop — either
//! because the duplicate counter reached its threshold, because the page
//! budget is spent, or because an empty response body signalled
//! rate limiting.
//!
//! Fetching pages and parsing HTML happen outside; this module is handed,
//! for each page, the plain attribute values read out of the page's
//! top-level elements, and owns every decision taken on them.
use vstd::prelude::*;

verus! {

use vstd::string::*;
use crate::media::{IFunnyLink, LinkModel, link_url};
use crate::numeral::{dec_str, u64_to_dec_string};

/// The one domain error: a timeline page came back with an empty body,
/// the server's way of signalling rate limiting.
#[derive(Debug, Clone, Copy, PartialEq, Eq, Structural)]
pub enum ScrapeError {
    RateLimited,
}

impl ScrapeError {
    /// A short description of the error, for reporting at the process edge.
    pub fn describe(&self) -> (r: &'static str)
        ensures
            r@ == "RateLimited"@,
    {
        "RateLimited"
    }
}

/// Where a collection run stands.
#[derive(Debug, Clone, Copy, PartialEq, Eq, Structural)]
pub enum Phase {
    /// Still collecting.
    Running,
    /// The duplicate counter reached its threshold; the run ended early,
    /// successfully, with the references gathered so far.
    StoppedEarly,
    /// An empty page body was seen; the run failed.
    RateLimited,
}

/// What one direct child element of a page's body yields once the markup
/// has been read: the next-cursor attribute (already checked to be a
/// well-formed timestamp by the caller), and the video and image source
/// attributes of the nested media markers, where present.
#[derive(Debug, Clone, PartialEq, Eq)]
pub struct PageElement {
    pub next_cursor: Option<String>,
    pub video_source: Option<String>,
    pub image_source: Option<String>,
}

/// Specification-level value of a `PageElement`.
#[verifier::ext_equal]
pub ghost struct ElementModel {
    pub next_cursor: Option<Seq<char>>,
    pub video_source: Option<Seq<char>>,
    pub image_source: Option<Seq<char>>,
}

impl View for PageElement {
    type V = ElementModel;

    open spec fn view(&self) -> ElementModel {
        ElementModel {
            next_cursor: match self.next_cursor {
                Some(c) => Some(c@),
                None => None,
            },
            video_source: match self.video_source {
                Some(c) => Some(c@),
                None => None,
            },
            image_source: match self.image_source {
                Some(c) => Some(c@),
                None => None,
            },
        }
    }
}

impl DeepView for PageElement {
    type V = ElementModel;

    open spec fn deep_view(&self) -> ElementModel {
        self.view()
    }
}

/// Specification-level state of a collection run.
#[verifier::ext_equal]
pub ghost struct CollectorModel {
    /// References kept so far, in discovery order.
    pub links: Seq<LinkModel>,
    /// How many times an extracted URL was already known (never reset).
    pub hits: nat,
    /// The next-page cursor, once any page has yielded one.
    pub cursor: Option<Seq<char>>,
    /// Pages fully processed so far.
    pub pages_done: nat,
    /// The page budget of the run.
    pub max_pages: nat,
    pub phase: Phase,
}

/// The state a run starts in.
pub open spec fn initial_model(max_pages: nat) -> CollectorModel {
    CollectorModel {
        links: Seq::empty(),
        hits: 0,
        cursor: None,
        pages_done: 0,
        max_pages: max_pages,
        phase: Phase::Running,
    }
}

/// The media reference one element yields: a video when it carries a
/// video source, otherwise a still when it carries an image source,
/// otherwise none.
pub open spec fn media_of(e: ElementModel) -> Option<LinkModel> {
    if e.video_source is Some {
        Some(LinkModel::Moving(e.video_source.unwrap()))
    } else if e.image_source is Some {
        Some(LinkModel::Still(e.image_source.unwrap()))
    } else {
        None
    }
}

/// Whether some kept reference already carries this URL.
pub open spec fn has_url(ls: Seq<LinkModel>, u: Seq<char>) -> bool {
    exists|k: int| 0 <= k < ls.len() && link_url(#[trigger] ls[k]) == u
}

/// One element's effect on the run: the cursor is taken if offered
/// (last value wins across a page), then the element's media reference,
/// if any, is deduplicated by URL — a fresh URL is kept, a known one
/// raises the duplicate counter, and the second such hit stops the run.
pub open spec fn step_element(s: CollectorModel, e: ElementModel) -> CollectorModel {
    if !(s.phase is Running) {
        s
    } else {
        let s1 = if e.next_cursor is Some {
            CollectorModel { cursor: e.next_cursor, ..s }
        } else {
            s
        };
        match media_of(e) {
            None => s1,
            Some(l) => {
                if has_url(s1.links, link_url(l)) {
                    if s1.hits + 1 >= 2 {
                        CollectorModel {
                            hits: (s1.hits + 1) as nat,
                            phase: Phase::StoppedEarly,
                            ..s1
                        }
                    } else {
                        CollectorModel { hits: (s1.hits + 1) as nat, ..s1 }
                    }
                } else {
                    CollectorModel { links: s1.links.push(l), ..s1 }
                }
            },
        }
    }
}

/// The elements of one page, in document order.
pub open spec fn step_elements(s: CollectorModel, es: Seq<ElementModel>) -> CollectorModel
    decreases es.len(),
{
    if es.len() == 0 {
        s
    } else {
        step_elements(step_element(s, es[0]), es.drop_first())
    }
}

/// One whole page: its elements in order, then — if the run still goes
/// on — the page is counted.
pub open spec fn step_page(s: CollectorModel, es: Seq<ElementModel>) -> CollectorModel {
    if !(s.phase is Running) {
        s
    } else {
        let s1 = step_elements(s, es);
        if s1.phase is Running {
            CollectorModel { pages_done: (s1.pages_done + 1) as nat, ..s1 }
        } else {
            s1
        }
    }
}

/// A sequence of pages, processed in order.
pub open spec fn run_pages(s: CollectorModel, pages: Seq<Seq<ElementModel>>) -> CollectorModel
    decreases pages.len(),
{
    if pages.len() == 0 {
        s
    } else {
        run_pages(step_page(s, pages[0]), pages.drop_first())
    }
}

/// Whether the run asks for another page: it is still running and the
/// page budget is not spent.
pub open spec fn wants_page_model(s: CollectorModel) -> bool {
    s.phase is Running && s.pages_done < s.max_pages
}

/// The duplicate counter stays at or below one while the run goes on,
/// and stands exactly at two when it stopped the run.
pub open spec fn counter_inv(s: CollectorModel) -> bool {
    &&& (s.phase is Running ==> s.hits <= 1)
    &&& (s.phase is StoppedEarly ==> s.hits == 2)
}

/// One element's step preserves the counter bounds and touches neither
/// the page count nor the page budget.
pub proof fn lemma_step_element_frame(s: CollectorModel, e: ElementModel)
    ensures
        counter_inv(s) ==> counter_inv(step_element(s, e)),
        step_element(s, e).pages_done == s.pages_done,
        step_element(s, e).max_pages == s.max_pages,
{
}

/// A page's elements preserve the counter bounds and touch neither the
/// page count nor the page budget.
pub proof fn lemma_step_elements_frame(s: CollectorModel, es: Seq<ElementModel>)
    ensures
        counter_inv(s) ==> counter_inv(step_elements(s, es)),
        step_elements(s, es).pages_done == s.pages_done,
        step_elements(s, es).max_pages == s.max_pages,
    decreases es.len(),
{
    if es.len() > 0 {
        lemma_step_element_frame(s, es[0]);
        lemma_step_elements_frame(step_element(s, es[0]), es.drop_first());
    }
}

/// Processing distributes over splitting a page's elements in two.
pub proof fn lemma_step_elements_concat(s: CollectorModel, a: Seq<ElementModel>, b: Seq<
    ElementModel,
>)
    ensures
        step_elements(s, a + b) == step_elements(step_elements(s, a), b),
    decreases a.len(),
{
    if a.len() == 0 {
        assert(a + b =~= b);
    } else {
        assert((a + b).drop_first() =~= a.drop_first() + b);
        assert((a + b)[0] == a[0]);
        lemma_step_elements_concat(step_element(s, a[0]), a.drop_first(), b);
    }
}

/// Appending one element to a page processes it last.
pub proof fn lemma_step_elements_snoc(s: CollectorModel, es: Seq<ElementModel>, e: ElementModel)
    ensures
        step_elements(s, es.push(e)) == step_element(step_elements(s, es), e),
{
    lemma_step_elements_concat(s, es, seq![e]);
    assert(es + seq![e] =~= es.push(e));
    assert((seq![e])[0] == e);
    assert((seq![e]).drop_first() =~= Seq::<ElementModel>::empty());
    assert(step_elements(step_element(step_elements(s, es), e), (seq![e]).drop_first())
        == step_element(step_elements(s, es), e));
    assert(step_elements(step_elements(s, es), seq![e]) == step_element(
        step_elements(s, es),
        e,
    ));
}

/// A run that is no longer running ignores further elements.
pub proof fn lemma_step_elements_stopped(s: CollectorModel, es: Seq<ElementModel>)
    requires
        !(s.phase is Running),
    ensures
        step_elements(s, es) == s,
    decreases es.len(),
{
    if es.len() > 0 {
        lemma_step_elements_stopped(s, es.drop_first());
    }
}

fn contains_url(links: &Vec<IFunnyLink>, url: &String) -> (r: bool)
    ensures
        r == has_url(links.deep_view(), url@),
{
    let n = links.len();
    let mut k: usize = 0;
    while k < n
        invariant
            k <= n,
            n == links.len(),
            forall|t: int| 0 <= t < k ==> link_url(#[trigger] links.deep_view()[t]) != url@,
        decreases n - k,
    {
        let lu: &String = match &links[k] {
            IFunnyLink::Moving(u) => u,
            IFunnyLink::Still(u) => u,
        };
        if *lu == *url {
            proof {
                assert(link_url(links.deep_view()[k as int]) == url@);
            }
            return true;
        }
        k += 1;
    }
    false
}

/// The collector: drives deduplication, the duplicate-hit counter, the
/// next-page cursor and the stopping decisions of one collection run.
pub struct Collector {
    links: Vec<IFunnyLink>,
    hits: u64,
    cursor: Option<String>,
    pages_done: usize,
    max_pages: usize,
    phase: Phase,
}

impl View for Collector {
    type V = CollectorModel;

    closed spec fn view(&self) -> CollectorModel {
        CollectorModel {
            links: self.links.deep_view(),
            hits: self.hits as nat,
            cursor: match self.cursor {
                Some(c) => Some(c@),
                None => None,
            },
            pages_done: self.pages_done as nat,
            max_pages: self.max_pages as nat,
            phase: self.phase,
        }
    }
}

/// The fixed URL template of a timeline page request: the username, then
/// the cursor (the timestamp of the run's cursor when one was seen, else
/// the caller's "now" in seconds), then the zero-based page index.
pub open spec fn request_url_model(
    user: Seq<char>,
    cursor: Option<Seq<char>>,
    now: u64,
    page: nat,
) -> Seq<char> {
    "https://ifunny.co/user/"@ + user + "/timeline/"@ + (match cursor {
        Some(c) => c,
        None => dec_str(now as nat),
    }) + "?page="@ + dec_str(page) + "&mode=list"@
}

/// The fixed header of every page request that marks it as an
/// AJAX-style request: name and value.
pub fn ajax_header() -> (r: (&'static str, &'static str))
    ensures
        r.0@ == "X-Requested-With"@,
        r.1@ == "XMLHttpRequest"@,
{
    ("X-Requested-With", "XMLHttpRequest")
}

/// The fixed cookie header of every page request that forces the "list"
/// display mode: name and value.
pub fn list_mode_cookie() -> (r: (&'static str, &'static str))
    ensures
        r.0@ == "Cookie"@,
        r.1@ == "mode=list;"@,
{
    ("Cookie", "mode=list;")
}

impl Collector {
    /// A fresh run: nothing collected, no duplicate hits, no cursor, the
    /// given page budget.
    pub fn new(max_pages: usize) -> (r: Collector)
        ensures
            r@ == initial_model(max_pages as nat),
            counter_inv(r@),
    {
        let r = Collector {
            links: Vec::new(),
            hits: 0,
            cursor: None,
            pages_done: 0,
            max_pages: max_pages,
            phase: Phase::Running,
        };
        proof {
            assert(r@ =~= initial_model(max_pages as nat));
        }
        r
    }

    /// Whether another page should be requested.
    pub fn wants_page(&self) -> (r: bool)
        ensures
            r == wants_page_model(self@),
    {
        self.phase == Phase::Running && self.pages_done < self.max_pages
    }

    /// The zero-based index of the page the next request would ask for.
    pub fn current_page(&self) -> (r: usize)
        ensures
            r == self@.pages_done,
    {
        self.pages_done
    }

    /// The references kept so far, in discovery order.
    pub fn links(&self) -> (r: &Vec<IFunnyLink>)
        ensures
            r.deep_view() == self@.links,
    {
        &self.links
    }

    /// The run's result: the references, in discovery order.
    pub fn into_links(self) -> (r: Vec<IFunnyLink>)
        ensures
            r.deep_view() == self@.links,
    {
        self.links
    }

    /// The exact URL of the next page request.
    pub fn request_url(&self, username: &str, now_secs: u64) -> (r: String)
        ensures
            r@ == request_url_model(username@, self@.cursor, now_secs, self@.pages_done),
    {
        let mut out = String::new();
        out.append("https://ifunny.co/user/");
        out.append(username);
        out.append("/timeline/");
        match &self.cursor {
            Some(c) => out.append(c.as_str()),
            None => {
                let d = u64_to_dec_string(now_secs);
                out.append(d.as_str());
            },
        }
        out.append("?page=");
        let p = u64_to_dec_string(self.pages_done as u64);
        out.append(p.as_str());
        out.append("&mode=list");
        proof {
            assert(out@ =~= request_url_model(
                username@,
                self@.cursor,
                now_secs,
                self@.pages_done,
            ));
        }
        out
    }

    /// Judges a page's response body: an empty body is the rate-limit
    /// signal and fails the run at once; any other body is accepted and
    /// leaves the run as it was.
    pub fn accept_body(&mut self, body: &str) -> (r: Result<(), ScrapeError>)
        requires
            old(self)@.phase is Running,
        ensures
            body@.len() == 0 ==> r == Err::<(), ScrapeError>(ScrapeError::RateLimited)
                && final(self)@ == (CollectorModel { phase: Phase::RateLimited, ..old(self)@ }),
            body@.len() > 0 ==> r == Ok::<(), ScrapeError>(()) && final(self)@ == old(self)@,
            counter_inv(old(self)@) ==> counter_inv(final(self)@),
    {
        if body.is_empty() {
            self.phase = Phase::RateLimited;
            proof {
                assert(self@ =~= (CollectorModel { phase: Phase::RateLimited, ..old(self)@ }));
            }
            Err(ScrapeError::RateLimited)
        } else {
            Ok(())
        }
    }

    /// Processes the elements of one fetched page, in document order,
    /// exactly as `step_page` says: cursor updates, deduplication, the
    /// duplicate counter with its early stop, and the page count.
    pub fn process_page(&mut self, elems: &Vec<PageElement>)
        requires
            old(self)@.phase is Running,
            old(self)@.pages_done < old(self)@.max_pages,
            counter_inv(old(self)@),
        ensures
            final(self)@ == step_page(old(self)@, elems.deep_view()),
            counter_inv(final(self)@),
    {
        let ghost pre = self@;
        let ghost es = elems.deep_view();
        let n = elems.len();
        let mut i: usize = 0;
        while i < n && self.phase == Phase::Running
            invariant
                i <= n,
                n == elems.len(),
                es == elems.deep_view(),
                self@ == step_elements(pre, es.take(i as int)),
                counter_inv(self@),
            decreases n - i,
        {
            let ghost cur = self@;
            let e = &elems[i];
            proof {
                assert(es[i as int] == e@);
            }
            if let Some(c) = &e.next_cursor {
                self.cursor = Some(c.clone());
            }
            let media_src: Option<(bool, String)> = if let Some(v) = &e.video_source {
                Some((true, v.clone()))
            } else if let Some(im) = &e.image_source {
                Some((false, im.clone()))
            } else {
                None
            };
            match media_src {
                Some((is_video, src)) => {
                    if contains_url(&self.links, &src) {
                        self.hits = self.hits + 1;
                        if self.hits >= 2 {
                            self.phase = Phase::StoppedEarly;
                        }
                    } else {
                        let link = if is_video {
                            IFunnyLink::Moving(src)
                        } else {
                            IFunnyLink::Still(src)
                        };
                        self.links.push(link);
                    }
                },
                None => {},
            }
            proof {
                assert(self@ =~= step_element(cur, es[i as int]));
                assert(es.take(i + 1) =~= es.take(i as int).push(es[i as int]));
                lemma_step_elements_snoc(pre, es.take(i as int), es[i as int]);
                lemma_step_element_frame(cur, es[i as int]);
            }
            i += 1;
        }
        proof {
            assert(es.take(i as int) + es.skip(i as int) =~= es);
            lemma_step_elements_concat(pre, es.take(i as int), es.skip(i as int));
            if !(self.phase == Phase::Running) {
                lemma_step_elements_stopped(self@, es.skip(i as int));
            } else {
                assert(es.take(i as int) =~= es);
            }
            assert(self@ == step_elements(pre, es));
            lemma_step_elements_frame(pre, es);
        }
        if self.phase == Phase::Running {
            self.pages_done = self.pages_done + 1;
            proof {
                assert(self@ =~= step_page(pre, es));
            }
        } else {
            proof {
                assert(self@ =~= step_page(pre, es));
            }
        }
    }
}

} // verus!
