//! Laws of the collection run, stated and proved over the collector's
//! model: what a run without repeated URLs collects, what a duplicate
//! hit does, and what the rate-limit signal ends.
use vstd::prelude::*;

verus! {

use crate::media::{LinkModel, link_url};
use crate::collector::{
    CollectorModel, ElementModel, has_url, initial_model, lemma_step_elements_frame, media_of,
    run_pages, step_element, step_elements, step_page, wants_page_model,
};

/// URLs pairwise distinct across a list of references.
pub open spec fn no_repeated_urls(ls: Seq<LinkModel>) -> bool {
    forall|i: int, j: int|
        0 <= i < j < ls.len() ==> link_url(#[trigger] ls[i]) != link_url(#[trigger] ls[j])
}

/// The references a page's elements yield, in document order.
pub open spec fn extracted(es: Seq<ElementModel>) -> Seq<LinkModel>
    decreases es.len(),
{
    if es.len() == 0 {
        Seq::empty()
    } else {
        match media_of(es[0]) {
            Some(l) => seq![l] + extracted(es.drop_first()),
            None => extracted(es.drop_first()),
        }
    }
}

/// The references a run of pages yields, concatenated in page order.
pub open spec fn extracted_pages(pages: Seq<Seq<ElementModel>>) -> Seq<LinkModel>
    decreases pages.len(),
{
    if pages.len() == 0 {
        Seq::empty()
    } else {
        extracted(pages[0]) + extracted_pages(pages.drop_first())
    }
}

/// Distinctness of a prefix follows from distinctness of the whole.
proof fn lemma_no_repeats_prefix(full: Seq<LinkModel>, n: int)
    requires
        no_repeated_urls(full),
        0 <= n <= full.len(),
    ensures
        no_repeated_urls(full.take(n)),
{
    assert forall|i: int, j: int| 0 <= i < j < n implies link_url(#[trigger] full.take(n)[i])
        != link_url(#[trigger] full.take(n)[j]) by {
        assert(full.take(n)[i] == full[i]);
        assert(full.take(n)[j] == full[j]);
    }
}

/// Over elements none of whose extracted URLs repeats — among themselves
/// or against what is already kept — every extracted reference is kept,
/// in order, and neither the counter nor the phase moves.
proof fn lemma_elements_no_dups(s: CollectorModel, es: Seq<ElementModel>)
    requires
        s.phase is Running,
        no_repeated_urls(s.links + extracted(es)),
    ensures
        step_elements(s, es).links =~= s.links + extracted(es),
        step_elements(s, es).hits == s.hits,
        step_elements(s, es).phase is Running,
    decreases es.len(),
{
    if es.len() == 0 {
        assert(s.links + extracted(es) =~= s.links);
    } else {
        let e = es[0];
        let s1 = step_element(s, e);
        match media_of(e) {
            None => {
                assert(s1.links + extracted(es.drop_first()) =~= s.links + extracted(es));
                lemma_elements_no_dups(s1, es.drop_first());
            },
            Some(l) => {
                let comb = s.links + extracted(es);
                assert(extracted(es)[0] == l);
                assert(!has_url(s.links, link_url(l))) by {
                    if has_url(s.links, link_url(l)) {
                        let k = choose|k: int|
                            0 <= k < s.links.len() && link_url(#[trigger] s.links[k]) == link_url(
                                l,
                            );
                        assert(comb[k] == s.links[k]);
                        assert(comb[s.links.len() as int] == l);
                    }
                };
                assert(s1.links =~= s.links.push(l));
                assert(s1.links + extracted(es.drop_first()) =~= s.links + extracted(es));
                lemma_elements_no_dups(s1, es.drop_first());
            },
        }
    }
}

/// The same, page by page: each page is counted and the run goes on.
proof fn lemma_run_no_dups(s: CollectorModel, pages: Seq<Seq<ElementModel>>)
    requires
        s.phase is Running,
        no_repeated_urls(s.links + extracted_pages(pages)),
    ensures
        run_pages(s, pages).links =~= s.links + extracted_pages(pages),
        run_pages(s, pages).phase is Running,
        run_pages(s, pages).pages_done == s.pages_done + pages.len(),
        run_pages(s, pages).hits == s.hits,
    decreases pages.len(),
{
    if pages.len() == 0 {
        assert(s.links + extracted_pages(pages) =~= s.links);
    } else {
        let es = pages[0];
        let full = s.links + extracted_pages(pages);
        let pre = s.links + extracted(es);
        assert(pre =~= full.take(pre.len() as int));
        lemma_no_repeats_prefix(full, pre.len() as int);
        lemma_elements_no_dups(s, es);
        lemma_step_elements_frame(s, es);
        let s1 = step_elements(s, es);
        let s2 = step_page(s, es);
        assert(s2.links == s1.links && s2.phase == s1.phase && s2.hits == s1.hits);
        assert(s2.links + extracted_pages(pages.drop_first()) =~= full);
        lemma_run_no_dups(s2, pages.drop_first());
    }
}

/// For a run whose pages' extracted URLs contain no repeats, collection
/// keeps exactly one reference per extracted element, in document order,
/// concatenated across pages, over as many pages as the budget admits.
pub proof fn lemma_collects_all_when_no_repeats(max_pages: nat, pages: Seq<Seq<ElementModel>>)
    requires
        no_repeated_urls(extracted_pages(pages)),
    ensures
        run_pages(initial_model(max_pages), pages).links =~= extracted_pages(pages),
        run_pages(initial_model(max_pages), pages).phase is Running,
        run_pages(initial_model(max_pages), pages).hits == 0,
{
    let s = initial_model(max_pages);
    assert(s.links + extracted_pages(pages) =~= extracted_pages(pages));
    lemma_run_no_dups(s, pages);
}

/// A first duplicate hit alone does not stop the run: the repeated
/// reference is dropped, the counter moves to one, collection goes on.
pub proof fn lemma_first_duplicate_continues(s: CollectorModel, e: ElementModel)
    requires
        s.phase is Running,
        s.hits == 0,
        media_of(e) is Some,
        has_url(s.links, link_url(media_of(e).unwrap())),
    ensures
        step_element(s, e).phase is Running,
        step_element(s, e).links == s.links,
        step_element(s, e).hits == 1,
{
}

/// The second duplicate hit stops the run at once: the element that
/// raised it adds no reference, so the result is exactly the references
/// gathered strictly before it.
pub proof fn lemma_second_duplicate_stops(s: CollectorModel, e: ElementModel)
    requires
        s.phase is Running,
        s.hits == 1,
        media_of(e) is Some,
        has_url(s.links, link_url(media_of(e).unwrap())),
    ensures
        step_element(s, e).phase is StoppedEarly,
        step_element(s, e).links == s.links,
        step_element(s, e).hits == 2,
{
}

/// A run that is no longer running is final: further pages change
/// nothing, so what was gathered before the stop is the result.
pub proof fn lemma_stopped_run_final(s: CollectorModel, pages: Seq<Seq<ElementModel>>)
    requires
        !(s.phase is Running),
    ensures
        run_pages(s, pages) == s,
    decreases pages.len(),
{
    if pages.len() > 0 {
        lemma_stopped_run_final(s, pages.drop_first());
    }
}

/// One element's step keeps the kept references pairwise URL-distinct:
/// a known URL is never appended again.
proof fn lemma_element_keeps_distinct(s: CollectorModel, e: ElementModel)
    requires
        no_repeated_urls(s.links),
    ensures
        no_repeated_urls(step_element(s, e).links),
{
    let nl = step_element(s, e).links;
    if s.phase is Running && media_of(e) is Some {
        let l = media_of(e).unwrap();
        if !has_url(s.links, link_url(l)) {
            assert(nl =~= s.links.push(l));
            assert forall|i: int, j: int| 0 <= i < j < nl.len() implies link_url(
                #[trigger] nl[i],
            ) != link_url(#[trigger] nl[j]) by {
                if j == nl.len() - 1 {
                    assert(nl[i] == s.links[i]);
                    if link_url(s.links[i]) == link_url(l) {
                        assert(0 <= i < s.links.len() && link_url(s.links[i]) == link_url(l));
                        assert(has_url(s.links, link_url(l)));
                    }
                } else {
                    assert(nl[i] == s.links[i]);
                    assert(nl[j] == s.links[j]);
                }
            }
        }
    }
}

proof fn lemma_elements_keep_distinct(s: CollectorModel, es: Seq<ElementModel>)
    requires
        no_repeated_urls(s.links),
    ensures
        no_repeated_urls(step_elements(s, es).links),
    decreases es.len(),
{
    if es.len() > 0 {
        lemma_element_keeps_distinct(s, es[0]);
        lemma_elements_keep_distinct(step_element(s, es[0]), es.drop_first());
    }
}

proof fn lemma_run_keeps_distinct(s: CollectorModel, pages: Seq<Seq<ElementModel>>)
    requires
        no_repeated_urls(s.links),
    ensures
        no_repeated_urls(run_pages(s, pages).links),
    decreases pages.len(),
{
    if pages.len() > 0 {
        if s.phase is Running {
            lemma_elements_keep_distinct(s, pages[0]);
        }
        lemma_run_keeps_distinct(step_page(s, pages[0]), pages.drop_first());
    }
}

/// Whatever the pages hold, the references a run keeps are pairwise
/// URL-distinct: deduplication admits each URL at most once.
pub proof fn lemma_collected_links_distinct(max_pages: nat, pages: Seq<Seq<ElementModel>>)
    ensures
        no_repeated_urls(run_pages(initial_model(max_pages), pages).links),
{
    lemma_run_keeps_distinct(initial_model(max_pages), pages);
}

/// An element bearing a next-cursor value sets the run's cursor —
/// whatever else the element yields, even the stopping duplicate — so
/// the last cursor a page offers is what `request_url_model` encodes in
/// every later request, in place of the default "now".
pub proof fn lemma_element_sets_cursor(s: CollectorModel, e: ElementModel)
    requires
        s.phase is Running,
        e.next_cursor is Some,
    ensures
        step_element(s, e).cursor == e.next_cursor,
{
}

/// An element without a next-cursor value leaves the cursor as it was;
/// a cursor, once set, is never reset within one run.
pub proof fn lemma_element_keeps_cursor(s: CollectorModel, e: ElementModel)
    requires
        e.next_cursor is None,
    ensures
        step_element(s, e).cursor == s.cursor,
{
}

/// After the rate-limit signal the run asks for no further page.
pub proof fn lemma_rate_limited_requests_nothing(s: CollectorModel)
    requires
        s.phase is RateLimited,
    ensures
        !wants_page_model(s),
{
}

} // verus!
