use ifunny_scraper::collector::{
    ajax_header, list_mode_cookie, Collector, PageElement, ScrapeError,
};
use ifunny_scraper::media::IFunnyLink;

fn vid(url: &str) -> PageElement {
    PageElement {
        next_cursor: None,
        video_source: Some(url.to_string()),
        image_source: None,
    }
}

fn img(url: &str) -> PageElement {
    PageElement {
        next_cursor: None,
        video_source: None,
        image_source: Some(url.to_string()),
    }
}

fn urls(links: &[IFunnyLink]) -> Vec<String> {
    links.iter().map(|l| l.url().to_string()).collect()
}

fn svec(v: &[&str]) -> Vec<String> {
    v.iter().map(|s| s.to_string()).collect()
}

#[test]
fn collects_in_order_without_repeats() {
    let mut c = Collector::new(3);
    c.process_page(&vec![vid("a"), img("b")]);
    c.process_page(&vec![img("c")]);
    assert!(c.wants_page());
    let links = c.into_links();
    assert_eq!(urls(&links), svec(&["a", "b", "c"]));
    assert!(matches!(links[0], IFunnyLink::Moving(_)));
    assert!(matches!(links[1], IFunnyLink::Still(_)));
    assert!(matches!(links[2], IFunnyLink::Still(_)));
}

#[test]
fn page_budget_ends_the_run() {
    let mut c = Collector::new(2);
    assert!(c.wants_page());
    c.process_page(&vec![vid("a")]);
    assert!(c.wants_page());
    c.process_page(&vec![vid("b")]);
    assert!(!c.wants_page());
    assert_eq!(urls(c.links()), svec(&["a", "b"]));
}

#[test]
fn zero_page_budget_collects_nothing() {
    let c = Collector::new(0);
    assert!(!c.wants_page());
    assert_eq!(c.into_links().len(), 0);
}

#[test]
fn first_duplicate_is_dropped_but_run_goes_on() {
    let mut c = Collector::new(2);
    c.process_page(&vec![vid("A"), vid("B"), vid("C")]);
    c.process_page(&vec![vid("D"), vid("A")]);
    assert_eq!(urls(c.links()), svec(&["A", "B", "C", "D"]));
    assert!(!c.wants_page());
}

#[test]
fn stops_on_second_duplicate_hit() {
    let mut c = Collector::new(9);
    c.process_page(&vec![vid("A"), vid("B")]);
    c.process_page(&vec![vid("A"), vid("C"), vid("B"), vid("D")]);
    assert!(!c.wants_page());
    assert_eq!(urls(c.links()), svec(&["A", "B", "C"]));
}

#[test]
fn stops_within_one_page_on_triple_repeat() {
    let mut c = Collector::new(9);
    c.process_page(&vec![vid("A"), vid("A"), vid("A"), vid("Z")]);
    assert!(!c.wants_page());
    assert_eq!(urls(c.links()), svec(&["A"]));
}

#[test]
fn empty_body_is_rate_limited() {
    let mut c = Collector::new(5);
    let r = c.accept_body("");
    assert!(matches!(r, Err(ScrapeError::RateLimited)));
    assert!(!c.wants_page());
    assert_eq!(ScrapeError::RateLimited.describe(), "RateLimited");
}

#[test]
fn nonempty_body_is_accepted() {
    let mut c = Collector::new(5);
    assert!(c.accept_body("<html><body></body></html>").is_ok());
    assert!(c.wants_page());
}

#[test]
fn fixed_request_headers() {
    assert_eq!(ajax_header(), ("X-Requested-With", "XMLHttpRequest"));
    assert_eq!(list_mode_cookie(), ("Cookie", "mode=list;"));
}

#[test]
fn default_cursor_is_now_in_seconds() {
    let c = Collector::new(5);
    let u = c.request_url("bob", 1234);
    assert_eq!(u, "https://ifunny.co/user/bob/timeline/1234?page=0&mode=list");
}

#[test]
fn cursor_from_page_overrides_default_now() {
    let mut c = Collector::new(5);
    c.process_page(&vec![PageElement {
        next_cursor: Some("1000".to_string()),
        video_source: Some("v1".to_string()),
        image_source: None,
    }]);
    let u = c.request_url("bob", 5555);
    assert_eq!(u, "https://ifunny.co/user/bob/timeline/1000?page=1&mode=list");
}

#[test]
fn last_cursor_of_a_page_wins() {
    let mut c = Collector::new(5);
    c.process_page(&vec![
        PageElement {
            next_cursor: Some("111".to_string()),
            video_source: None,
            image_source: None,
        },
        PageElement {
            next_cursor: Some("222".to_string()),
            video_source: None,
            image_source: None,
        },
    ]);
    let u = c.request_url("eve", 9);
    assert_eq!(u, "https://ifunny.co/user/eve/timeline/222?page=1&mode=list");
}

#[test]
fn video_source_takes_precedence_over_image_source() {
    let mut c = Collector::new(1);
    c.process_page(&vec![PageElement {
        next_cursor: None,
        video_source: Some("v".to_string()),
        image_source: Some("i".to_string()),
    }]);
    let links = c.into_links();
    assert_eq!(links.len(), 1);
    assert!(matches!(&links[0], IFunnyLink::Moving(u) if u == "v"));
}

#[test]
fn element_without_media_yields_nothing() {
    let mut c = Collector::new(1);
    c.process_page(&vec![PageElement {
        next_cursor: Some("7".to_string()),
        video_source: None,
        image_source: None,
    }]);
    assert_eq!(c.into_links().len(), 0);
}
