use ifunny_scraper::manifest::manifest_contents;
use ifunny_scraper::media::IFunnyLink;

#[test]
fn manifest_joins_urls_in_collection_order() {
    let links = vec![
        IFunnyLink::Moving("https://x.co/a.mp4".to_string()),
        IFunnyLink::Still("https://x.co/b.jpg".to_string()),
        IFunnyLink::Moving("https://x.co/c.mp4".to_string()),
    ];
    assert_eq!(
        manifest_contents(&links),
        "https://x.co/a.mp4\nhttps://x.co/b.jpg\nhttps://x.co/c.mp4"
    );
}

#[test]
fn manifest_of_nothing_is_empty() {
    let links: Vec<IFunnyLink> = Vec::new();
    assert_eq!(manifest_contents(&links), "");
}

#[test]
fn manifest_of_one_reference_has_no_newline() {
    let links = vec![IFunnyLink::Still("solo".to_string())];
    assert_eq!(manifest_contents(&links), "solo");
}
