use ifunny_scraper::media::{unix_secs, IFunnyLink};
use ifunny_scraper::numeral::u64_to_dec_string;

#[test]
fn suggested_file_name_is_last_segment() {
    let l = IFunnyLink::Still("https://x.co/a/b/file123.jpg".to_string());
    assert_eq!(l.file_name(), "file123.jpg");
}

#[test]
fn suggested_file_name_without_slash_is_numeric() {
    let l = IFunnyLink::Moving("noslashatall".to_string());
    let n = l.file_name();
    assert!(!n.is_empty());
    assert!(n.chars().all(|ch| ch.is_ascii_digit()));
}

#[test]
fn url_is_read_back_for_both_kinds() {
    let m = IFunnyLink::Moving("https://x.co/v.mp4".to_string());
    let s = IFunnyLink::Still("https://x.co/i.jpg".to_string());
    assert_eq!(m.url(), "https://x.co/v.mp4");
    assert_eq!(s.url(), "https://x.co/i.jpg");
}

#[test]
fn unix_secs_is_after_the_epoch() {
    assert!(unix_secs() > 0);
}

#[test]
fn decimal_rendering_is_exact() {
    assert_eq!(u64_to_dec_string(0), "0");
    assert_eq!(u64_to_dec_string(7), "7");
    assert_eq!(u64_to_dec_string(1234567890), "1234567890");
    assert_eq!(u64_to_dec_string(u64::MAX), "18446744073709551615");
}
