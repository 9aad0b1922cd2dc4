use parquet_ingest::listing::{is_data_file, select_keys, Lister, ListingPage, ListingStep};
use parquet_ingest::text::ends_with;

fn page(keys: &[Option<&str>], is_truncated: bool, next: Option<&str>) -> ListingPage {
    ListingPage {
        contents: Some(keys.iter().map(|k| k.map(|s| s.to_string())).collect()),
        is_truncated,
        next_token: next.map(|s| s.to_string()),
    }
}

#[test]
fn ends_with_agrees_with_the_standard_library() {
    let cases = [
        ("a.parquet", ".parquet"),
        ("a.parquet", ".parquet.zst"),
        ("", ""),
        ("abc", ""),
        ("", "a"),
        ("abc", "abc"),
        ("abc", "xabc"),
        ("pärquet.parquet", ".parquet"),
        ("x.parqueT", ".parquet"),
    ];
    for (s, suffix) in cases {
        assert_eq!(ends_with(s, suffix), s.ends_with(suffix));
    }
}

#[test]
fn recognised_suffixes_are_selected() {
    assert!(is_data_file("game-data/2023-01.parquet"));
    assert!(is_data_file("game-data/2023-01.parquet.zst"));
    assert!(is_data_file(".parquet"));
}

#[test]
fn other_keys_are_excluded() {
    assert!(!is_data_file("game-data/2023-01.csv"));
    assert!(!is_data_file("game-data/2023-01.parquet.gz"));
    assert!(!is_data_file("game-data/2023-01.parquet/"));
    assert!(!is_data_file("game-data/2023-01.PARQUET"));
    assert!(!is_data_file("game-data/2023-01.zst"));
    assert!(!is_data_file("parquet"));
    assert!(!is_data_file(""));
}

#[test]
fn select_keys_appends_in_order() {
    let mut keys = vec!["first.parquet".to_string()];
    let objects = vec![
        Some("a.parquet".to_string()),
        None,
        Some("b.txt".to_string()),
        Some("c.parquet.zst".to_string()),
    ];
    select_keys(&mut keys, &objects);
    assert_eq!(keys, vec!["first.parquet", "a.parquet", "c.parquet.zst"]);
}

#[test]
fn lister_asks_for_the_first_page_without_a_cursor() {
    let lister = Lister::new();
    assert!(matches!(lister.next_step(), ListingStep::RequestPage(None)));
    assert!(lister.keys().is_empty());
}

#[test]
fn lister_follows_the_cursor_until_the_last_page() {
    let mut lister = Lister::new();
    lister.on_page(&page(&[Some("a.parquet"), Some("readme.md")], true, Some("t1")));
    match lister.next_step() {
        ListingStep::RequestPage(cursor) => assert_eq!(cursor, Some("t1".to_string())),
        ListingStep::Done => panic!("the listing ended early"),
    }
    lister.on_page(&page(&[None, Some("b.parquet.zst")], true, Some("t2")));
    match lister.next_step() {
        ListingStep::RequestPage(cursor) => assert_eq!(cursor, Some("t2".to_string())),
        ListingStep::Done => panic!("the listing ended early"),
    }
    lister.on_page(&page(&[Some("c.parquet")], false, None));
    assert!(matches!(lister.next_step(), ListingStep::Done));
    assert_eq!(lister.into_keys(), vec!["a.parquet", "b.parquet.zst", "c.parquet"]);
}

#[test]
fn a_page_without_contents_adds_nothing() {
    let mut lister = Lister::new();
    lister.on_page(&ListingPage { contents: None, is_truncated: false, next_token: None });
    assert!(matches!(lister.next_step(), ListingStep::Done));
    assert!(lister.into_keys().is_empty());
}

#[test]
fn pagination_is_transparent() {
    let objects = [
        Some("a.parquet"),
        Some("b.csv"),
        None,
        Some("c.parquet.zst"),
        Some("d.parquet"),
        Some("e.parquet.bak"),
    ];
    let mut whole = Lister::new();
    whole.on_page(&page(&objects, false, None));
    let expected = whole.into_keys();
    assert_eq!(expected, vec!["a.parquet", "c.parquet.zst", "d.parquet"]);
    for cut in 0..=objects.len() {
        let mut lister = Lister::new();
        lister.on_page(&page(&objects[..cut], true, Some("next")));
        lister.on_page(&page(&objects[cut..], false, None));
        assert_eq!(lister.into_keys(), expected);
    }
}
