use eris::title::{clean_window_title_string, sanitize, tokenize};

#[test]
fn sanitize_maps_dash_lookalikes() {
    let r = sanitize(Some("A \u{2013} B \u{2014} C | D".to_string())).unwrap();
    assert_eq!(r, "A - B - C - D");
}

#[test]
fn sanitize_strips_epub_fragment() {
    let r = sanitize(Some("My Novel.epub - Reader".to_string())).unwrap();
    assert_eq!(r, "My Novel - Reader");
}

#[test]
fn sanitize_none_passes_through() {
    assert!(sanitize(None).is_none());
}

#[test]
fn sanitize_is_idempotent_on_samples() {
    let samples = [
        "A \u{2013} B | C.epub",
        "",
        "plain title",
        ".e.epubpub",
        ".ep.epubub.epub",
        "| \u{2014} |",
    ];
    for s in samples {
        let once = sanitize(Some(s.to_string())).unwrap();
        let twice = sanitize(Some(once.clone())).unwrap();
        assert_eq!(once, twice);
    }
}

#[test]
fn sanitize_removes_reassembled_fragments() {
    // Removing ".epub" from ".e.epubpub" re-assembles a second ".epub";
    // sanitizing scrubs until none is left.
    let r = sanitize(Some(".e.epubpub".to_string())).unwrap();
    assert_eq!(r, "");
}

#[test]
fn clean_window_title_keeps_other_characters() {
    let r = clean_window_title_string(Some("abc|def".to_string())).unwrap();
    assert_eq!(r, "abc-def");
    assert!(clean_window_title_string(None).is_none());
}

#[test]
fn tokenize_splits_and_trims() {
    let ts = tokenize("My Cool Novel - Chapter 12 - Royal Road - Mozilla Firefox").unwrap();
    assert_eq!(
        ts,
        vec!["My Cool Novel", "Chapter 12", "Royal Road", "Mozilla Firefox"]
    );
}

#[test]
fn tokenize_without_delimiter_is_none() {
    assert!(tokenize("A bare desktop title").is_none());
    assert!(tokenize("").is_none());
}

#[test]
fn tokenize_empty_input_does_not_panic() {
    // The delimiter itself yields two empty trimmed segments.
    let ts = tokenize(" -").unwrap();
    assert_eq!(ts, vec!["", ""]);
}

#[test]
fn tokenize_preserves_order() {
    let ts = tokenize("first -second -third").unwrap();
    assert_eq!(ts, vec!["first", "second", "third"]);
}
