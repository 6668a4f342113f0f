use eris::recognition::{
    extract_novel_data_from_title, extract_novel_name_from_title, extract_source_from_title,
    find_chapter_title, is_reading_chapter,
};

fn toks(ts: &[&str]) -> Vec<String> {
    ts.iter().map(|s| s.to_string()).collect()
}

#[test]
fn extract_never_panics_on_empty_slice() {
    let d = extract_novel_data_from_title(&Vec::new());
    assert_eq!(d.volume, 0);
    assert_eq!(d.chapter, 0);
    assert_eq!(d.side_story, 0);
    assert!(!d.reading);
}

#[test]
fn extract_never_panics_on_odd_tokens() {
    // Single characters and regex metacharacters must be handled as plain text.
    let d = extract_novel_data_from_title(&toks(&["(", ")", "[a-z]+", "\\d", ".", "*", "c", "v"]));
    assert_eq!(d.volume, 0);
    assert_eq!(d.side_story, 0);
    let _ = extract_novel_data_from_title(&toks(&[""]));
}

#[test]
fn extract_finds_chapter_number() {
    let d = extract_novel_data_from_title(&toks(&["My Novel", "Chapter 12", "Site"]));
    assert!(d.reading);
    assert_eq!(d.chapter, 1200);
}

#[test]
fn extract_fractional_chapter_skips_side_story() {
    let d = extract_novel_data_from_title(&toks(&[
        "My Novel",
        "Chapter 12.2",
        "extra story 3",
        "Site",
    ]));
    assert!(d.reading);
    assert_eq!(d.chapter, 1220);
    // A fractional chapter already encodes the part, so the side-story
    // pattern is not consulted.
    assert_eq!(d.side_story, 0);
}

#[test]
fn extract_side_story_number() {
    let d = extract_novel_data_from_title(&toks(&["My Novel", "extra story 3", "ch 7", "Site"]));
    assert!(d.reading);
    assert_eq!(d.chapter, 700);
    assert_eq!(d.side_story, 3);
}

#[test]
fn extract_volume_number() {
    let d = extract_novel_data_from_title(&toks(&["My Novel", "vol. 4 chapter 9", "Site"]));
    assert!(d.reading);
    assert_eq!(d.volume, 4);
    assert_eq!(d.chapter, 900);
}

#[test]
fn extract_first_token_wins() {
    let d = extract_novel_data_from_title(&toks(&["ch 5", "ch 9"]));
    assert_eq!(d.chapter, 500);
}

#[test]
fn extract_huge_number_is_skipped() {
    // A number that does not fit is not usable; the scan moves on.
    let d = extract_novel_data_from_title(&toks(&["ch 99999999999999999999", "ch 8"]));
    assert_eq!(d.chapter, 800);
}

#[test]
fn extract_zeroes_when_not_reading() {
    let d = extract_novel_data_from_title(&toks(&["My Novel", "episode 12"]));
    assert!(!d.reading);
    assert_eq!(d.chapter, 0);
    assert_eq!(d.volume, 0);
}

#[test]
fn reading_chapter_site_token_counts() {
    assert!(!is_reading_chapter(&toks(&["WuxiaWorld", "Something"])));
    assert!(is_reading_chapter(&toks(&["WuxiaWorld", "A", "B"])));
    assert!(!is_reading_chapter(&toks(&["Royal Road", "A", "B"])));
    assert!(is_reading_chapter(&toks(&["A", "B", "Royal Road", "C"])));
    assert!(is_reading_chapter(&toks(&["Chapter 3"])));
    assert!(!is_reading_chapter(&toks(&["Nothing here"])));
}

#[test]
fn source_guesser_firefox_offset() {
    // Under the firefox rule the source is one token before the last.
    let ts = toks(&["My Cool Novel", "Chapter 12", "Royal Road", "Mozilla Firefox"]);
    assert_eq!(extract_source_from_title(&ts), "Royal Road");
}

#[test]
fn source_guesser_clamps_short_lists() {
    // The computed index would underflow; it is clamped to the first token.
    let ts = toks(&["Mozilla Firefox"]);
    assert_eq!(extract_source_from_title(&ts), "Mozilla Firefox");
}

#[test]
fn source_guesser_falls_back_to_last_token() {
    assert_eq!(extract_source_from_title(&toks(&["A", "B"])), "B");
    assert_eq!(extract_source_from_title(&Vec::new()), "?");
}

#[test]
fn novel_name_guesser_royal_road_index() {
    // The Royal-Road special case picks token index 1.
    let ts = toks(&["My Cool Novel", "Chapter 12", "Royal Road", "Mozilla Firefox"]);
    assert_eq!(extract_novel_name_from_title(&ts), "Chapter 12");
}

#[test]
fn novel_name_guesser_defaults_to_first_token() {
    let ts = toks(&["My Cool Novel", "Chapter 12", "Some Site"]);
    assert_eq!(extract_novel_name_from_title(&ts), "My Cool Novel");
    assert_eq!(extract_novel_name_from_title(&Vec::new()), "?");
}

#[test]
fn chapter_title_by_site() {
    let ts = toks(&["The Chapter Name", "Book", "Royal Road", "Firefox"]);
    assert_eq!(find_chapter_title(&ts), Some("The Chapter Name".to_string()));
    let ts2 = toks(&["Book", "The Chapter Name", "Scribble Hub", "Firefox"]);
    assert_eq!(find_chapter_title(&ts2), Some("The Chapter Name".to_string()));
    assert_eq!(find_chapter_title(&toks(&["A", "B"])), None);
}

#[test]
fn full_scenario_royal_road_firefox() {
    // The Royal-Road/firefox shape, end to end on the raw title.
    let ts = eris::title::tokenize("My Cool Novel - Chapter 12 - Royal Road - Mozilla Firefox")
        .unwrap();
    assert_eq!(ts.len(), 4);
    let d = extract_novel_data_from_title(&ts);
    assert!(d.reading);
    assert_eq!(d.chapter, 1200);
    assert_eq!(d.source, "Royal Road");
    assert_eq!(extract_novel_name_from_title(&ts), "Chapter 12");
}
