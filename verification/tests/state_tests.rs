use eris::db::NovelDb;
use eris::novel::{ListStatus, Novel, NovelContentAmount, NovelSettings, NovelStatus};
use eris::settings::NovelRecognitionSettings;
use eris::state::{reading_recognition, select_title, Command, CurrentlyReading};

fn mk_novel(id: &str, title: &str) -> Novel {
    Novel {
        id: id.to_string(),
        title: title.to_string(),
        content: NovelContentAmount { volumes: 0, chapters: 0, side_stories: 0 },
        status: NovelStatus::Ongoing,
        settings: NovelSettings {
            list_status: ListStatus::Reading,
            content_read: NovelContentAmount { volumes: 0, chapters: 0, side_stories: 0 },
            window_titles: None,
            rereading: false,
            last_updated: 0,
        },
    }
}

fn titles(ts: &[&str]) -> Vec<String> {
    ts.iter().map(|s| s.to_string()).collect()
}

#[test]
fn select_title_picks_first_include_match() {
    let settings = NovelRecognitionSettings::new();
    let ts = titles(&[
        "Mail - Inbox",
        "My Cool Novel - Chapter 12 - Royal Road - Mozilla Firefox",
        "Other Novel - Chapter 3 - Royal Road - Mozilla Firefox",
    ]);
    let r = select_title(&ts, &settings).unwrap();
    assert_eq!(r, "My Cool Novel - Chapter 12 - Royal Road - Mozilla Firefox");
}

#[test]
fn select_title_ignore_short_circuits_whole_scan() {
    // An ignore keyword aborts the whole tick even though a later (or
    // the same) title holds an include keyword.
    let settings = NovelRecognitionSettings::new();
    let ts = titles(&[
        "Some Manga - Chapter 3 - Royal Road - Mozilla Firefox",
        "My Cool Novel - Chapter 12 - Royal Road - Mozilla Firefox",
    ]);
    assert!(select_title(&ts, &settings).is_none());
}

#[test]
fn select_title_ignore_is_case_insensitive() {
    let settings = NovelRecognitionSettings::new();
    let ts = titles(&["reading MANGA now - Chapter 1"]);
    assert!(select_title(&ts, &settings).is_none());
}

#[test]
fn select_title_num_placeholder() {
    let mut settings = NovelRecognitionSettings::new();
    settings.title_keywords = vec!["Episode <num> of".to_string()];
    settings.ignore_keywords = Vec::new();
    let ts = titles(&["Episode 12 of Something"]);
    assert_eq!(select_title(&ts, &settings).unwrap(), "Episode 12 of Something");
    let no = titles(&["Episode of Something"]);
    assert!(select_title(&no, &settings).is_none());
}

#[test]
fn select_title_any_placeholder() {
    let mut settings = NovelRecognitionSettings::new();
    settings.title_keywords = vec!["book<any>shelf".to_string()];
    settings.ignore_keywords = Vec::new();
    assert!(select_title(&titles(&["my book-shelf here"]), &settings).is_some());
    // `<any>` also covers the empty string.
    assert!(select_title(&titles(&["my bookshelf here"]), &settings).is_some());
    assert!(select_title(&titles(&["my book--shelf here"]), &settings).is_none());
}

#[test]
fn select_title_no_match_yields_none() {
    let settings = NovelRecognitionSettings::new();
    assert!(select_title(&titles(&["Mail - Inbox"]), &settings).is_none());
    assert!(select_title(&Vec::new(), &settings).is_none());
}

#[test]
fn tick_delay_scenario() {
    // Delay 120 s; the first tick sets a deadline and commits nothing,
    // a tick 60 s later still waits, a tick at 130 s commits.
    let mut settings = NovelRecognitionSettings::new();
    settings.delay = 120;
    let mut db = NovelDb::new();
    db.push_novel(mk_novel("a", "My Cool Novel"));
    let mut state = CurrentlyReading::new();
    let title = "My Cool Novel - Chapter 12 - Royal Road - Mozilla Firefox";

    let cmds = reading_recognition(&mut state, &mut db, &settings, 1000, Some(title.to_string()));
    assert_eq!(db.get_by_id("a").unwrap().settings.content_read.chapters, 0);
    assert!(matches!(cmds[0], Command::PublishReading { .. }));
    assert!(matches!(cmds[1], Command::NavigateToReadingView));

    let cmds = reading_recognition(&mut state, &mut db, &settings, 1060, Some(title.to_string()));
    assert_eq!(db.get_by_id("a").unwrap().settings.content_read.chapters, 0);
    assert!(cmds.is_empty());

    let cmds = reading_recognition(&mut state, &mut db, &settings, 1130, Some(title.to_string()));
    assert_eq!(db.get_by_id("a").unwrap().settings.content_read.chapters, 1200);
    assert!(cmds.is_empty());
}

#[test]
fn tick_repeat_after_commit_is_pure_no_op() {
    let settings = NovelRecognitionSettings::new();
    let mut db = NovelDb::new();
    db.push_novel(mk_novel("a", "My Cool Novel"));
    let mut state = CurrentlyReading::new();
    let title = "My Cool Novel - Chapter 12 - Royal Road - Mozilla Firefox";
    reading_recognition(&mut state, &mut db, &settings, 0, Some(title.to_string()));
    reading_recognition(&mut state, &mut db, &settings, 200, Some(title.to_string()));
    assert_eq!(db.get_by_id("a").unwrap().settings.content_read.chapters, 1200);
    let cmds = reading_recognition(&mut state, &mut db, &settings, 300, Some(title.to_string()));
    assert!(cmds.is_empty());
    assert_eq!(db.get_by_id("a").unwrap().settings.content_read.chapters, 1200);
}

#[test]
fn tick_none_clears_once() {
    let settings = NovelRecognitionSettings::new();
    let mut db = NovelDb::new();
    db.push_novel(mk_novel("a", "My Cool Novel"));
    let mut state = CurrentlyReading::new();
    let title = "My Cool Novel - Chapter 12 - Royal Road - Mozilla Firefox";
    reading_recognition(&mut state, &mut db, &settings, 0, Some(title.to_string()));

    let cmds = reading_recognition(&mut state, &mut db, &settings, 3, None);
    assert_eq!(cmds.len(), 1);
    assert!(matches!(cmds[0], Command::PublishNotReading));

    // A second tick with nothing open is a no-op.
    let cmds = reading_recognition(&mut state, &mut db, &settings, 6, None);
    assert!(cmds.is_empty());
}

#[test]
fn tick_title_without_delimiter_clears_like_none() {
    let settings = NovelRecognitionSettings::new();
    let mut db = NovelDb::new();
    db.push_novel(mk_novel("a", "My Cool Novel"));
    let mut state = CurrentlyReading::new();
    let title = "My Cool Novel - Chapter 12 - Royal Road - Mozilla Firefox";
    reading_recognition(&mut state, &mut db, &settings, 0, Some(title.to_string()));
    let cmds = reading_recognition(
        &mut state,
        &mut db,
        &settings,
        3,
        Some("bare desktop".to_string()),
    );
    assert_eq!(cmds.len(), 1);
    assert!(matches!(cmds[0], Command::PublishNotReading));
}

#[test]
fn tick_unknown_title_offers_suggestions() {
    let settings = NovelRecognitionSettings::new();
    let mut db = NovelDb::new();
    let mut known = mk_novel("a", "Alpha");
    known.settings.window_titles = Some(vec!["Unknown Book Stories".to_string()]);
    db.push_novel(known);
    let mut state = CurrentlyReading::new();
    let cmds = reading_recognition(
        &mut state,
        &mut db,
        &settings,
        0,
        Some("Unknown Book - Chapter 5 - Some Site - Mozilla Firefox".to_string()),
    );
    match &cmds[0] {
        Command::PublishSuggestions { keyword, candidates } => {
            assert_eq!(keyword, "Unknown");
            assert_eq!(candidates.len(), 1);
            assert_eq!(candidates[0].id, "a");
        },
        _ => panic!("expected suggestions first"),
    }
    assert!(matches!(cmds[1], Command::PublishReading { .. }));
    // No deadline is armed while no novel is matched.
    let cmds2 = reading_recognition(
        &mut state,
        &mut db,
        &settings,
        500,
        Some("Unknown Book - Chapter 5 - Some Site - Mozilla Firefox".to_string()),
    );
    // The repeated title is deduplicated down to the suggestions only.
    assert_eq!(
        cmds2
            .iter()
            .filter(|c| matches!(c, Command::PublishReading { .. }))
            .count(),
        0
    );
    assert_eq!(db.get_by_id("a").unwrap().settings.content_read.chapters, 0);
}

#[test]
fn tick_switching_novel_replaces_candidate() {
    let settings = NovelRecognitionSettings::new();
    let mut db = NovelDb::new();
    db.push_novel(mk_novel("a", "Alpha Novel"));
    db.push_novel(mk_novel("b", "Beta Novel"));
    let mut state = CurrentlyReading::new();
    reading_recognition(
        &mut state,
        &mut db,
        &settings,
        0,
        Some("Alpha Novel - Chapter 1 - Site - Mozilla Firefox".to_string()),
    );
    assert_eq!(state.novel_id.as_deref(), Some("a"));
    reading_recognition(
        &mut state,
        &mut db,
        &settings,
        3,
        Some("Beta Novel - Chapter 2 - Site - Mozilla Firefox".to_string()),
    );
    assert_eq!(state.novel_id.as_deref(), Some("b"));
}
