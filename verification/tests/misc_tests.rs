use eris::error::ErisError;
use eris::history::{HistoryAction, NovelHistory, NovelHistoryItem};
use eris::novel::{ListStatus, NovelContentAmount, NovelStatus};
use eris::parser::NovelParser;
use eris::settings::{
    ChapterReadPreference, GeneralSettings, ListSettings, NovelListAction,
    NovelRecognitionSettings, Sorting, WindowState,
};
use eris::util::{capitalize_str, guess_keyword, nil_str};

#[test]
fn parser_from_url_by_domain() {
    assert_eq!(
        NovelParser::from_url("https://www.royalroad.com/fiction/12345/x"),
        NovelParser::RoyalRoad
    );
    assert_eq!(
        NovelParser::from_url("https://www.novelupdates.com/series/x/"),
        NovelParser::NovelUpdates
    );
    assert_eq!(
        NovelParser::from_url("https://www.scribblehub.com/series/1/x/"),
        NovelParser::ScribbleHub
    );
    assert_eq!(NovelParser::from_url("https://example.com/x"), NovelParser::Unsupported);
    assert_eq!(NovelParser::from_url("not a url"), NovelParser::Unsupported);
}

#[test]
fn parser_support_and_domains() {
    assert!(NovelParser::RoyalRoad.is_supported());
    assert!(!NovelParser::Unsupported.is_supported());
    assert_eq!(NovelParser::RoyalRoad.to_str(), "www.royalroad.com");
    assert_eq!(NovelParser::Unsupported.to_str(), "None");
}

#[test]
fn nil_str_replaces_empty_and_zero() {
    assert_eq!(nil_str(""), "-");
    assert_eq!(nil_str("0"), "-");
    assert_eq!(nil_str("12"), "12");
    assert_eq!(nil_str("abc"), "abc");
}

#[test]
fn capitalize_str_uppercases_first() {
    assert_eq!(capitalize_str("hello"), "Hello");
    assert_eq!(capitalize_str("Hello"), "Hello");
    assert_eq!(capitalize_str(""), "");
    assert_eq!(capitalize_str("1abc"), "1abc");
    // The full Unicode mapping, including multi-character expansions.
    assert_eq!(capitalize_str("\u{e4}rger"), "\u{c4}rger");
    assert_eq!(capitalize_str("\u{df}-zug"), "SS-zug");
}

#[test]
fn guess_keyword_acronym() {
    assert_eq!(guess_keyword("My Very Cool Novel"), "MVCN");
    // Short titles stand for themselves.
    assert_eq!(guess_keyword("Eris"), "Eris");
    assert_eq!(guess_keyword("lowercase long title"), "");
}

#[test]
fn chapter_read_preference_codes() {
    assert_eq!(ChapterReadPreference::Previous.to_i32(), 0);
    assert_eq!(ChapterReadPreference::Current.to_i32(), 1);
    assert_eq!(ChapterReadPreference::from_i32(0), ChapterReadPreference::Previous);
    assert_eq!(ChapterReadPreference::from_i32(1), ChapterReadPreference::Current);
    assert_eq!(ChapterReadPreference::from_i32(7), ChapterReadPreference::Current);
    assert_eq!(ChapterReadPreference::vec(), vec!["Previous", "Current"]);
}

#[test]
fn novel_list_action_codes() {
    for v in 0..=6 {
        assert_eq!(NovelListAction::from_i32(v).to_i32(), v);
    }
    assert_eq!(NovelListAction::from_i32(99), NovelListAction::Nothing);
    assert_eq!(NovelListAction::vec().len(), 7);
}

#[test]
fn list_status_codes() {
    for v in 0..=4 {
        assert_eq!(ListStatus::from_i32(v).to_i32(), v);
    }
    assert_eq!(ListStatus::from_i32(9), ListStatus::Reading);
}

#[test]
fn novel_status_codes() {
    for v in 0..=4 {
        assert_eq!(NovelStatus::from_i32(v).to_i32(), v);
    }
    assert_eq!(NovelStatus::from_i32(9), NovelStatus::Other);
}

#[test]
fn recognition_settings_defaults() {
    let s = NovelRecognitionSettings::new();
    assert!(s.enable);
    assert_eq!(s.delay, 120);
    assert_eq!(s.chapter_read_preference, ChapterReadPreference::Current);
    assert!(!s.autocomplete_ongoing);
    assert_eq!(
        s.title_keywords,
        vec!["Chapter", "Novel Updates", "Royal Road", "Scribble Hub"]
    );
    assert_eq!(s.ignore_keywords, vec!["Manga", "Manhua", "Manhwa"]);
}

#[test]
fn general_settings_defaults() {
    let g = GeneralSettings::new("/tmp/data".to_string());
    assert!(g.show_sidebar);
    assert_eq!(g.data_dir, "/tmp/data");
    assert_eq!(g.mouse_2_action, NovelListAction::Read);
    assert_eq!(g.reader_args, "-f %f -p %p");
    assert!(g.window_state_enabled);
}

#[test]
fn list_settings_defaults() {
    let l = ListSettings::new();
    assert_eq!(l.list_sort_order.len(), 6);
    assert_eq!(l.list_sort_order[0], Sorting { column_id: 10, is_sort_indicator: true, sort_order: 0 });
    assert_eq!(l.visible_columns.len(), 11);
    assert_eq!(l.open_info_behavior, 0);
}

#[test]
fn window_state_keeps_old_values_while_maximized() {
    let old = WindowState { x: 1, y: 2, width: 3, height: 4, is_maximized: false };
    let cur = WindowState { x: 9, y: 9, width: 9, height: 9, is_maximized: true };
    let r = WindowState::from_window_with_old_values(cur, Some(old));
    assert_eq!(r, WindowState { x: 1, y: 2, width: 3, height: 4, is_maximized: true });
    let cur2 = WindowState { x: 9, y: 9, width: 9, height: 9, is_maximized: false };
    let r2 = WindowState::from_window_with_old_values(cur2, Some(old));
    assert_eq!(r2, cur2);
}

#[test]
fn eris_error_messages() {
    assert_eq!(ErisError::ReadFromDisk.message(), "Failed to open and read file on disk.");
    assert_eq!(ErisError::Unknown.message(), "Unknown error.");
}

#[test]
fn history_find_last_read() {
    let mut h = NovelHistory::new();
    let item = |id: &str, action: HistoryAction, time: i64| {
        NovelHistoryItem::new(
            id.to_string(),
            id.to_string(),
            action,
            Some(NovelContentAmount { volumes: 0, chapters: 100, side_stories: 0 }),
            None,
            None,
            time,
        )
    };
    h.push_item(item("a", HistoryAction::ContentRead, 10));
    h.push_item(item("b", HistoryAction::NovelAdd, 50));
    h.push_item(item("c", HistoryAction::ContentRead, 30));
    let last = h.find_last_read().unwrap();
    assert_eq!(last.novel_id, "c");
    assert!(NovelHistory::new().find_last_read().is_none());
}

#[test]
fn history_find_chapter_title() {
    let mut h = NovelHistory::new();
    h.push_item(NovelHistoryItem::new(
        "a".to_string(),
        "Alpha".to_string(),
        HistoryAction::ContentRead,
        None,
        None,
        Some("The Fall".to_string()),
        10,
    ));
    assert_eq!(h.find_chapter_title("The Fall").unwrap().novel_id, "a");
    assert!(h.find_chapter_title("Another").is_none());
}

#[test]
fn amount_from_string_reads_all_slots() {
    let a = NovelContentAmount::from_string("v1c12.2ss3");
    assert_eq!(a.volumes, 1);
    assert_eq!(a.chapters, 1220);
    assert_eq!(a.side_stories, 3);
    let b = NovelContentAmount::from_string("C7");
    assert_eq!(b.volumes, 0);
    assert_eq!(b.chapters, 700);
    assert_eq!(b.side_stories, 0);
    let c = NovelContentAmount::from_string("nothing here");
    assert_eq!(c, NovelContentAmount { volumes: 0, chapters: 0, side_stories: 0 });
}

#[test]
fn amount_to_string_round_trip() {
    let a = NovelContentAmount { volumes: 1, chapters: 1220, side_stories: 3 };
    assert_eq!(a.to_string(false), "v1c12.2ss3");
    assert_eq!(a.to_string(true), "v1 c12.2 ss3");
    assert_eq!(NovelContentAmount::from_string(&a.to_string(false)), a);
    let b = NovelContentAmount { volumes: 0, chapters: 1225, side_stories: 0 };
    assert_eq!(b.to_string(false), "c12.25");
    let c = NovelContentAmount { volumes: 0, chapters: 0, side_stories: 0 };
    assert_eq!(c.to_string(false), "");
    assert_eq!(c.to_string(true), "  ");
}

#[test]
fn chapters_read_str_truncates_to_one_decimal() {
    let mut n = eris::novel::Novel {
        id: "a".to_string(),
        title: "Alpha".to_string(),
        content: NovelContentAmount { volumes: 0, chapters: 0, side_stories: 0 },
        status: NovelStatus::Ongoing,
        settings: eris::novel::NovelSettings {
            list_status: ListStatus::Reading,
            content_read: NovelContentAmount { volumes: 0, chapters: 1200, side_stories: 0 },
            window_titles: None,
            rereading: false,
            last_updated: 0,
        },
    };
    assert_eq!(n.chapters_read_str(), "12");
    n.settings.content_read.chapters = 1225;
    assert_eq!(n.chapters_read_str(), "12.2");
    n.settings.content_read.chapters = 0;
    assert_eq!(n.chapters_read_str(), "0");
}

#[test]
fn novel_title_rereading_prefix() {
    let mut n = eris::novel::Novel {
        id: "a".to_string(),
        title: "Alpha".to_string(),
        content: NovelContentAmount { volumes: 0, chapters: 0, side_stories: 0 },
        status: NovelStatus::Ongoing,
        settings: eris::novel::NovelSettings {
            list_status: ListStatus::Reading,
            content_read: NovelContentAmount { volumes: 0, chapters: 0, side_stories: 0 },
            window_titles: None,
            rereading: false,
            last_updated: 0,
        },
    };
    assert_eq!(n.title(), "Alpha");
    n.settings.rereading = true;
    assert_eq!(n.title(), "[R] Alpha");
}
