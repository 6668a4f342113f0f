use eris::db::NovelDb;
use eris::novel::{ListStatus, Novel, NovelContentAmount, NovelSettings, NovelStatus};

fn mk_novel(id: &str, title: &str, keywords: Option<Vec<&str>>) -> Novel {
    Novel {
        id: id.to_string(),
        title: title.to_string(),
        content: NovelContentAmount { volumes: 0, chapters: 0, side_stories: 0 },
        status: NovelStatus::Ongoing,
        settings: NovelSettings {
            list_status: ListStatus::Reading,
            content_read: NovelContentAmount { volumes: 0, chapters: 0, side_stories: 0 },
            window_titles: keywords.map(|ks| ks.into_iter().map(|s| s.to_string()).collect()),
            rereading: false,
            last_updated: 0,
        },
    }
}

#[test]
fn exact_title_match_is_case_insensitive() {
    let mut db = NovelDb::new();
    db.push_novel(mk_novel("a", "My Cool Novel", None));
    let n = db.get_by_title("my cool NOVEL").unwrap();
    assert_eq!(n.id, "a");
    assert!(db.get_by_title("my cool").is_none());
}

#[test]
fn title_match_folds_unicode_case() {
    // Case folding is the full Unicode mapping, not ASCII only.
    let mut db = NovelDb::new();
    db.push_novel(mk_novel("a", "\u{c4}rger Novel", None));
    assert_eq!(db.get_by_title("\u{e4}rger novel").unwrap().id, "a");
    let mut db2 = NovelDb::new();
    db2.push_novel(mk_novel("b", "Alpha", Some(vec!["\u{d6}VP"])));
    assert_eq!(db2.get_by_novel_keywords("\u{f6}vp").unwrap().id, "b");
}

#[test]
fn keyword_match_is_exact_not_substring() {
    let mut db = NovelDb::new();
    db.push_novel(mk_novel("a", "Alpha", Some(vec!["MCN", "Cool"])));
    assert_eq!(db.get_by_novel_keywords("mcn").unwrap().id, "a");
    assert!(db.get_by_novel_keywords("MC").is_none());
}

#[test]
fn empty_keywords_never_match() {
    let mut db = NovelDb::new();
    db.push_novel(mk_novel("a", "Alpha", Some(vec![""])));
    assert!(db.get_by_novel_keywords("").is_none());
}

#[test]
fn exact_title_beats_keyword() {
    // Another novel's keyword equals the candidate, but a novel whose
    // title equals it wins.
    let mut db = NovelDb::new();
    db.push_novel(mk_novel("kw", "Other Novel", Some(vec!["My Cool Novel"])));
    db.push_novel(mk_novel("ti", "My Cool Novel", None));
    let n = db.find_novel_by_window_title("My Cool Novel").unwrap();
    assert_eq!(n.id, "ti");
}

#[test]
fn keyword_beats_fuzzy() {
    let mut db = NovelDb::new();
    db.push_novel(mk_novel("fz", "my cool novell", None));
    db.push_novel(mk_novel("kw", "Unrelated", Some(vec!["my cool novel"])));
    let n = db.find_novel_by_window_title("my cool novel").unwrap();
    assert_eq!(n.id, "kw");
}

#[test]
fn fuzzy_match_above_threshold() {
    // One substituted character in a 26-character title keeps the bigram
    // similarity above the 0.97 threshold.
    let mut db = NovelDb::new();
    db.push_novel(mk_novel("a", "the quick brown novel here", None));
    let n = db.find_novel_by_window_title("the quick briwn novel here");
    assert_eq!(n.unwrap().id, "a");
}

#[test]
fn fuzzy_below_threshold_is_no_match() {
    // A moderately similar candidate is rejected, not resolved to the
    // nearest novel.
    let mut db = NovelDb::new();
    db.push_novel(mk_novel("a", "the quick brown novel here", None));
    assert!(db.find_novel_by_window_title("the quick brown").is_none());
    assert!(db.find_novel_by_window_title("zzz entirely different").is_none());
}

#[test]
fn find_from_tokens_takes_first_resolving_token() {
    let mut db = NovelDb::new();
    db.push_novel(mk_novel("a", "Beta", None));
    let tokens: Vec<String> = vec!["Unknown".to_string(), "beta".to_string()];
    let n = db.find_novel_from_title(&tokens).unwrap();
    assert_eq!(n.id, "a");
}

#[test]
fn potential_novels_by_keyword_substring() {
    let mut db = NovelDb::new();
    db.push_novel(mk_novel("a", "Alpha", Some(vec!["Unknown Book"])));
    db.push_novel(mk_novel("b", "Beta", Some(vec!["Else"])));
    let ps = db.find_potential_novels("Unknown Story");
    assert_eq!(ps.len(), 1);
    assert_eq!(ps[0].id, "a");
}

#[test]
fn potential_novels_by_acronym() {
    let mut db = NovelDb::new();
    db.push_novel(mk_novel("a", "My Very Cool Novel", None));
    let ps = db.find_potential_novels("MVCN something");
    assert_eq!(ps.len(), 1);
    assert_eq!(ps[0].id, "a");
}

#[test]
fn potential_novels_included_once() {
    let mut db = NovelDb::new();
    db.push_novel(mk_novel("a", "Alpha", Some(vec!["Unknown Book", "Unknown Story"])));
    let ps = db.find_potential_novels("Unknown tale");
    assert_eq!(ps.len(), 1);
}

#[test]
fn get_by_id_finds_record() {
    let mut db = NovelDb::new();
    db.push_novel(mk_novel("a", "Alpha", None));
    db.push_novel(mk_novel("b", "Beta", None));
    assert_eq!(db.get_by_id("b").unwrap().title, "Beta");
    assert!(db.get_by_id("c").is_none());
}

#[test]
fn update_novel_in_db_replaces_by_id() {
    let mut db = NovelDb::new();
    db.push_novel(mk_novel("a", "Alpha", None));
    let mut changed = mk_novel("a", "Alpha Renamed", None);
    changed.settings.content_read.chapters = 500;
    db.update_novel_in_db(changed);
    let n = db.get_by_id("a").unwrap();
    assert_eq!(n.title, "Alpha Renamed");
    assert_eq!(n.settings.content_read.chapters, 500);
}

#[test]
fn update_novel_reading_keyword_appends() {
    let mut db = NovelDb::new();
    db.push_novel(mk_novel("a", "Alpha", None));
    let n = db.get_by_id("a").unwrap();
    let n = db.update_novel_reading_keyword(n, "ALP".to_string());
    assert_eq!(n.settings.window_titles, Some(vec!["ALP".to_string()]));
    let n2 = db.update_novel_reading_keyword(n, "Alpha Site".to_string());
    assert_eq!(
        n2.settings.window_titles,
        Some(vec!["ALP".to_string(), "Alpha Site".to_string()])
    );
    assert_eq!(db.get_by_novel_keywords("alp").unwrap().id, "a");
}

#[test]
fn update_novel_status_changes_and_stores() {
    let mut db = NovelDb::new();
    db.push_novel(mk_novel("a", "Alpha", None));
    let n = db.get_by_id("a").unwrap();
    let n = db.update_novel_status(n, NovelStatus::Completed);
    assert_eq!(n.status, NovelStatus::Completed);
    assert_eq!(db.get_by_id("a").unwrap().status, NovelStatus::Completed);
}
