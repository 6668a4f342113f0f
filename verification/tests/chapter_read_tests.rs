use eris::chapter_read::apply_chapter_read;
use eris::novel::{ListStatus, Novel, NovelContentAmount, NovelSettings, NovelStatus};
use eris::settings::ChapterReadPreference;

fn mk_novel(chapters_read: i64, status: NovelStatus, list: ListStatus) -> Novel {
    Novel {
        id: "a".to_string(),
        title: "Alpha".to_string(),
        content: NovelContentAmount { volumes: 0, chapters: 0, side_stories: 0 },
        status,
        settings: NovelSettings {
            list_status: list,
            content_read: NovelContentAmount {
                volumes: 0,
                chapters: chapters_read,
                side_stories: 0,
            },
            window_titles: None,
            rereading: false,
            last_updated: 0,
        },
    }
}

#[test]
fn current_preference_commits_displayed_chapter() {
    // Chapter "12" under Current stores 12.00.
    let n = mk_novel(0, NovelStatus::Ongoing, ListStatus::Reading);
    let r = apply_chapter_read(&n, 0, 1200, 0, false, ChapterReadPreference::Current, false, 10);
    assert_eq!(r.settings.content_read.chapters, 1200);
    assert_eq!(r.settings.last_updated, 10);
}

#[test]
fn repeated_signal_is_a_no_op() {
    // The same displayed chapter a second time changes
    // nothing, including the update timestamp.
    let n = mk_novel(0, NovelStatus::Ongoing, ListStatus::Reading);
    let once = apply_chapter_read(&n, 0, 1200, 0, false, ChapterReadPreference::Current, false, 10);
    let twice = apply_chapter_read(
        &once,
        0,
        1200,
        0,
        false,
        ChapterReadPreference::Current,
        false,
        20,
    );
    assert_eq!(twice.settings.content_read.chapters, 1200);
    assert_eq!(twice.settings.last_updated, 10);
}

#[test]
fn previous_preference_commits_one_less() {
    // Displayed chapter "12" commits chapter 11 under Previous.
    let n = mk_novel(0, NovelStatus::Ongoing, ListStatus::Reading);
    let r = apply_chapter_read(&n, 0, 1200, 0, false, ChapterReadPreference::Previous, false, 10);
    assert_eq!(r.settings.content_read.chapters, 1100);
}

#[test]
fn previous_preference_floors_at_zero() {
    // Displayed chapter "0" floors at zero and changes nothing.
    let n = mk_novel(0, NovelStatus::Ongoing, ListStatus::Reading);
    let r = apply_chapter_read(&n, 0, 0, 0, false, ChapterReadPreference::Previous, false, 10);
    assert_eq!(r.settings.content_read.chapters, 0);
    assert_eq!(r.settings.last_updated, 0);
}

#[test]
fn automatic_update_never_regresses() {
    let n = mk_novel(1500, NovelStatus::Ongoing, ListStatus::Reading);
    let r = apply_chapter_read(&n, 0, 900, 0, false, ChapterReadPreference::Current, false, 10);
    assert_eq!(r.settings.content_read.chapters, 1500);
    assert_eq!(r.settings.last_updated, 0);
}

#[test]
fn exact_edit_replaces_even_decreasing() {
    let n = mk_novel(1500, NovelStatus::Ongoing, ListStatus::Reading);
    let r = apply_chapter_read(&n, 0, 900, 0, true, ChapterReadPreference::Current, false, 10);
    assert_eq!(r.settings.content_read.chapters, 900);
}

#[test]
fn exact_edit_ignores_previous_modifier() {
    // A manual edit stores the given numbers as they are: the Previous
    // preference subtracts nothing from a deliberate user edit.
    let n = mk_novel(0, NovelStatus::Ongoing, ListStatus::Reading);
    let r = apply_chapter_read(&n, 2, 1200, 3, true, ChapterReadPreference::Previous, false, 10);
    assert_eq!(r.settings.content_read.chapters, 1200);
    assert_eq!(r.settings.content_read.volumes, 2);
    assert_eq!(r.settings.content_read.side_stories, 3);
}

#[test]
fn autocomplete_guard_off() {
    // An ongoing novel reaching all totals does not flip to Completed
    // while autocomplete_ongoing is off.
    let mut n = mk_novel(0, NovelStatus::Ongoing, ListStatus::Reading);
    n.content.chapters = 1000;
    let r = apply_chapter_read(&n, 0, 1000, 0, false, ChapterReadPreference::Current, false, 10);
    assert_eq!(r.settings.content_read.chapters, 1000);
    assert_ne!(r.settings.list_status, ListStatus::Completed);
}

#[test]
fn autocomplete_guard_on() {
    // With autocomplete_ongoing on, the same update flips the list to
    // Completed.
    let mut n = mk_novel(0, NovelStatus::Ongoing, ListStatus::Reading);
    n.content.chapters = 1000;
    let r = apply_chapter_read(&n, 0, 1000, 0, false, ChapterReadPreference::Current, true, 10);
    assert_eq!(r.settings.list_status, ListStatus::Completed);
}

#[test]
fn completed_status_allows_autocomplete() {
    let mut n = mk_novel(0, NovelStatus::Completed, ListStatus::Reading);
    n.content.chapters = 1000;
    let r = apply_chapter_read(&n, 0, 1000, 0, false, ChapterReadPreference::Current, false, 10);
    assert_eq!(r.settings.list_status, ListStatus::Completed);
}

#[test]
fn no_autocomplete_without_chapter_total() {
    // A zero chapter total never completes.
    let n = mk_novel(0, NovelStatus::Completed, ListStatus::Reading);
    let r = apply_chapter_read(&n, 0, 1000, 0, false, ChapterReadPreference::Current, true, 10);
    assert_ne!(r.settings.list_status, ListStatus::Completed);
}

#[test]
fn plan_to_read_moves_to_reading() {
    let n = mk_novel(0, NovelStatus::Ongoing, ListStatus::PlanToRead);
    let r = apply_chapter_read(&n, 0, 100, 0, false, ChapterReadPreference::Current, false, 10);
    assert_eq!(r.settings.list_status, ListStatus::Reading);
}

#[test]
fn exact_edit_never_moves_to_reading() {
    let n = mk_novel(0, NovelStatus::Ongoing, ListStatus::PlanToRead);
    let r = apply_chapter_read(&n, 0, 100, 0, true, ChapterReadPreference::Current, false, 10);
    assert_eq!(r.settings.list_status, ListStatus::PlanToRead);
}

#[test]
fn side_story_modifier_and_floor() {
    let n = mk_novel(0, NovelStatus::Ongoing, ListStatus::Reading);
    let r = apply_chapter_read(&n, 0, 0, 3, false, ChapterReadPreference::Previous, false, 10);
    assert_eq!(r.settings.content_read.side_stories, 2);
    let r2 = apply_chapter_read(&n, 0, 0, 0, false, ChapterReadPreference::Previous, false, 10);
    assert_eq!(r2.settings.content_read.side_stories, 0);
}
