//! The numeric policy for committing a progress update, shared by automatic
//! recognition and manual chapter-read edits.
//!
//! Under the `Previous` preference an automatic update subtracts one
//! chapter (and one side story) from the on-screen numbers, floored at
//! zero. A manual edit (`exact_num`) replaces the stored progress with the
//! given numbers unconditionally, modifier not applied; an automatic update
//! only ever moves progress forward, and is a no-op when no axis strictly
//! increases. When every total is reached and the novel's status
//! (or the global setting) allows it, the novel's list position flips to
//! Completed.

use vstd::prelude::*;

use crate::novel::{ListStatus, Novel, NovelContentAmount, NovelSettings, NovelV};
use crate::settings::ChapterReadPreference;

verus! {

/// Zero under `Current`, one under `Previous`.
pub open spec fn read_modifier(pref: ChapterReadPreference) -> int {
    match pref {
        ChapterReadPreference::Previous => 1,
        ChapterReadPreference::Current => 0,
    }
}

/// `x`, floored at zero.
pub open spec fn floor0(x: int) -> int {
    if x < 0 {
        0
    } else {
        x
    }
}

/// The larger of two integers.
pub open spec fn imax(a: int, b: int) -> int {
    if a > b {
        a
    } else {
        b
    }
}

/// The chapter count that an on-screen chapter number commits: the modifier
/// subtracted (in hundredths), floored at zero.
pub open spec fn committed_chapter(chapter: i64, pref: ChapterReadPreference) -> int {
    floor0(chapter - read_modifier(pref) * 100)
}

/// The side-story count that an on-screen number commits.
pub open spec fn committed_side(side: i32, pref: ChapterReadPreference) -> int {
    floor0(side - read_modifier(pref))
}

/// An automatic update changes nothing when no axis strictly increases.
pub open spec fn no_change(
    n: NovelV,
    volume: i32,
    chapter: i64,
    side: i32,
    exact_num: bool,
    pref: ChapterReadPreference,
) -> bool {
    &&& !exact_num
    &&& n.settings.content_read.chapters >= committed_chapter(chapter, pref)
    &&& n.settings.content_read.volumes >= volume
    &&& n.settings.content_read.side_stories >= committed_side(side, pref)
}

/// The progress stored after a commit: a manual edit stores the given
/// values themselves (floored at zero, with no modifier applied), while an
/// automatic update applies the modifier and only moves each axis forward.
pub open spec fn committed_progress(
    n: NovelV,
    volume: i32,
    chapter: i64,
    side: i32,
    exact_num: bool,
    pref: ChapterReadPreference,
) -> NovelContentAmount {
    if exact_num {
        NovelContentAmount {
            volumes: volume,
            chapters: floor0(chapter as int) as i64,
            side_stories: floor0(side as int) as i32,
        }
    } else {
        let new_ch = committed_chapter(chapter, pref);
        let new_ss = committed_side(side, pref);
        NovelContentAmount {
            volumes: imax(volume as int, n.settings.content_read.volumes as int) as i32,
            chapters: imax(new_ch, n.settings.content_read.chapters as int) as i64,
            side_stories: imax(new_ss, n.settings.content_read.side_stories as int) as i32,
        }
    }
}

/// The stored progress reaches every available total, with a positive
/// chapter total required.
pub open spec fn reaches_totals(n: NovelV, cr: NovelContentAmount) -> bool {
    &&& cr.volumes >= n.content.volumes
    &&& cr.chapters >= n.content.chapters
    &&& n.content.chapters > 0
    &&& cr.side_stories >= n.content.side_stories
}

/// The list bucket after a commit: Completed once every total is reached
/// and the status (or the global setting) allows it; a novel still planned
/// moves to Reading on an automatic update; otherwise unchanged.
pub open spec fn committed_list_status(
    n: NovelV,
    cr: NovelContentAmount,
    exact_num: bool,
    autocomplete_ongoing: bool,
) -> ListStatus {
    let can_complete = n.status.allows_autocomplete() || autocomplete_ongoing;
    if can_complete && reaches_totals(n, cr) {
        ListStatus::Completed
    } else if n.settings.list_status == ListStatus::PlanToRead && !exact_num {
        ListStatus::Reading
    } else {
        n.settings.list_status
    }
}

/// The novel after one progress update.
pub open spec fn chapter_read_spec(
    n: NovelV,
    volume: i32,
    chapter: i64,
    side: i32,
    exact_num: bool,
    pref: ChapterReadPreference,
    autocomplete_ongoing: bool,
    now: i64,
) -> NovelV {
    if no_change(n, volume, chapter, side, exact_num, pref) {
        n
    } else {
        let cr = committed_progress(n, volume, chapter, side, exact_num, pref);
        NovelV {
            settings: crate::novel::NovelSettingsV {
                list_status: committed_list_status(n, cr, exact_num, autocomplete_ongoing),
                content_read: cr,
                last_updated: now,
                ..n.settings
            },
            ..n
        }
    }
}

/// Applies one progress update to a novel and returns the updated record.
pub fn apply_chapter_read(
    novel: &Novel,
    volume: i32,
    chapter: i64,
    side: i32,
    exact_num: bool,
    pref: ChapterReadPreference,
    autocomplete_ongoing: bool,
    now: i64,
) -> (r: Novel)
    requires
        novel.wf(),
        volume >= 0,
        chapter >= 0,
        side >= 0,
    ensures
        r@ == chapter_read_spec(
            novel@,
            volume,
            chapter,
            side,
            exact_num,
            pref,
            autocomplete_ongoing,
            now,
        ),
        r.wf(),
{
    let m: i64 = match pref {
        ChapterReadPreference::Previous => 1,
        ChapterReadPreference::Current => 0,
    };
    let mut new_ch: i64 = chapter - m * 100;
    if new_ch < 0 {
        new_ch = 0;
    }
    let mut new_ss: i32 = side - (m as i32);
    if new_ss < 0 {
        new_ss = 0;
    }
    let stored = novel.settings.content_read;
    if !exact_num && stored.chapters >= new_ch && stored.volumes >= volume && stored.side_stories
        >= new_ss {
        let r = novel.duplicate();
        return r;
    }
    let cr = if exact_num {
        NovelContentAmount {
            volumes: volume,
            chapters: if chapter < 0 {
                0
            } else {
                chapter
            },
            side_stories: if side < 0 {
                0
            } else {
                side
            },
        }
    } else {
        NovelContentAmount {
            volumes: if volume > stored.volumes {
                volume
            } else {
                stored.volumes
            },
            chapters: if new_ch > stored.chapters {
                new_ch
            } else {
                stored.chapters
            },
            side_stories: if new_ss > stored.side_stories {
                new_ss
            } else {
                stored.side_stories
            },
        }
    };
    let can_complete = matches!(novel.status, crate::novel::NovelStatus::Completed)
        || matches!(novel.status, crate::novel::NovelStatus::Dropped) || autocomplete_ongoing;
    let is_completed = can_complete && cr.volumes >= novel.content.volumes && cr.chapters
        >= novel.content.chapters && novel.content.chapters > 0 && cr.side_stories
        >= novel.content.side_stories;
    let list_status = if is_completed {
        ListStatus::Completed
    } else if matches!(novel.settings.list_status, ListStatus::PlanToRead) && !exact_num {
        ListStatus::Reading
    } else {
        novel.settings.list_status
    };
    let mut r = novel.duplicate();
    r.settings.content_read = cr;
    r.settings.list_status = list_status;
    r.settings.last_updated = now;
    proof {
        assert(r@ =~= chapter_read_spec(
            novel@,
            volume,
            chapter,
            side,
            exact_num,
            pref,
            autocomplete_ongoing,
            now,
        ));
    }
    r
}

/// Forward-only progress is idempotent on a stale signal: under the
/// `Current` preference an automatic update applied twice with the same
/// on-screen numbers stores the same progress as applying it once.
pub proof fn lemma_forward_only_idempotent(
    n: NovelV,
    volume: i32,
    chapter: i64,
    side: i32,
    autocomplete_ongoing: bool,
    now1: i64,
    now2: i64,
)
    requires
        volume >= 0,
        chapter >= 0,
        side >= 0,
    ensures
        ({
            let once = chapter_read_spec(
                n,
                volume,
                chapter,
                side,
                false,
                ChapterReadPreference::Current,
                autocomplete_ongoing,
                now1,
            );
            chapter_read_spec(
                once,
                volume,
                chapter,
                side,
                false,
                ChapterReadPreference::Current,
                autocomplete_ongoing,
                now2,
            ) == once
        }),
{
}

/// Under the `Previous` preference the on-screen chapter commits one
/// chapter less, floored at zero: an on-screen chapter strictly above the
/// stored count plus one stores exactly one chapter less, and an on-screen
/// chapter of zero changes nothing.
pub proof fn lemma_previous_commits_one_less(n: NovelV, chapter: i64, auto: bool, now: i64)
    requires
        chapter >= 0,
        n.settings.content_read.wf(),
    ensures
        n.settings.content_read.chapters < chapter - 100 ==> chapter_read_spec(
            n,
            0,
            chapter,
            0,
            false,
            ChapterReadPreference::Previous,
            auto,
            now,
        ).settings.content_read.chapters == chapter - 100,
        chapter == 0 ==> chapter_read_spec(
            n,
            0,
            chapter,
            0,
            false,
            ChapterReadPreference::Previous,
            auto,
            now,
        ) == n,
{
}

/// The auto-complete guard: an ongoing novel never flips to the Completed
/// list while `autocomplete_ongoing` is off; with it on, an update that
/// reaches every total does flip it.
pub proof fn lemma_autocomplete_guard(
    n: NovelV,
    volume: i32,
    chapter: i64,
    side: i32,
    pref: ChapterReadPreference,
    autocomplete_ongoing: bool,
    now: i64,
)
    requires
        n.status == crate::novel::NovelStatus::Ongoing,
        n.settings.list_status != ListStatus::Completed,
    ensures
        !autocomplete_ongoing ==> chapter_read_spec(
            n,
            volume,
            chapter,
            side,
            false,
            pref,
            autocomplete_ongoing,
            now,
        ).settings.list_status != ListStatus::Completed,
        ({
            let r = chapter_read_spec(n, volume, chapter, side, false, pref, true, now);
            (!no_change(n, volume, chapter, side, false, pref) && reaches_totals(
                n,
                committed_progress(n, volume, chapter, side, false, pref),
            )) ==> r.settings.list_status == ListStatus::Completed
        }),
{
}

} // verus!
