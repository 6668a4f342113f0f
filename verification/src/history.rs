//! The history of library changes, and the scans the engine runs over it.

use vstd::prelude::*;

use crate::novel::{ListStatus, Novel, NovelContentAmount};

verus! {

/// What a history record describes.
#[derive(Clone, Copy, PartialEq, Eq, Structural, Debug)]
pub enum HistoryAction {
    NovelAdd,
    NovelDelete,
    NovelUpdate,
    NovelListChange,
    ContentRead,
}

/// One history record.
pub struct NovelHistoryItem {
    pub novel_id: String,
    pub novel_name: String,
    pub action: HistoryAction,
    pub content: Option<NovelContentAmount>,
    pub list_status: Option<ListStatus>,
    pub named_chapter: Option<String>,
    /// When the record was made, in milliseconds.
    pub time: i64,
}

/// Mathematical value of a history record.
#[verifier::ext_equal]
pub struct NovelHistoryItemV {
    pub novel_id: Seq<char>,
    pub novel_name: Seq<char>,
    pub action: HistoryAction,
    pub content: Option<NovelContentAmount>,
    pub list_status: Option<ListStatus>,
    pub named_chapter: Option<Seq<char>>,
    pub time: i64,
}

impl View for NovelHistoryItem {
    type V = NovelHistoryItemV;

    open spec fn view(&self) -> NovelHistoryItemV {
        NovelHistoryItemV {
            novel_id: self.novel_id@,
            novel_name: self.novel_name@,
            action: self.action,
            content: self.content,
            list_status: self.list_status,
            named_chapter: match self.named_chapter {
                Some(ref t) => Some(t@),
                None => None,
            },
            time: self.time,
        }
    }
}

impl NovelHistoryItem {
    pub fn new(
        novel_id: String,
        novel_name: String,
        action: HistoryAction,
        content: Option<NovelContentAmount>,
        list_status: Option<ListStatus>,
        named_chapter: Option<String>,
        time: i64,
    ) -> (r: NovelHistoryItem)
        ensures
            r.novel_id == novel_id,
            r.novel_name == novel_name,
            r.action == action,
            r.content == content,
            r.list_status == list_status,
            r.named_chapter == named_chapter,
            r.time == time,
    {
        NovelHistoryItem { novel_id, novel_name, action, content, list_status, named_chapter, time }
    }

    /// The record made when a chapter-read count changes.
    pub fn new_history_chapter_read(novel: &Novel, chapter_title: Option<String>, time: i64) -> (r:
        NovelHistoryItem)
        ensures
            r.novel_id@ == novel.id@,
            r.novel_name@ == novel.title@,
            r.action == HistoryAction::ContentRead,
            r.content == Some(novel.settings.content_read),
            r.list_status is None,
            r.named_chapter == chapter_title,
            r.time == time,
    {
        NovelHistoryItem {
            novel_id: crate::recognition::copy_string(&novel.id),
            novel_name: crate::recognition::copy_string(&novel.title),
            action: HistoryAction::ContentRead,
            content: Some(novel.settings.content_read),
            list_status: None,
            named_chapter: chapter_title,
            time,
        }
    }

    /// The record made when a novel moves to another list.
    pub fn new_history_novel_list_change(novel: &Novel, time: i64) -> (r: NovelHistoryItem)
        ensures
            r.novel_id@ == novel.id@,
            r.novel_name@ == novel.title@,
            r.action == HistoryAction::NovelListChange,
            r.content is None,
            r.list_status == Some(novel.settings.list_status),
            r.named_chapter is None,
            r.time == time,
    {
        NovelHistoryItem {
            novel_id: crate::recognition::copy_string(&novel.id),
            novel_name: crate::recognition::copy_string(&novel.title),
            action: HistoryAction::NovelListChange,
            content: None,
            list_status: Some(novel.settings.list_status),
            named_chapter: None,
            time,
        }
    }
}

/// The values of a history list.
pub open spec fn hviews(items: Seq<NovelHistoryItem>) -> Seq<NovelHistoryItemV> {
    items.map_values(|it: NovelHistoryItem| it@)
}

/// All history records, newest appended last.
pub struct NovelHistory {
    pub items: Vec<NovelHistoryItem>,
}

/// The latest read record among `items[i..]`, given the best one seen so
/// far: a later record wins only with a strictly greater time, so ties keep
/// the earliest record.
pub open spec fn last_read_from(
    items: Seq<NovelHistoryItemV>,
    i: int,
    best: Option<NovelHistoryItemV>,
) -> Option<NovelHistoryItemV>
    decreases items.len() - i when 0 <= i <= items.len()
{
    if i >= items.len() {
        best
    } else {
        let cur = items[i];
        if cur.action == HistoryAction::ContentRead && (match best {
            Some(b) => cur.time > b.time,
            None => true,
        }) {
            last_read_from(items, i + 1, Some(cur))
        } else {
            last_read_from(items, i + 1, best)
        }
    }
}

/// The first read record among `items[i..]` whose chapter title is `t`.
pub open spec fn chapter_title_from(
    items: Seq<NovelHistoryItemV>,
    i: int,
    t: Seq<char>,
) -> Option<NovelHistoryItemV>
    decreases items.len() - i when 0 <= i <= items.len()
{
    if i >= items.len() {
        None
    } else if items[i].action == HistoryAction::ContentRead && items[i].named_chapter == Some(t) {
        Some(items[i])
    } else {
        chapter_title_from(items, i + 1, t)
    }
}

impl NovelHistory {
    pub fn new() -> (r: NovelHistory)
        ensures
            r.items@.len() == 0,
    {
        NovelHistory { items: Vec::new() }
    }

    /// The read record with the greatest time; among equal times, the
    /// earliest record.
    pub fn find_last_read(&self) -> (r: Option<NovelHistoryItem>)
        ensures
            match r {
                Some(it) => last_read_from(hviews(self.items@), 0, None) == Some(it@),
                None => last_read_from(hviews(self.items@), 0, None) is None,
            },
    {
        let ghost hs = hviews(self.items@);
        let mut best: Option<&NovelHistoryItem> = None;
        let mut i: usize = 0;
        while i < self.items.len()
            invariant
                i <= self.items@.len(),
                hs == hviews(self.items@),
                last_read_from(hs, 0, None) == last_read_from(
                    hs,
                    i as int,
                    match best {
                        Some(b) => Some(b@),
                        None => None,
                    },
                ),
            decreases self.items@.len() - i,
        {
            let cur = &self.items[i];
            proof {
                assert(hs[i as int] == cur@);
            }
            let take = matches!(cur.action, HistoryAction::ContentRead) && (match best {
                Some(b) => cur.time > b.time,
                None => true,
            });
            if take {
                best = Some(cur);
            }
            i += 1;
        }
        match best {
            Some(b) => Some(duplicate_item(b)),
            None => None,
        }
    }

    /// The first read record whose chapter title is `chapter_title`.
    pub fn find_chapter_title(&self, chapter_title: &str) -> (r: Option<NovelHistoryItem>)
        ensures
            match r {
                Some(it) => chapter_title_from(hviews(self.items@), 0, chapter_title@) == Some(
                    it@,
                ),
                None => chapter_title_from(hviews(self.items@), 0, chapter_title@) is None,
            },
    {
        let ghost hs = hviews(self.items@);
        let tv = crate::text::to_chars(chapter_title);
        let mut i: usize = 0;
        while i < self.items.len()
            invariant
                i <= self.items@.len(),
                hs == hviews(self.items@),
                tv@ == chapter_title@,
                chapter_title_from(hs, 0, chapter_title@) == chapter_title_from(
                    hs,
                    i as int,
                    chapter_title@,
                ),
            decreases self.items@.len() - i,
        {
            let cur = &self.items[i];
            proof {
                assert(hs[i as int] == cur@);
            }
            if matches!(cur.action, HistoryAction::ContentRead) {
                match &cur.named_chapter {
                    Some(c) => {
                        let cv = crate::text::to_chars(c.as_str());
                        if crate::text::chars_eq(&cv, &tv) {
                            return Some(duplicate_item(cur));
                        }
                    },
                    None => {},
                }
            }
            i += 1;
        }
        None
    }

    /// Appends a record.
    pub fn push_item(&mut self, item: NovelHistoryItem)
        ensures
            hviews(final(self).items@) == hviews(old(self).items@).push(item@),
    {
        self.items.push(item);
        proof {
            assert(hviews(self.items@) =~= hviews(old(self).items@).push(
                self.items@[old(self).items@.len() as int]@,
            ));
        }
    }
}

/// A field-by-field copy of a history record.
fn duplicate_item(it: &NovelHistoryItem) -> (r: NovelHistoryItem)
    ensures
        r@ == it@,
{
    NovelHistoryItem {
        novel_id: crate::recognition::copy_string(&it.novel_id),
        novel_name: crate::recognition::copy_string(&it.novel_name),
        action: it.action,
        content: it.content,
        list_status: it.list_status,
        named_chapter: match &it.named_chapter {
            Some(t) => Some(crate::recognition::copy_string(t)),
            None => None,
        },
        time: it.time,
    }
}

} // verus!
