//! Recognition of one tokenized window title: the reading heuristic, the
//! source / novel-name / chapter-title guessers, and the structured result
//! they produce.

use vstd::prelude::*;

use crate::extract::{ch_scan, scan_chapter, scan_side_story, scan_volume, side_scan, vol_scan};
use crate::text::{contains_chars, contains_seq, lower_chars_of, lower_of, to_chars};
use crate::title::views;

verus! {

/// Structured result of recognizing one window title.
///
/// `chapter` is measured in hundredths of a chapter: a fractional chapter
/// number such as `12.2` is held as `1220`.
pub struct NovelRecognitionData {
    pub volume: i32,
    pub chapter: i64,
    pub side_story: i32,
    pub chapter_title: Option<String>,
    pub source: String,
    pub reading: bool,
}

/// Mathematical value of a recognition result.
#[verifier::ext_equal]
pub struct NovelRecognitionDataV {
    pub volume: i32,
    pub chapter: i64,
    pub side_story: i32,
    pub chapter_title: Option<Seq<char>>,
    pub source: Seq<char>,
    pub reading: bool,
}

impl View for NovelRecognitionData {
    type V = NovelRecognitionDataV;

    open spec fn view(&self) -> NovelRecognitionDataV {
        NovelRecognitionDataV {
            volume: self.volume,
            chapter: self.chapter,
            side_story: self.side_story,
            chapter_title: match self.chapter_title {
                Some(t) => Some(t@),
                None => None,
            },
            source: self.source@,
            reading: self.reading,
        }
    }
}

impl NovelRecognitionData {
    /// All numeric fields are non-negative.
    pub open spec fn wf(&self) -> bool {
        self.volume >= 0 && self.chapter >= 0 && self.side_story >= 0
    }

    pub fn new(
        volume: i32,
        chapter: i64,
        side_story: i32,
        chapter_title: Option<String>,
        source: String,
        reading: bool,
    ) -> (r: NovelRecognitionData)
        ensures
            r.volume == volume,
            r.chapter == chapter,
            r.side_story == side_story,
            r.chapter_title == chapter_title,
            r.source == source,
            r.reading == reading,
    {
        NovelRecognitionData { volume, chapter, side_story, chapter_title, source, reading }
    }
}

/// Some lowercased token contains `key` (`key` itself written lowercase).
pub open spec fn any_ci(ts: Seq<Seq<char>>, key: Seq<char>) -> bool {
    exists|j: int| 0 <= j < ts.len() && contains_seq(lower_of(#[trigger] ts[j]), key)
}

/// Some token contains `key`, case-sensitively.
pub open spec fn any_cs(ts: Seq<Seq<char>>, key: Seq<char>) -> bool {
    exists|j: int| 0 <= j < ts.len() && contains_seq(#[trigger] ts[j], key)
}

/// The "currently reading a chapter" heuristic: known sites imply a minimum
/// token count; otherwise any token with a chapter word counts.
pub open spec fn is_reading_spec(ts: Seq<Seq<char>>) -> bool {
    if any_ci(ts, "wuxiaworld"@) {
        ts.len() >= 3
    } else if any_ci(ts, "boxnovel"@) {
        ts.len() >= 3
    } else if any_ci(ts, "royal road"@) {
        ts.len() >= 4
    } else {
        any_ci(ts, "chapter"@) || any_ci(ts, "ch. "@) || any_ci(ts, "ch "@) || any_ci(ts, "ch-"@)
    }
}

/// The token at `pos` places before the last one; clamped to the first token
/// on short lists, `"?"` on an empty list.
pub open spec fn pick_from_end(ts: Seq<Seq<char>>, pos: int) -> Seq<char> {
    if ts.len() == 0 {
        "?"@
    } else if ts.len() - 1 - pos >= 0 {
        ts[ts.len() - 1 - pos]
    } else {
        ts[0]
    }
}

/// The guessed source site of a token list: keyed by the browser found in
/// the tokens (each browser appends a known number of trailing tokens),
/// falling back to the last token, then to `"?"`.
pub open spec fn source_spec(ts: Seq<Seq<char>>) -> Seq<char> {
    if any_ci(ts, "firefox"@) {
        pick_from_end(ts, 1)
    } else if any_ci(ts, "google"@) {
        pick_from_end(ts, 1)
    } else if any_ci(ts, "opera"@) {
        pick_from_end(ts, 1)
    } else if any_ci(ts, "edge"@) {
        pick_from_end(ts, 2)
    } else if any_ci(ts, "brave"@) {
        pick_from_end(ts, 1)
    } else if ts.len() > 0 {
        ts[ts.len() - 1]
    } else {
        "?"@
    }
}

/// The guessed novel name: on known sites the name is the second token while
/// reading; otherwise the first token, `"?"` on an empty list.
pub open spec fn novel_name_spec(ts: Seq<Seq<char>>) -> Seq<char> {
    if is_reading_spec(ts) && any_cs(ts, "Bad Reader"@) && 1 < ts.len() {
        ts[1]
    } else if is_reading_spec(ts) && any_cs(ts, "Royal Road"@) && 1 < ts.len() {
        ts[1]
    } else if ts.len() > 0 {
        ts[0]
    } else {
        "?"@
    }
}

/// The chapter title, when the source site keeps it at a known position.
pub open spec fn chapter_title_spec(ts: Seq<Seq<char>>) -> Option<Seq<char>> {
    if any_ci(ts, "royal road"@) {
        if 0 < ts.len() {
            Some(ts[0])
        } else {
            None
        }
    } else if any_ci(ts, "scribble hub"@) {
        if 1 < ts.len() {
            Some(ts[1])
        } else {
            None
        }
    } else {
        None
    }
}

/// Does some lowercased token contain `key` (written lowercase)?
fn any_contains_ci(tokens: &Vec<String>, key: &Vec<char>) -> (r: bool)
    ensures
        r == any_ci(views(tokens@), key@),
{
    let ghost ts = views(tokens@);
    let mut j: usize = 0;
    while j < tokens.len()
        invariant
            j <= tokens@.len(),
            ts == views(tokens@),
            forall|k: int| 0 <= k < j ==> !contains_seq(lower_of(#[trigger] ts[k]), key@),
        decreases tokens@.len() - j,
    {
        let lo = lower_chars_of(tokens[j].as_str());
        if contains_chars(&lo, key) {
            proof {
                assert(contains_seq(lower_of(ts[j as int]), key@));
            }
            return true;
        }
        j += 1;
    }
    false
}

/// Does some token contain `key`, case-sensitively?
fn any_contains_cs(tokens: &Vec<String>, key: &Vec<char>) -> (r: bool)
    ensures
        r == any_cs(views(tokens@), key@),
{
    let ghost ts = views(tokens@);
    let mut j: usize = 0;
    while j < tokens.len()
        invariant
            j <= tokens@.len(),
            ts == views(tokens@),
            forall|k: int| 0 <= k < j ==> !contains_seq(#[trigger] ts[k], key@),
        decreases tokens@.len() - j,
    {
        let tv = to_chars(tokens[j].as_str());
        if contains_chars(&tv, key) {
            proof {
                assert(contains_seq(ts[j as int], key@));
            }
            return true;
        }
        j += 1;
    }
    false
}

/// A copy of one string, by characters.
pub fn copy_string(s: &String) -> (r: String)
    ensures
        r@ == s@,
{
    let v = to_chars(s.as_str());
    crate::text::from_chars(&v)
}

/// Tries to decide whether the tokens describe a chapter being read: known
/// sites require a minimum token count, otherwise a chapter word in any
/// token counts.
pub fn is_reading_chapter(strings: &Vec<String>) -> (r: bool)
    ensures
        r == is_reading_spec(views(strings@)),
{
    let k1 = to_chars("wuxiaworld");
    if any_contains_ci(strings, &k1) {
        return strings.len() >= 3;
    }
    let k2 = to_chars("boxnovel");
    if any_contains_ci(strings, &k2) {
        return strings.len() >= 3;
    }
    let k3 = to_chars("royal road");
    if any_contains_ci(strings, &k3) {
        return strings.len() >= 4;
    }
    let p1 = to_chars("chapter");
    if any_contains_ci(strings, &p1) {
        return true;
    }
    let p2 = to_chars("ch. ");
    if any_contains_ci(strings, &p2) {
        return true;
    }
    let p3 = to_chars("ch ");
    if any_contains_ci(strings, &p3) {
        return true;
    }
    let p4 = to_chars("ch-");
    any_contains_ci(strings, &p4)
}

/// The source-site token: picked from the end of the list by the browser
/// that was found, the last token otherwise, `"?"` on an empty list.
pub fn extract_source_from_title(title_strings: &Vec<String>) -> (r: String)
    ensures
        r@ == source_spec(views(title_strings@)),
{
    let k1 = to_chars("firefox");
    if any_contains_ci(title_strings, &k1) {
        return pick_from_end_exec(title_strings, 1);
    }
    let k2 = to_chars("google");
    if any_contains_ci(title_strings, &k2) {
        return pick_from_end_exec(title_strings, 1);
    }
    let k3 = to_chars("opera");
    if any_contains_ci(title_strings, &k3) {
        return pick_from_end_exec(title_strings, 1);
    }
    let k4 = to_chars("edge");
    if any_contains_ci(title_strings, &k4) {
        return pick_from_end_exec(title_strings, 2);
    }
    let k5 = to_chars("brave");
    if any_contains_ci(title_strings, &k5) {
        return pick_from_end_exec(title_strings, 1);
    }
    if title_strings.len() > 0 {
        return copy_string(&title_strings[title_strings.len() - 1]);
    }
    String::from_str("?")
}

/// The token `pos` places before the last, clamped as `pick_from_end`.
fn pick_from_end_exec(tokens: &Vec<String>, pos: usize) -> (r: String)
    ensures
        r@ == pick_from_end(views(tokens@), pos as int),
{
    if tokens.len() == 0 {
        return String::from_str("?");
    }
    let idx = if tokens.len() - 1 >= pos {
        tokens.len() - 1 - pos
    } else {
        0
    };
    copy_string(&tokens[idx])
}

/// The guessed novel name among the tokens.
pub fn extract_novel_name_from_title(title_strings: &Vec<String>) -> (r: String)
    ensures
        r@ == novel_name_spec(views(title_strings@)),
{
    let reading = is_reading_chapter(title_strings);
    if reading {
        let k1 = to_chars("Bad Reader");
        if any_contains_cs(title_strings, &k1) && 1 < title_strings.len() {
            return copy_string(&title_strings[1]);
        }
        let k2 = to_chars("Royal Road");
        if any_contains_cs(title_strings, &k2) && 1 < title_strings.len() {
            return copy_string(&title_strings[1]);
        }
    }
    if title_strings.len() > 0 {
        return copy_string(&title_strings[0]);
    }
    String::from_str("?")
}

/// The chapter-title token, when the source site keeps one at a known
/// position.
pub fn find_chapter_title(title_strings: &Vec<String>) -> (r: Option<String>)
    ensures
        match r {
            Some(t) => chapter_title_spec(views(title_strings@)) == Some(t@),
            None => chapter_title_spec(views(title_strings@)) is None,
        },
{
    let k1 = to_chars("royal road");
    if any_contains_ci(title_strings, &k1) {
        if 0 < title_strings.len() {
            return Some(copy_string(&title_strings[0]));
        }
        return None;
    }
    let k2 = to_chars("scribble hub");
    if any_contains_ci(title_strings, &k2) {
        if 1 < title_strings.len() {
            return Some(copy_string(&title_strings[1]));
        }
        return None;
    }
    None
}

/// The recognition result a token list yields: numeric fields are the
/// first usable number of each category, forced to zero when the tokens do
/// not look like a chapter being read; the side-story count is skipped
/// entirely when the chapter number was fractional.
pub open spec fn data_spec(ts: Seq<Seq<char>>) -> NovelRecognitionDataV {
    let reading = is_reading_spec(ts);
    NovelRecognitionDataV {
        volume: if reading {
            vol_scan(ts, 0)
        } else {
            0
        },
        chapter: if reading {
            ch_scan(ts, 0).0
        } else {
            0
        },
        side_story: if reading && !ch_scan(ts, 0).1 {
            side_scan(ts, 0)
        } else {
            0
        },
        chapter_title: if reading {
            chapter_title_spec(ts)
        } else {
            None
        },
        source: source_spec(ts),
        reading,
    }
}

/// Recognizes one tokenized title.
pub fn extract_novel_data_from_title(strings: &Vec<String>) -> (r: NovelRecognitionData)
    ensures
        r@ == data_spec(views(strings@)),
        r.wf(),
{
    let reading = is_reading_chapter(strings);
    let source = extract_source_from_title(strings);
    if !reading {
        let r = NovelRecognitionData {
            volume: 0,
            chapter: 0,
            side_story: 0,
            chapter_title: None,
            source,
            reading: false,
        };
        proof {
            assert(r@ =~= data_spec(views(strings@)));
        }
        return r;
    }
    let volume = scan_volume(strings);
    let chapter = scan_chapter(strings);
    let side_story = if chapter.1 {
        0
    } else {
        scan_side_story(strings)
    };
    let chapter_title = find_chapter_title(strings);
    let r = NovelRecognitionData {
        volume,
        chapter: chapter.0,
        side_story,
        chapter_title,
        source,
        reading: true,
    };
    proof {
        assert(r@ =~= data_spec(views(strings@)));
    }
    r
}

} // verus!
