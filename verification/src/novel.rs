//! The novel records the recognition engine works on: an immutable lookup
//! target (id, title, recognition keywords, available totals, publication
//! status) plus the mutable recorded progress and reading-list position.
//!
//! Chapter counts are measured in hundredths of a chapter throughout, so a
//! fractional chapter such as `12.2` is the integer `1220`.

use vstd::prelude::*;

use crate::title::views;

verus! {

/// The reading-list bucket a novel occupies.
#[derive(Clone, Copy, PartialEq, Eq, Structural, Debug)]
pub enum ListStatus {
    Reading,
    PlanToRead,
    OnHold,
    Completed,
    Dropped,
}

impl ListStatus {
    pub fn to_i32(self) -> (r: i32)
        ensures
            r == self.as_i32(),
    {
        match self {
            ListStatus::Reading => 0,
            ListStatus::PlanToRead => 1,
            ListStatus::OnHold => 2,
            ListStatus::Completed => 3,
            ListStatus::Dropped => 4,
        }
    }

    /// The stable numeric code of each bucket.
    pub open spec fn as_i32(self) -> i32 {
        match self {
            ListStatus::Reading => 0,
            ListStatus::PlanToRead => 1,
            ListStatus::OnHold => 2,
            ListStatus::Completed => 3,
            ListStatus::Dropped => 4,
        }
    }

    pub fn from_i32(value: i32) -> (r: ListStatus)
        ensures
            0 <= value <= 4 ==> r.as_i32() == value,
            !(0 <= value <= 4) ==> r == ListStatus::Reading,
    {
        match value {
            0 => ListStatus::Reading,
            1 => ListStatus::PlanToRead,
            2 => ListStatus::OnHold,
            3 => ListStatus::Completed,
            4 => ListStatus::Dropped,
            _ => ListStatus::Reading,
        }
    }
}

/// Publication status of a novel, distinct from its list position.
#[derive(Clone, Copy, PartialEq, Eq, Structural, Debug)]
pub enum NovelStatus {
    Ongoing,
    OriginalCompleted,
    Completed,
    Hiatus,
    Dropped,
    Other,
}

impl NovelStatus {
    pub fn to_i32(self) -> (r: i32)
        ensures
            r == self.as_i32(),
    {
        match self {
            NovelStatus::Ongoing => 0,
            NovelStatus::OriginalCompleted => 1,
            NovelStatus::Completed => 2,
            NovelStatus::Hiatus => 3,
            NovelStatus::Dropped => 4,
            NovelStatus::Other => 5,
        }
    }

    /// The stable numeric code of each status.
    pub open spec fn as_i32(self) -> i32 {
        match self {
            NovelStatus::Ongoing => 0,
            NovelStatus::OriginalCompleted => 1,
            NovelStatus::Completed => 2,
            NovelStatus::Hiatus => 3,
            NovelStatus::Dropped => 4,
            NovelStatus::Other => 5,
        }
    }

    pub fn from_i32(value: i32) -> (r: NovelStatus)
        ensures
            0 <= value <= 4 ==> r.as_i32() == value,
            !(0 <= value <= 4) ==> r == NovelStatus::Other,
    {
        match value {
            0 => NovelStatus::Ongoing,
            1 => NovelStatus::OriginalCompleted,
            2 => NovelStatus::Completed,
            3 => NovelStatus::Hiatus,
            4 => NovelStatus::Dropped,
            _ => NovelStatus::Other,
        }
    }

    /// A status that allows the automatic flip to the Completed list once
    /// every total is reached.
    pub open spec fn allows_autocomplete(self) -> bool {
        self == NovelStatus::Completed || self == NovelStatus::Dropped
    }
}

/// An amount of content: volumes, chapters (in hundredths) and side stories.
#[derive(Clone, Copy, PartialEq, Eq, Structural, Debug)]
pub struct NovelContentAmount {
    pub volumes: i32,
    pub chapters: i64,
    pub side_stories: i32,
}

impl NovelContentAmount {
    /// All amounts are non-negative.
    pub open spec fn wf(self) -> bool {
        self.volumes >= 0 && self.chapters >= 0 && self.side_stories >= 0
    }

    pub fn new(volumes: i32, chapters: i64, side_stories: i32) -> (r: NovelContentAmount)
        ensures
            r.volumes == volumes,
            r.chapters == chapters,
            r.side_stories == side_stories,
    {
        NovelContentAmount { volumes, chapters, side_stories }
    }

    /// Reads amounts from compact notation such as `v1c12.2ss3`, ignoring
    /// case; an absent marker reads as zero.
    pub fn from_string(value: &str) -> (r: NovelContentAmount)
        ensures
            r == amount_from_string_spec(value@),
            r.wf(),
    {
        let t = crate::text::lower_chars_of(value);
        let volumes = match scan_v_capture(&t) {
            Some(p) => match crate::extract::parse_i32_digits(&t, p.0, p.1) {
                Some(v) => {
                    proof {
                        crate::extract::lemma_digits_value_nonneg(
                            t@.subrange(p.0 as int, p.1 as int),
                        );
                    }
                    v
                },
                None => 0,
            },
            None => 0,
        };
        let chapters = match scan_c_capture(&t) {
            Some(p) => match crate::extract::ch_value_exec(&t, p.0, p.1) {
                Some(v) => {
                    proof {
                        crate::extract::lemma_ch_value_nonneg(t@.subrange(p.0 as int, p.1 as int));
                    }
                    v
                },
                None => 0,
            },
            None => 0,
        };
        let side_stories = match scan_ss_capture(&t) {
            Some(p) => match crate::extract::parse_i32_digits(&t, p.0, p.1) {
                Some(v) => {
                    proof {
                        crate::extract::lemma_digits_value_nonneg(
                            t@.subrange(p.0 as int, p.1 as int),
                        );
                    }
                    v
                },
                None => 0,
            },
            None => 0,
        };
        NovelContentAmount { volumes, chapters, side_stories }
    }

    /// Renders the amounts in compact notation; the pretty form separates
    /// the slots with spaces.
    pub fn to_string(&self, pretty: bool) -> (r: String)
        requires
            self.wf(),
        ensures
            r@ == amount_string_spec(*self, pretty),
    {
        let mut out: Vec<char> = Vec::new();
        if self.volumes > 0 {
            out.push('v');
            push_dec(&mut out, self.volumes as u64);
        }
        let ghost vpart = out@;
        if pretty {
            out.push(' ');
        }
        if self.chapters > 0 {
            out.push('c');
            push_chapter_digits(&mut out, self.chapters);
        }
        let ghost cpart = out@;
        if pretty {
            out.push(' ');
        }
        if self.side_stories > 0 {
            out.push('s');
            out.push('s');
            push_dec(&mut out, self.side_stories as u64);
        }
        proof {
            assert(out@ =~= amount_string_spec(*self, pretty));
        }
        crate::text::from_chars(&out)
    }
}

/// Appends the decimal digits of `n`.
fn push_dec(out: &mut Vec<char>, n: u64)
    ensures
        final(out)@ == old(out)@ + dec_digits(n as int),
    decreases n,
{
    if n < 10 {
        out.push(digit_char_exec(n));
        proof {
            assert(final(out)@ =~= old(out)@ + dec_digits(n as int));
        }
    } else {
        push_dec(out, n / 10);
        out.push(digit_char_exec(n % 10));
        proof {
            assert(final(out)@ =~= old(out)@ + dec_digits(n as int));
        }
    }
}

/// Appends a chapter count in hundredths with its weight-bearing fraction
/// digits.
fn push_chapter_digits(out: &mut Vec<char>, h: i64)
    requires
        h >= 0,
    ensures
        final(out)@ == old(out)@ + chapter_digits(h as int),
{
    push_dec(out, (h / 100) as u64);
    let frac = h % 100;
    if frac != 0 {
        out.push('.');
        out.push(digit_char_exec(((h / 10) % 10) as u64));
        if frac % 10 != 0 {
            out.push(digit_char_exec((h % 10) as u64));
        }
    }
    proof {
        assert(final(out)@ =~= old(out)@ + chapter_digits(h as int));
    }
}

/// The character of one digit.
fn digit_char_exec(d: u64) -> (r: char)
    requires
        d < 10,
    ensures
        r == digit_char(d as int),
{
    match d {
        0 => '0',
        1 => '1',
        2 => '2',
        3 => '3',
        4 => '4',
        5 => '5',
        6 => '6',
        7 => '7',
        8 => '8',
        _ => '9',
    }
}

/// Digit range of the leftmost `v` capture.
fn scan_v_capture(t: &Vec<char>) -> (r: Option<(usize, usize)>)
    ensures
        match r {
            Some(p) => {
                let s = t@.subrange(p.0 as int, p.1 as int);
                &&& p.0 <= p.1 <= t@.len()
                &&& v_capture_from(t@, 0) == Some(s)
                &&& crate::extract::all_digits(s)
            },
            None => v_capture_from(t@, 0) is None,
        },
{
    let n = t.len();
    let mut i: usize = 0;
    while i < n
        invariant
            i <= n,
            n == t@.len(),
            v_capture_from(t@, 0) == v_capture_from(t@, i as int),
        decreases n - i,
    {
        if t[i] == 'v' && i + 1 < n && crate::text::is_digit_exec(t[i + 1]) {
            let e = crate::extract::digit_run_end_exec(t, i + 1);
            proof {
                crate::extract::lemma_digit_run_end_facts(t@, i + 1);
                assert(crate::extract::all_digits(t@.subrange(i + 1, e as int)));
            }
            return Some((i + 1, e));
        }
        i += 1;
    }
    None
}

/// Number range of the leftmost `c` capture.
fn scan_c_capture(t: &Vec<char>) -> (r: Option<(usize, usize)>)
    ensures
        match r {
            Some(p) => {
                let s = t@.subrange(p.0 as int, p.1 as int);
                &&& p.0 <= p.1 <= t@.len()
                &&& c_capture_from(t@, 0) == Some(s)
                &&& crate::extract::digit_run_end(s, 0) == crate::extract::digit_run_end(
                    t@,
                    p.0 as int,
                ) - p.0
                &&& crate::extract::all_digits(s.take(crate::extract::digit_run_end(s, 0)))
                &&& (crate::extract::digit_run_end(s, 0) < s.len() && s[crate::extract::digit_run_end(
                    s,
                    0,
                )] == '.' ==> crate::extract::all_digits(
                    s.skip(crate::extract::digit_run_end(s, 0) + 1),
                ))
            },
            None => c_capture_from(t@, 0) is None,
        },
{
    let n = t.len();
    let mut i: usize = 0;
    while i < n
        invariant
            i <= n,
            n == t@.len(),
            c_capture_from(t@, 0) == c_capture_from(t@, i as int),
        decreases n - i,
    {
        if t[i] == 'c' && i + 1 < n && crate::text::is_digit_exec(t[i + 1]) {
            let k = i + 1;
            let e1 = crate::extract::digit_run_end_exec(t, k);
            let fractional = e1 < n && n - e1 >= 2 && t[e1] == '.' && crate::text::is_digit_exec(
                t[e1 + 1],
            );
            let e = if fractional {
                crate::extract::digit_run_end_exec(t, e1 + 1)
            } else {
                e1
            };
            proof {
                crate::extract::lemma_digit_run_end_facts(t@, k as int);
                assert(e == crate::extract::ch_number_end(t@, k as int));
                let s = t@.subrange(k as int, e as int);
                crate::extract::lemma_digit_run_end_from(s, 0, e1 - k);
                assert(s.take(e1 - k) =~= t@.subrange(k as int, e1 as int));
                if fractional {
                    crate::extract::lemma_digit_run_end_facts(t@, e1 + 1);
                    assert(s.skip(e1 - k + 1) =~= t@.subrange(e1 + 1, e as int));
                }
            }
            return Some((k, e));
        }
        i += 1;
    }
    None
}

/// Digit range of the leftmost `ss` capture.
fn scan_ss_capture(t: &Vec<char>) -> (r: Option<(usize, usize)>)
    ensures
        match r {
            Some(p) => {
                let s = t@.subrange(p.0 as int, p.1 as int);
                &&& p.0 <= p.1 <= t@.len()
                &&& ss_capture_from(t@, 0) == Some(s)
                &&& crate::extract::all_digits(s)
            },
            None => ss_capture_from(t@, 0) is None,
        },
{
    let n = t.len();
    let mut i: usize = 0;
    while i < n
        invariant
            i <= n,
            n == t@.len(),
            ss_capture_from(t@, 0) == ss_capture_from(t@, i as int),
        decreases n - i,
    {
        if n - i > 2 && t[i] == 's' && t[i + 1] == 's' && crate::text::is_digit_exec(t[i + 2]) {
            let e = crate::extract::digit_run_end_exec(t, i + 2);
            proof {
                crate::extract::lemma_digit_run_end_facts(t@, i + 2);
                assert(crate::extract::all_digits(t@.subrange(i + 2, e as int)));
            }
            return Some((i + 2, e));
        }
        i += 1;
    }
    None
}

/// The character of one decimal digit value.
pub open spec fn digit_char(d: int) -> char {
    (('0' as u32) + d) as char
}

/// The decimal digits of a non-negative number, most significant first.
pub open spec fn dec_digits(n: int) -> Seq<char>
    decreases n when n >= 0
{
    if n < 10 {
        seq![digit_char(n)]
    } else {
        dec_digits(n / 10).push(digit_char(n % 10))
    }
}

/// A chapter count in hundredths, rendered with as many fraction digits as
/// carry weight: none, one, or two.
pub open spec fn chapter_digits(h: int) -> Seq<char> {
    if h % 100 == 0 {
        dec_digits(h / 100)
    } else if h % 10 == 0 {
        dec_digits(h / 100) + seq!['.', digit_char((h / 10) % 10)]
    } else {
        dec_digits(h / 100) + seq!['.', digit_char((h / 10) % 10), digit_char(h % 10)]
    }
}

/// A chapter count in hundredths, rendered with at most one fraction digit
/// (further digits truncated): the short form shown in list columns.
pub open spec fn chapter_one_decimal(h: int) -> Seq<char> {
    if h % 100 == 0 {
        dec_digits(h / 100)
    } else {
        dec_digits(h / 100) + seq!['.', digit_char((h / 10) % 10)]
    }
}

/// The compact amount notation: `v` + volumes, `c` + chapters, `ss` + side
/// stories, each part left out when zero; the pretty form puts one space
/// between the slots.
pub open spec fn amount_string_spec(a: NovelContentAmount, pretty: bool) -> Seq<char> {
    let v = if a.volumes > 0 {
        seq!['v'] + dec_digits(a.volumes as int)
    } else {
        Seq::<char>::empty()
    };
    let c = if a.chapters > 0 {
        seq!['c'] + chapter_digits(a.chapters as int)
    } else {
        Seq::<char>::empty()
    };
    let s = if a.side_stories > 0 {
        seq!['s', 's'] + dec_digits(a.side_stories as int)
    } else {
        Seq::<char>::empty()
    };
    if pretty {
        v + seq![' '] + c + seq![' '] + s
    } else {
        v + c + s
    }
}

/// The leftmost `v` immediately followed by digits, at or after `i`: the
/// digits.
pub open spec fn v_capture_from(t: Seq<char>, i: int) -> Option<Seq<char>>
    decreases t.len() - i when 0 <= i <= t.len()
{
    if i >= t.len() {
        None
    } else if t[i] == 'v' && crate::extract::digits_at(t, i + 1) {
        Some(t.subrange(i + 1, crate::extract::digit_run_end(t, i + 1)))
    } else {
        v_capture_from(t, i + 1)
    }
}

/// The leftmost `c` immediately followed by digits, at or after `i`: the
/// number, fractional part included.
pub open spec fn c_capture_from(t: Seq<char>, i: int) -> Option<Seq<char>>
    decreases t.len() - i when 0 <= i <= t.len()
{
    if i >= t.len() {
        None
    } else if t[i] == 'c' && crate::extract::digits_at(t, i + 1) {
        Some(t.subrange(i + 1, crate::extract::ch_number_end(t, i + 1)))
    } else {
        c_capture_from(t, i + 1)
    }
}

/// The leftmost `ss` immediately followed by digits, at or after `i`: the
/// digits.
pub open spec fn ss_capture_from(t: Seq<char>, i: int) -> Option<Seq<char>>
    decreases t.len() - i when 0 <= i <= t.len()
{
    if i >= t.len() {
        None
    } else if i + 2 < t.len() && t[i] == 's' && t[i + 1] == 's' && crate::extract::digits_at(
        t,
        i + 2,
    ) {
        Some(t.subrange(i + 2, crate::extract::digit_run_end(t, i + 2)))
    } else {
        ss_capture_from(t, i + 1)
    }
}

/// The amounts read from compact notation, on the lowercased input:
/// each slot is the leftmost capture of its marker, zero when the marker is
/// absent or its number does not fit.
pub open spec fn amount_from_string_spec(s: Seq<char>) -> NovelContentAmount {
    let t = crate::text::lower_of(s);
    NovelContentAmount {
        volumes: match v_capture_from(t, 0) {
            Some(d) => match crate::extract::parse_i32_spec(d) {
                Some(v) => v,
                None => 0,
            },
            None => 0,
        },
        chapters: match c_capture_from(t, 0) {
            Some(d) => match crate::extract::ch_value_spec(d) {
                Some(v) => v,
                None => 0,
            },
            None => 0,
        },
        side_stories: match ss_capture_from(t, 0) {
            Some(d) => match crate::extract::parse_i32_spec(d) {
                Some(v) => v,
                None => 0,
            },
            None => 0,
        },
    }
}

/// Per-novel settings the recognition engine reads and updates.
pub struct NovelSettings {
    /// Current list bucket.
    pub list_status: ListStatus,
    /// Recorded progress.
    pub content_read: NovelContentAmount,
    /// Keywords that recognition matches against window titles.
    pub window_titles: Option<Vec<String>>,
    /// Whether the novel is being read again.
    pub rereading: bool,
    /// When the recorded progress last changed.
    pub last_updated: i64,
}

/// Mathematical value of a novel's settings.
pub struct NovelSettingsV {
    pub list_status: ListStatus,
    pub content_read: NovelContentAmount,
    pub window_titles: Option<Seq<Seq<char>>>,
    pub rereading: bool,
    pub last_updated: i64,
}

impl View for NovelSettings {
    type V = NovelSettingsV;

    open spec fn view(&self) -> NovelSettingsV {
        NovelSettingsV {
            list_status: self.list_status,
            content_read: self.content_read,
            window_titles: match self.window_titles {
                Some(ks) => Some(views(ks@)),
                None => None,
            },
            rereading: self.rereading,
            last_updated: self.last_updated,
        }
    }
}

/// One novel of the library.
pub struct Novel {
    /// Stable identifier.
    pub id: String,
    /// Title, the primary recognition key.
    pub title: String,
    /// Available totals in the original language.
    pub content: NovelContentAmount,
    /// Publication status.
    pub status: NovelStatus,
    /// Local settings: list position, recorded progress, keywords.
    pub settings: NovelSettings,
}

/// Mathematical value of a novel.
pub struct NovelV {
    pub id: Seq<char>,
    pub title: Seq<char>,
    pub content: NovelContentAmount,
    pub status: NovelStatus,
    pub settings: NovelSettingsV,
}

impl View for Novel {
    type V = NovelV;

    open spec fn view(&self) -> NovelV {
        NovelV {
            id: self.id@,
            title: self.title@,
            content: self.content,
            status: self.status,
            settings: self.settings@,
        }
    }
}

impl Novel {
    /// Recorded progress and available totals are non-negative.
    pub open spec fn wf(&self) -> bool {
        self.content.wf() && self.settings.content_read.wf()
    }

    /// The displayed title: prefixed with `[R] ` when the novel is being
    /// reread.
    pub fn title(&self) -> (r: String)
        ensures
            self.settings.rereading ==> r@ == "[R] "@ + self.title@,
            !self.settings.rereading ==> r@ == self.title@,
    {
        if self.settings.rereading {
            let prefix = String::from_str("[R] ");
            prefix.concat(self.title.as_str())
        } else {
            crate::recognition::copy_string(&self.title)
        }
    }

    /// The read chapter count as a short string: whole chapters without a
    /// fraction, fractional chapters with one fraction digit (further
    /// digits truncated).
    pub fn chapters_read_str(&self) -> (r: String)
        requires
            self.settings.content_read.chapters >= 0,
        ensures
            r@ == chapter_one_decimal(self.settings.content_read.chapters as int),
    {
        let h = self.settings.content_read.chapters;
        let mut out: Vec<char> = Vec::new();
        push_dec(&mut out, (h / 100) as u64);
        if h % 100 != 0 {
            out.push('.');
            out.push(digit_char_exec(((h / 10) % 10) as u64));
        }
        proof {
            assert(out@ =~= chapter_one_decimal(h as int));
        }
        crate::text::from_chars(&out)
    }

    /// A field-by-field copy.
    pub fn duplicate(&self) -> (r: Novel)
        ensures
            r@ == self@,
            r.wf() == self.wf(),
    {
        let window_titles = match &self.settings.window_titles {
            Some(ks) => {
                let mut out: Vec<String> = Vec::new();
                let mut i: usize = 0;
                while i < ks.len()
                    invariant
                        i <= ks@.len(),
                        views(out@) == views(ks@).subrange(0, i as int),
                    decreases ks@.len() - i,
                {
                    let ghost prev = out@;
                    let c = crate::recognition::copy_string(&ks[i]);
                    out.push(c);
                    i += 1;
                    proof {
                        assert(out@ == prev.push(c));
                        assert(views(prev.push(c)) =~= views(prev).push(c@));
                        assert(views(out@) =~= views(ks@).subrange(0, i as int));
                    }
                }
                proof {
                    assert(views(ks@).subrange(0, ks@.len() as int) =~= views(ks@));
                }
                Some(out)
            },
            None => None,
        };
        Novel {
            id: crate::recognition::copy_string(&self.id),
            title: crate::recognition::copy_string(&self.title),
            content: self.content,
            status: self.status,
            settings: NovelSettings {
                list_status: self.settings.list_status,
                content_read: self.settings.content_read,
                window_titles,
                rereading: self.settings.rereading,
                last_updated: self.settings.last_updated,
            },
        }
    }
}

/// A request to record read content for one novel.
pub struct ChapterRead {
    pub volume: i32,
    pub chapter: i64,
    pub side: i32,
    /// A deliberate manual edit: the new values replace the stored ones
    /// unconditionally.
    pub exact_num: bool,
    pub novel: Novel,
}

} // verus!
