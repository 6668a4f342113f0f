//! The recognition state machine and the poll-tick title filter.
//!
//! Each poll tick scans the open window titles in order: a title holding an
//! ignore keyword aborts the whole scan, otherwise the first title matching
//! an include keyword becomes the tick's candidate. An include keyword may
//! hold the placeholders `<num>` (one or more digits) and `<any>` (one
//! character or nothing); such a keyword matches anywhere in the title,
//! case-sensitively, while a plain keyword matches as a case-insensitive
//! substring.

use vstd::prelude::*;

use crate::db::ws_tokens;
use crate::novel::NovelV;
use crate::recognition::{NovelRecognitionData, NovelRecognitionDataV};
use crate::settings::NovelRecognitionSettings;
use crate::text::{contains_chars, contains_seq, has_at, is_digit, is_digit_exec,
    lower_chars_of, lower_of, to_chars};
use crate::title::views;

verus! {

/// One piece of an include-keyword pattern: a literal run, `<num>` or
/// `<any>`.
pub enum PatPiece {
    Lit(Vec<char>),
    Num,
    Any,
}

/// Mathematical value of a pattern piece.
pub enum PatPieceV {
    Lit(Seq<char>),
    Num,
    Any,
}

impl View for PatPiece {
    type V = PatPieceV;

    open spec fn view(&self) -> PatPieceV {
        match self {
            PatPiece::Lit(l) => PatPieceV::Lit(l@),
            PatPiece::Num => PatPieceV::Num,
            PatPiece::Any => PatPieceV::Any,
        }
    }
}

/// The values of a parsed pattern.
pub open spec fn pviews(ps: Seq<PatPiece>) -> Seq<PatPieceV> {
    ps.map_values(|p: PatPiece| p@)
}

/// Joins a character onto the front of a parsed pattern, merging it into a
/// leading literal when one is there.
pub open spec fn pat_cons(c: char, rest: Seq<PatPieceV>) -> Seq<PatPieceV> {
    if rest.len() > 0 && rest[0] is Lit {
        seq![PatPieceV::Lit(seq![c] + rest[0]->Lit_0)] + rest.skip(1)
    } else {
        seq![PatPieceV::Lit(seq![c])] + rest
    }
}

/// The placeholder `<num>` stands at `i`.
pub open spec fn num_tag_at(s: Seq<char>, i: int) -> bool {
    0 <= i && i + 5 <= s.len() && s[i] == '<' && s[i + 1] == 'n' && s[i + 2] == 'u' && s[i + 3]
        == 'm' && s[i + 4] == '>'
}

/// The placeholder `<any>` stands at `i`.
pub open spec fn any_tag_at(s: Seq<char>, i: int) -> bool {
    0 <= i && i + 5 <= s.len() && s[i] == '<' && s[i + 1] == 'a' && s[i + 2] == 'n' && s[i + 3]
        == 'y' && s[i + 4] == '>'
}

/// The parsed form of an include keyword: literal runs and placeholders,
/// in order.
pub open spec fn parse_pat(s: Seq<char>) -> Seq<PatPieceV>
    decreases s.len(),
{
    if s.len() == 0 {
        Seq::empty()
    } else if num_tag_at(s, 0) {
        seq![PatPieceV::Num] + parse_pat(s.skip(5))
    } else if any_tag_at(s, 0) {
        seq![PatPieceV::Any] + parse_pat(s.skip(5))
    } else {
        pat_cons(s[0], parse_pat(s.skip(1)))
    }
}

/// The pieces `items[k..]` match the text at position `i`: a literal must
/// stand there exactly, `<num>` covers one or more digits, `<any>` covers
/// one character or nothing.
pub open spec fn pat_match_from(items: Seq<PatPieceV>, k: int, t: Seq<char>, i: int) -> bool
    decreases t.len() - i, items.len() - k when 0 <= k <= items.len() && 0 <= i <= t.len()
{
    if k >= items.len() {
        true
    } else {
        match items[k] {
            PatPieceV::Lit(l) => has_at(t, l, i) && pat_match_from(items, k + 1, t, i + l.len()),
            PatPieceV::Num => i < t.len() && is_digit(t[i]) && (pat_match_from(
                items,
                k + 1,
                t,
                i + 1,
            ) || pat_match_from(items, k, t, i + 1)),
            PatPieceV::Any => pat_match_from(items, k + 1, t, i) || (i < t.len() && pat_match_from(
                items,
                k + 1,
                t,
                i + 1,
            )),
        }
    }
}

/// The pattern matches somewhere in the text.
pub open spec fn pat_search(items: Seq<PatPieceV>, t: Seq<char>) -> bool {
    exists|s: int| 0 <= s <= t.len() && pat_match_from(items, 0, t, s)
}

/// An include keyword holding a placeholder.
pub open spec fn kw_is_pattern(kw: Seq<char>) -> bool {
    exists|i: int| num_tag_at(kw, i) || any_tag_at(kw, i)
}

/// One include keyword matches the title: by its pattern when it holds a
/// placeholder, as a case-insensitive substring otherwise.
pub open spec fn include_matches(title: Seq<char>, kw: Seq<char>) -> bool {
    if kw_is_pattern(kw) {
        pat_search(parse_pat(kw), title)
    } else {
        contains_seq(lower_of(title), lower_of(kw))
    }
}

/// Some include keyword matches the title.
pub open spec fn any_include(title: Seq<char>, kws: Seq<Seq<char>>) -> bool {
    exists|j: int| 0 <= j < kws.len() && include_matches(title, #[trigger] kws[j])
}

/// Some ignore keyword occurs in the title, ignoring case.
pub open spec fn any_ignore(title: Seq<char>, kws: Seq<Seq<char>>) -> bool {
    exists|j: int|
        0 <= j < kws.len() && contains_seq(lower_of(title), lower_of(#[trigger] kws[j]))
}

/// The candidate of one tick, scanning titles at or after `i`: an ignored
/// title aborts the whole scan, otherwise the first included title wins.
pub open spec fn select_title_from(
    titles: Seq<Seq<char>>,
    inc: Seq<Seq<char>>,
    ign: Seq<Seq<char>>,
    i: int,
) -> Option<Seq<char>>
    decreases titles.len() - i when 0 <= i <= titles.len()
{
    if i >= titles.len() {
        None
    } else if any_ignore(titles[i], ign) {
        None
    } else if any_include(titles[i], inc) {
        Some(titles[i])
    } else {
        select_title_from(titles, inc, ign, i + 1)
    }
}

/// The candidate title of one tick.
pub open spec fn select_title_spec(
    titles: Seq<Seq<char>>,
    inc: Seq<Seq<char>>,
    ign: Seq<Seq<char>>,
) -> Option<Seq<char>> {
    select_title_from(titles, inc, ign, 0)
}

/// A pending literal run, as the pattern pieces it will become.
pub open spec fn pat_flush(cur: Seq<char>) -> Seq<PatPieceV> {
    if cur.len() == 0 {
        Seq::empty()
    } else {
        seq![PatPieceV::Lit(cur)]
    }
}

/// The parse in mid-scan shape: finished pieces, then the pending literal
/// merged onto the parse of the rest.
pub open spec fn pat_merge(done: Seq<PatPieceV>, cur: Seq<char>, rest: Seq<PatPieceV>) -> Seq<
    PatPieceV,
> {
    if cur.len() == 0 {
        done + rest
    } else if rest.len() > 0 && rest[0] is Lit {
        done + (seq![PatPieceV::Lit(cur + rest[0]->Lit_0)] + rest.skip(1))
    } else {
        done + (seq![PatPieceV::Lit(cur)] + rest)
    }
}

proof fn lemma_pat_merge_cons(done: Seq<PatPieceV>, cur: Seq<char>, c: char, rest: Seq<PatPieceV>)
    ensures
        pat_merge(done, cur, pat_cons(c, rest)) == pat_merge(done, cur.push(c), rest),
{
    if rest.len() > 0 && rest[0] is Lit {
        assert((seq![c] + rest[0]->Lit_0).len() > 0);
        assert(cur + (seq![c] + rest[0]->Lit_0) =~= cur.push(c) + rest[0]->Lit_0);
        assert((seq![PatPieceV::Lit(seq![c] + rest[0]->Lit_0)] + rest.skip(1)).skip(1) =~= rest.skip(
            1,
        ));
        assert(pat_merge(done, cur, pat_cons(c, rest)) =~= pat_merge(done, cur.push(c), rest));
    } else {
        assert(cur + seq![c] =~= cur.push(c));
        assert((seq![PatPieceV::Lit(seq![c])] + rest).skip(1) =~= rest);
        assert(seq![c].len() > 0);
        assert(pat_merge(done, cur, pat_cons(c, rest)) =~= pat_merge(done, cur.push(c), rest));
    }
}

proof fn lemma_pat_merge_placeholder(
    done: Seq<PatPieceV>,
    cur: Seq<char>,
    p: PatPieceV,
    rest: Seq<PatPieceV>,
)
    requires
        !(p is Lit),
    ensures
        pat_merge(done, cur, seq![p] + rest) == pat_merge(done + pat_flush(cur) + seq![p],
            Seq::empty(),
            rest,
        ),
{
    assert((seq![p] + rest)[0] == p);
    if cur.len() == 0 {
        assert(done + (seq![p] + rest) =~= (done + pat_flush(cur) + seq![p]) + rest);
    } else {
        assert(done + (seq![PatPieceV::Lit(cur)] + (seq![p] + rest)) =~= (done + pat_flush(cur)
            + seq![p]) + rest);
    }
}

/// Parses an include keyword into literal runs and placeholders.
fn parse_pat_exec(kw: &Vec<char>) -> (r: Vec<PatPiece>)
    ensures
        pviews(r@) == parse_pat(kw@),
{
    let mut items: Vec<PatPiece> = Vec::new();
    let mut cur: Vec<char> = Vec::new();
    let mut i: usize = 0;
    let n = kw.len();
    proof {
        assert(kw@.skip(0) =~= kw@);
        assert(pat_merge(pviews(items@), cur@, parse_pat(kw@)) =~= parse_pat(kw@));
    }
    while i < n
        invariant
            i <= n,
            n == kw@.len(),
            parse_pat(kw@) == pat_merge(pviews(items@), cur@, parse_pat(kw@.skip(i as int))),
        decreases n - i,
    {
        let ghost rem = kw@.skip(i as int);
        let is_num = n - i >= 5 && kw[i] == '<' && kw[i + 1] == 'n' && kw[i + 2] == 'u' && kw[i + 3]
            == 'm' && kw[i + 4] == '>';
        let is_any = !is_num && n - i >= 5 && kw[i] == '<' && kw[i + 1] == 'a' && kw[i + 2] == 'n'
            && kw[i + 3] == 'y' && kw[i + 4] == '>';
        proof {
            assert(is_num == num_tag_at(rem, 0));
            assert(is_any == (!num_tag_at(rem, 0) && any_tag_at(rem, 0)));
        }
        if is_num || is_any {
            proof {
                assert(rem.skip(5) =~= kw@.skip(i + 5));
            }
            let piece = if is_num {
                PatPiece::Num
            } else {
                PatPiece::Any
            };
            let ghost done0 = pviews(items@);
            let ghost cur0 = cur@;
            let ghost pv = piece@;
            if cur.len() > 0 {
                let full = cur;
                cur = Vec::new();
                items.push(PatPiece::Lit(full));
            }
            items.push(piece);
            proof {
                assert(pviews(items@) =~= done0 + pat_flush(cur0) + seq![pv]);
                lemma_pat_merge_placeholder(done0, cur0, pv, parse_pat(kw@.skip(i + 5)));
                assert(parse_pat(rem) == seq![pv] + parse_pat(kw@.skip(i + 5)));
            }
            i += 5;
        } else {
            proof {
                assert(rem.len() > 0);
                assert(rem.skip(1) =~= kw@.skip(i + 1));
                assert(rem[0] == kw@[i as int]);
                lemma_pat_merge_cons(pviews(items@), cur@, kw@[i as int], parse_pat(
                    kw@.skip(i + 1),
                ));
            }
            cur.push(kw[i]);
            i += 1;
        }
    }
    proof {
        assert(kw@.skip(n as int) =~= Seq::<char>::empty());
        assert(parse_pat(Seq::<char>::empty()) =~= Seq::<PatPieceV>::empty());
    }
    let ghost done0 = pviews(items@);
    let ghost cur0 = cur@;
    if cur.len() > 0 {
        items.push(PatPiece::Lit(cur));
        proof {
            assert(pviews(items@) =~= done0.push(PatPieceV::Lit(cur0)));
            assert(pat_merge(done0, cur0, Seq::empty()) =~= done0.push(PatPieceV::Lit(cur0)));
        }
    } else {
        proof {
            assert(pat_merge(done0, cur0, Seq::empty()) =~= done0);
        }
    }
    items
}

/// Tries to match pieces `items[k..]` at position `i`, backtracking over
/// the lengths a `<num>` placeholder can cover.
fn pat_match_exec(items: &Vec<PatPiece>, k: usize, t: &Vec<char>, i: usize) -> (r: bool)
    requires
        k <= items@.len(),
        i <= t@.len(),
    ensures
        r == pat_match_from(pviews(items@), k as int, t@, i as int),
    decreases t@.len() - i, items@.len() - k,
{
    if k == items.len() {
        return true;
    }
    proof {
        assert(pviews(items@)[k as int] == items@[k as int]@);
    }
    match &items[k] {
        PatPiece::Lit(l) => {
            if crate::extract::has_at_exec(t, l, i) {
                let tl = t.len();
                proof {
                    assert(i + l@.len() <= tl);
                }
                pat_match_exec(items, k + 1, t, i + l.len())
            } else {
                false
            }
        },
        PatPiece::Num => {
            if i < t.len() && is_digit_exec(t[i]) {
                if pat_match_exec(items, k + 1, t, i + 1) {
                    true
                } else {
                    pat_match_exec(items, k, t, i + 1)
                }
            } else {
                false
            }
        },
        PatPiece::Any => {
            if pat_match_exec(items, k + 1, t, i) {
                true
            } else if i < t.len() {
                pat_match_exec(items, k + 1, t, i + 1)
            } else {
                false
            }
        },
    }
}

/// Does the pattern match anywhere in the text?
fn pat_search_exec(items: &Vec<PatPiece>, t: &Vec<char>) -> (r: bool)
    ensures
        r == pat_search(pviews(items@), t@),
{
    let n = t.len();
    let mut s: usize = 0;
    while s < n
        invariant
            s <= n,
            n == t@.len(),
            forall|x: int| 0 <= x < s ==> !pat_match_from(pviews(items@), 0, t@, x),
        decreases n - s,
    {
        if pat_match_exec(items, 0, t, s) {
            return true;
        }
        s += 1;
    }
    if pat_match_exec(items, 0, t, n) {
        return true;
    }
    proof {
        assert(forall|x: int|
            0 <= x <= t@.len() ==> !pat_match_from(pviews(items@), 0, t@, x));
    }
    false
}

/// Does the keyword hold a `<num>` or `<any>` placeholder?
fn kw_has_tag(kw: &Vec<char>) -> (r: bool)
    ensures
        r == kw_is_pattern(kw@),
{
    let n = kw.len();
    let mut i: usize = 0;
    while i < n
        invariant
            i <= n,
            n == kw@.len(),
            forall|x: int| 0 <= x < i ==> !num_tag_at(kw@, x) && !any_tag_at(kw@, x),
        decreases n - i,
    {
        if n - i >= 5 && kw[i] == '<' {
            if kw[i + 1] == 'n' && kw[i + 2] == 'u' && kw[i + 3] == 'm' && kw[i + 4] == '>' {
                proof {
                    assert(num_tag_at(kw@, i as int));
                }
                return true;
            }
            if kw[i + 1] == 'a' && kw[i + 2] == 'n' && kw[i + 3] == 'y' && kw[i + 4] == '>' {
                proof {
                    assert(any_tag_at(kw@, i as int));
                }
                return true;
            }
        }
        i += 1;
    }
    proof {
        assert(forall|x: int| !num_tag_at(kw@, x) && !any_tag_at(kw@, x));
    }
    false
}

/// Does some ignore keyword occur in the title, ignoring case?
fn ignore_hits(tlow: &Vec<char>, kws: &Vec<String>, ghost_title: Ghost<Seq<char>>) -> (r: bool)
    requires
        tlow@ == lower_of(ghost_title@),
    ensures
        r == any_ignore(ghost_title@, views(kws@)),
{
    let mut j: usize = 0;
    while j < kws.len()
        invariant
            j <= kws@.len(),
            tlow@ == lower_of(ghost_title@),
            forall|x: int|
                0 <= x < j ==> !contains_seq(lower_of(ghost_title@), lower_of(
                    #[trigger] views(kws@)[x],
                )),
        decreases kws@.len() - j,
    {
        let klow = lower_chars_of(kws[j].as_str());
        if contains_chars(tlow, &klow) {
            proof {
                assert(contains_seq(lower_of(ghost_title@), lower_of(views(kws@)[j as int])));
            }
            return true;
        }
        j += 1;
    }
    false
}

/// Does some include keyword match the title?
fn include_hits(tv: &Vec<char>, tlow: &Vec<char>, kws: &Vec<String>) -> (r: bool)
    requires
        tlow@ == lower_of(tv@),
    ensures
        r == any_include(tv@, views(kws@)),
{
    let mut j: usize = 0;
    while j < kws.len()
        invariant
            j <= kws@.len(),
            tlow@ == lower_of(tv@),
            forall|x: int| 0 <= x < j ==> !include_matches(tv@, #[trigger] views(kws@)[x]),
        decreases kws@.len() - j,
    {
        let kv = to_chars(kws[j].as_str());
        let hit = if kw_has_tag(&kv) {
            let items = parse_pat_exec(&kv);
            pat_search_exec(&items, tv)
        } else {
            let klow = lower_chars_of(kws[j].as_str());
            contains_chars(tlow, &klow)
        };
        proof {
            assert(hit == include_matches(tv@, views(kws@)[j as int]));
        }
        if hit {
            return true;
        }
        j += 1;
    }
    false
}

/// Picks the candidate title of one poll tick: titles are scanned in order,
/// a title holding an ignore keyword aborts the whole scan, and the first
/// title matching an include keyword wins.
pub fn select_title(titles: &Vec<String>, settings: &NovelRecognitionSettings) -> (r: Option<
    String,
>)
    ensures
        ({
            let sel = select_title_spec(
                views(titles@),
                views(settings.title_keywords@),
                views(settings.ignore_keywords@),
            );
            match r {
                Some(t) => sel == Some(t@),
                None => sel is None,
            }
        }),
{
    let ghost ts = views(titles@);
    let ghost inc = views(settings.title_keywords@);
    let ghost ign = views(settings.ignore_keywords@);
    let mut i: usize = 0;
    while i < titles.len()
        invariant
            i <= titles@.len(),
            ts == views(titles@),
            inc == views(settings.title_keywords@),
            ign == views(settings.ignore_keywords@),
            select_title_spec(ts, inc, ign) == select_title_from(ts, inc, ign, i as int),
        decreases titles@.len() - i,
    {
        let tv = to_chars(titles[i].as_str());
        let tlow = lower_chars_of(titles[i].as_str());
        proof {
            assert(tv@ == ts[i as int]);
        }
        if ignore_hits(&tlow, &settings.ignore_keywords, Ghost(tv@)) {
            return None;
        }
        if include_hits(&tv, &tlow, &settings.title_keywords) {
            return Some(crate::recognition::copy_string(&titles[i]));
        }
        i += 1;
    }
    None
}

/// The in-memory state of the recognition state machine: the tentatively
/// identified novel, the dedupe key of the last processed title, and the
/// confirmation deadline with its consumed flag.
pub struct CurrentlyReading {
    /// Id of the candidate novel, when one is held.
    pub novel_id: Option<String>,
    /// Dedupe key of the last title processed: the sanitized title plus
    /// whether a novel was found for it.
    pub title_key: Option<String>,
    /// The instant from which a commit is allowed, when a candidate is
    /// waiting out the confirmation delay.
    pub deadline: Option<i64>,
    /// The deadline was already used to commit.
    pub deadline_consumed: bool,
}

/// Mathematical value of the state machine's state.
#[verifier::ext_equal]
pub struct CurrentlyReadingV {
    pub novel_id: Option<Seq<char>>,
    pub title_key: Option<Seq<char>>,
    pub deadline: Option<i64>,
    pub deadline_consumed: bool,
}

impl View for CurrentlyReading {
    type V = CurrentlyReadingV;

    open spec fn view(&self) -> CurrentlyReadingV {
        CurrentlyReadingV {
            novel_id: match self.novel_id {
                Some(ref id) => Some(id@),
                None => None,
            },
            title_key: match self.title_key {
                Some(ref k) => Some(k@),
                None => None,
            },
            deadline: self.deadline,
            deadline_consumed: self.deadline_consumed,
        }
    }
}

impl CurrentlyReading {
    /// The empty state: nothing recognized yet.
    pub fn new() -> (r: CurrentlyReading)
        ensures
            r@ == (CurrentlyReadingV {
                novel_id: None,
                title_key: None,
                deadline: None,
                deadline_consumed: false,
            }),
    {
        CurrentlyReading { novel_id: None, title_key: None, deadline: None, deadline_consumed: false }
    }
}

/// A side effect the caller must carry out after one tick.
pub enum Command {
    /// Show that nothing is being read.
    PublishNotReading,
    /// Show the recognition result, with the resolved novel when one was
    /// found.
    PublishReading { novel: Option<crate::novel::Novel>, novel_name: String, data: NovelRecognitionData },
    /// Offer suggestions for an unrecognized title.
    PublishSuggestions { keyword: String, candidates: Vec<crate::novel::Novel> },
    /// Jump to the reading view.
    NavigateToReadingView,
}

/// Mathematical value of a command.
#[verifier::ext_equal]
pub enum CommandV {
    PublishNotReading,
    PublishReading { novel: Option<NovelV>, novel_name: Seq<char>, data: NovelRecognitionDataV },
    PublishSuggestions { keyword: Seq<char>, candidates: Seq<NovelV> },
    NavigateToReadingView,
}

impl View for Command {
    type V = CommandV;

    open spec fn view(&self) -> CommandV {
        match self {
            Command::PublishNotReading => CommandV::PublishNotReading,
            Command::PublishReading { novel, novel_name, data } => CommandV::PublishReading {
                novel: match novel {
                    Some(n) => Some(n@),
                    None => None,
                },
                novel_name: novel_name@,
                data: data@,
            },
            Command::PublishSuggestions { keyword, candidates } => CommandV::PublishSuggestions {
                keyword: keyword@,
                candidates: crate::db::nviews(candidates@),
            },
            Command::NavigateToReadingView => CommandV::NavigateToReadingView,
        }
    }
}

/// The values of a command list.
pub open spec fn cviews(cs: Seq<Command>) -> Seq<CommandV> {
    cs.map_values(|c: Command| c@)
}

/// The view of an optional title string.
pub open spec fn opt_view(o: Option<String>) -> Option<Seq<char>> {
    match o {
        Some(s) => Some(s@),
        None => None,
    }
}

/// The token list a raw title yields: absent when nothing is open or when
/// the sanitized title has no delimiter.
pub open spec fn tick_tokens(o: Option<Seq<char>>) -> Option<Seq<Seq<char>>> {
    match o {
        None => None,
        Some(t) => crate::title::tokens_spec(crate::title::sanitize_seq(t)),
    }
}

/// The tick resolves some novel: a token resolves directly, or the guessed
/// novel name does (when a name was guessed at all). Whether a novel is
/// found is a function of the library and the tokens, though in the fuzzy
/// tier which novel it is can be left open by a similarity tie.
pub open spec fn tick_found(ns: Seq<NovelV>, ts: Seq<Seq<char>>) -> bool {
    match crate::db::first_match_token(ns, ts) {
        Some(_) => true,
        None => {
            let name = crate::recognition::novel_name_spec(ts);
            name != "?"@ && crate::db::has_window_title_match(ns, name)
        },
    }
}

/// `n` is a novel the tick may resolve: admissible for the first resolving
/// token, or for the guessed name when no token resolves.
pub open spec fn tick_resolved_ok(ns: Seq<NovelV>, ts: Seq<Seq<char>>, n: NovelV) -> bool {
    match crate::db::first_match_token(ns, ts) {
        Some(j) => crate::db::window_title_match_ok(ns, ts[j], n),
        None => {
            let name = crate::recognition::novel_name_spec(ts);
            name != "?"@ && crate::db::window_title_match_ok(ns, name, n)
        },
    }
}

/// The display name of the tick: `"?"` when a token resolved the novel
/// directly, the guessed novel name otherwise.
pub open spec fn guessed_name(ns: Seq<NovelV>, ts: Seq<Seq<char>>) -> Seq<char> {
    if crate::db::first_match_token(ns, ts) is Some {
        "?"@
    } else {
        crate::recognition::novel_name_spec(ts)
    }
}

/// The dedupe key of one tick: the sanitized title joined with whether a
/// novel was found.
pub open spec fn key_of(t: Seq<char>, found: bool) -> Seq<char> {
    if found {
        t + "-true"@
    } else {
        t + "-false"@
    }
}

/// The keyword under which suggestions are offered: the first word of the
/// guessed name, or empty when it has none.
pub open spec fn suggestion_keyword(name: Seq<char>) -> Seq<char> {
    if ws_tokens(name).len() > 0 {
        ws_tokens(name)[0]
    } else {
        ""@
    }
}

/// The tick asks for the reading view when a novel was found and the
/// settings say so, or when none was and they say so for that case.
pub open spec fn navigate_cond(found: bool, s: &NovelRecognitionSettings) -> bool {
    (found && s.when_novel_go_to_reading) || (!found && s.when_not_novel_go_to_reading)
}

/// The commands of a tick that processed tokens: suggestions when no novel
/// was found; then, unless the title repeats the previous tick's, the
/// display update and possibly the jump to the reading view.
pub open spec fn tick_commands(
    found: Option<NovelV>,
    name: Seq<char>,
    data: NovelRecognitionDataV,
    suggestions: Seq<NovelV>,
    already: bool,
    s: &NovelRecognitionSettings,
) -> Seq<CommandV> {
    (if found is None {
        seq![
            CommandV::PublishSuggestions { keyword: suggestion_keyword(name), candidates: suggestions },
        ]
    } else {
        Seq::empty()
    }) + (if !already {
        seq![CommandV::PublishReading { novel: found, novel_name: name, data }] + (if navigate_cond(
            found is Some,
            s,
        ) {
            seq![CommandV::NavigateToReadingView]
        } else {
            Seq::empty()
        })
    } else {
        Seq::empty()
    })
}

/// Clears the state on a tick that saw no recognizable title; repeated such
/// ticks after the first are no-ops.
fn not_reading_tick(state: &mut CurrentlyReading) -> (r: Vec<Command>)
    ensures
        old(state)@.title_key is None ==> final(state)@ == old(state)@ && cviews(r@)
            == Seq::<CommandV>::empty(),
        old(state)@.title_key is Some ==> final(state)@ == (CurrentlyReadingV {
            novel_id: None,
            title_key: None,
            deadline: None,
            deadline_consumed: true,
        }) && cviews(r@) == seq![CommandV::PublishNotReading],
{
    let mut r: Vec<Command> = Vec::new();
    if state.title_key.is_none() {
        proof {
            assert(cviews(r@) =~= Seq::<CommandV>::empty());
        }
        return r;
    }
    state.title_key = None;
    state.novel_id = None;
    state.deadline = None;
    state.deadline_consumed = true;
    r.push(Command::PublishNotReading);
    proof {
        assert(cviews(r@) =~= seq![CommandV::PublishNotReading]);
    }
    r
}

/// One tick of the recognition state machine.
///
/// The raw window title is sanitized and tokenized; an unrecognizable title
/// clears the state (once). Otherwise the tokens are matched against the
/// library; a changed candidate replaces the held one; a title identical to
/// the last tick's whose commit already happened is a pure no-op. A found
/// novel first waits out the confirmation delay, measured from the tick
/// that set the deadline, and is committed on the first tick at or past it;
/// an unrecognized title yields suggestions instead. Display and navigation
/// commands are emitted unless the title repeats the previous tick's.
pub fn reading_recognition(
    state: &mut CurrentlyReading,
    db: &mut crate::db::NovelDb,
    settings: &NovelRecognitionSettings,
    now: i64,
    window_title: Option<String>,
) -> (r: Vec<Command>)
    requires
        old(db).wf(),
        settings.wf(),
        0 <= now <= 0x7fff_0000_0000_0000,
    ensures
        final(db).wf(),
        tick_tokens(opt_view(window_title)) is None && old(state)@.title_key is None ==> final(state)@ == old(state)@ && final(db)@ == old(db)@ && cviews(r@) == Seq::<CommandV>::empty(),
        tick_tokens(opt_view(window_title)) is None && old(state)@.title_key is Some ==> final(state)@ == (CurrentlyReadingV {
            novel_id: None,
            title_key: None,
            deadline: None,
            deadline_consumed: true,
        }) && final(db)@ == old(db)@ && cviews(r@) == seq![CommandV::PublishNotReading],
        tick_tokens(opt_view(window_title)) matches Some(ts) ==> ({
            let t = crate::title::sanitize_seq(opt_view(window_title)->Some_0);
            let fs = tick_found(old(db)@, ts);
            let name = guessed_name(old(db)@, ts);
            let key = key_of(t, fs);
            let already = old(state)@.title_key == Some(key);
            &&& final(state)@.title_key == Some(key)
            &&& (already && old(state)@.deadline_consumed ==> final(state)@.deadline == old(state)@.deadline && final(state)@.deadline_consumed && final(db)@ == old(db)@ && cviews(r@)
                == Seq::<CommandV>::empty())
            &&& (!fs ==> {
                &&& final(state)@.novel_id is None
                &&& (!(already && old(state)@.deadline_consumed) ==> {
                    &&& final(state)@.deadline == old(state)@.deadline
                    &&& final(state)@.deadline_consumed == old(state)@.deadline_consumed
                    &&& final(db)@ == old(db)@
                    &&& cviews(r@) == tick_commands(
                        None,
                        name,
                        crate::recognition::data_spec(ts),
                        crate::db::find_potential_novels_spec(old(db)@, name),
                        already,
                        settings,
                    )
                })
            })
            &&& (fs ==> exists|n: NovelV|
                #[trigger] tick_resolved_ok(old(db)@, ts, n) && {
                    &&& final(state)@.novel_id == Some(n.id)
                    &&& (!(already && old(state)@.deadline_consumed) ==> {
                        &&& (old(state)@.deadline is None ==> final(state)@.deadline == Some(
                            (now + settings.delay) as i64,
                        ) && !final(state)@.deadline_consumed && final(db)@ == old(db)@)
                        &&& ((old(state)@.deadline matches Some(d) && now >= d) ==> ({
                            let updated = crate::chapter_read::chapter_read_spec(
                                n,
                                crate::recognition::data_spec(ts).volume,
                                crate::recognition::data_spec(ts).chapter,
                                crate::recognition::data_spec(ts).side_story,
                                false,
                                settings.chapter_read_preference,
                                settings.autocomplete_ongoing,
                                now,
                            );
                            &&& final(state)@.deadline is None
                            &&& final(state)@.deadline_consumed
                            &&& match crate::db::index_of_id_spec(old(db)@, n.id) {
                                Some(idx) => final(db)@ == old(db)@.update(idx, updated),
                                None => final(db)@ == old(db)@,
                            }
                        }))
                        &&& ((old(state)@.deadline matches Some(d) && now < d) ==> final(state)@.deadline == old(state)@.deadline && final(state)@.deadline_consumed == old(state)@.deadline_consumed && final(db)@ == old(db)@)
                        &&& cviews(r@) == tick_commands(
                            Some(n),
                            name,
                            crate::recognition::data_spec(ts),
                            crate::db::find_potential_novels_spec(old(db)@, name),
                            already,
                            settings,
                        )
                    })
                })
        }),
{
    let cleaned = crate::title::sanitize(window_title);
    match cleaned {
        None => not_reading_tick(state),
        Some(cleaned_s) => {
            let tokens_opt = crate::title::tokenize(cleaned_s.as_str());
            match tokens_opt {
                None => not_reading_tick(state),
                Some(tokens) => {
                    let ghost ts = views(tokens@);
                    let data = crate::recognition::extract_novel_data_from_title(&tokens);
                    let mut novel = db.find_novel_from_title(&tokens);
                    let mut novel_title = String::from_str("?");
                    if novel.is_none() {
                        novel_title = crate::recognition::extract_novel_name_from_title(&tokens);
                        let q = String::from_str("?");
                        if !(novel_title == q) {
                            novel = db.find_novel_by_window_title(novel_title.as_str());
                        }
                    }
                    proof {
                        match novel {
                            Some(ref n) => {
                                assert(tick_found(db@, ts));
                                assert(tick_resolved_ok(db@, ts, n@));
                            },
                            None => assert(!tick_found(db@, ts)),
                        }
                        assert(novel_title@ == guessed_name(db@, ts));
                    }
                    let same = match (&novel, &state.novel_id) {
                        (Some(n), Some(id)) => n.id == *id,
                        (None, None) => true,
                        _ => false,
                    };
                    if !same {
                        state.novel_id = match &novel {
                            Some(n) => Some(crate::recognition::copy_string(&n.id)),
                            None => None,
                        };
                    }
                    proof {
                        match novel {
                            Some(ref n) => assert(state@.novel_id == Some(n@.id)),
                            None => assert(state@.novel_id is None),
                        }
                    }
                    let key = if novel.is_some() {
                        crate::recognition::copy_string(&cleaned_s).concat("-true")
                    } else {
                        crate::recognition::copy_string(&cleaned_s).concat("-false")
                    };
                    proof {
                        assert(key@ == key_of(cleaned_s@, tick_found(db@, ts)));
                    }
                    let already = match &state.title_key {
                        Some(k) => *k == key,
                        None => false,
                    };
                    state.title_key = Some(key);
                    if already && state.deadline_consumed {
                        let r: Vec<Command> = Vec::new();
                        proof {
                            assert(cviews(r@) =~= Seq::<CommandV>::empty());
                        }
                        return r;
                    }
                    let mut cmds: Vec<Command> = Vec::new();
                    let found_some = novel.is_some();
                    match &novel {
                        Some(n) => {
                            match state.deadline {
                                Some(d) => {
                                    if now >= d {
                                        let _updated = db.reading_novel(
                                            n,
                                            &data,
                                            false,
                                            settings.chapter_read_preference,
                                            settings.autocomplete_ongoing,
                                            now,
                                        );
                                        state.deadline = None;
                                        state.deadline_consumed = true;
                                    }
                                },
                                None => {
                                    state.deadline = Some(now + settings.delay);
                                    state.deadline_consumed = false;
                                },
                            }
                        },
                        None => {
                            let potentials = db.find_potential_novels(novel_title.as_str());
                            let toks = crate::db::ws_split(novel_title.as_str());
                            let keyword = if toks.len() > 0 {
                                crate::recognition::copy_string(&toks[0])
                            } else {
                                String::from_str("")
                            };
                            proof {
                                if ws_tokens(novel_title@).len() > 0 {
                                    assert(views(toks@)[0] == toks@[0]@);
                                } else {
                                    reveal_strlit("");
                                }
                                assert(keyword@ == suggestion_keyword(novel_title@));
                            }
                            cmds.push(
                                Command::PublishSuggestions { keyword, candidates: potentials },
                            );
                        },
                    }
                    if already {
                        return cmds;
                    }
                    let ghost pre = cmds@;
                    cmds.push(
                        Command::PublishReading { novel, novel_name: novel_title, data },
                    );
                    let navigate = if found_some {
                        settings.when_novel_go_to_reading
                    } else {
                        settings.when_not_novel_go_to_reading
                    };
                    let ghost pre2 = cmds@;
                    if navigate {
                        cmds.push(Command::NavigateToReadingView);
                    }
                    proof {
                        assert(cviews(pre2) =~= cviews(pre).push(pre2[pre.len() as int]@));
                        if navigate {
                            assert(cviews(cmds@) =~= cviews(pre2).push(
                                CommandV::NavigateToReadingView,
                            ));
                        }
                    }
                    cmds
                },
            }
        },
    }
}

} // verus!
