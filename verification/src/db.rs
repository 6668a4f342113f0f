//! The novel library and the matcher that resolves a candidate title
//! string to a known novel.
//!
//! Resolution tries three tiers in strict order, stopping at the first hit:
//! exact title match (case-insensitive), exact keyword match against a
//! novel's recognition keywords, and a fuzzy bigram search over all titles
//! that is accepted only above a high similarity threshold.

use vstd::prelude::*;

use crate::novel::{Novel, NovelV};
use crate::text::{chars_eq, contains_chars, contains_seq, lower_chars_of, lower_of, to_chars};
use crate::title::views;
use crate::util::acronym_spec;

verus! {

/// A fuzzy match is accepted only above this similarity: the IEEE-754 bits
/// of `0.97`. Similarities are fractions in `[0, 1]`, and for such values
/// the order of their bit patterns agrees with their numeric order.
pub const SIMILARITY_THRESHOLD: u32 = 0x3f78_51ec;

/// The mathematical values of a novel list.
pub open spec fn nviews(ns: Seq<Novel>) -> Seq<NovelV> {
    ns.map_values(|n: Novel| n@)
}

/// The library of known novels.
pub struct NovelDb {
    pub novels: Vec<Novel>,
}

impl View for NovelDb {
    type V = Seq<NovelV>;

    open spec fn view(&self) -> Seq<NovelV> {
        nviews(self.novels@)
    }
}

impl NovelDb {
    /// Every record's amounts are non-negative.
    pub open spec fn wf(&self) -> bool {
        forall|i: int| 0 <= i < self.novels@.len() ==> (#[trigger] self.novels@[i]).wf()
    }

    pub fn new() -> (r: NovelDb)
        ensures
            r@ == Seq::<NovelV>::empty(),
            r.wf(),
    {
        let r = NovelDb { novels: Vec::new() };
        proof {
            assert(r@ =~= Seq::<NovelV>::empty());
        }
        r
    }
}

/// The first novel at or after `i` whose id is `id`.
pub open spec fn get_by_id_from(ns: Seq<NovelV>, id: Seq<char>, i: int) -> Option<NovelV>
    decreases ns.len() - i when 0 <= i <= ns.len()
{
    if i >= ns.len() {
        None
    } else if ns[i].id == id {
        Some(ns[i])
    } else {
        get_by_id_from(ns, id, i + 1)
    }
}

/// The first novel whose id is `id`.
pub open spec fn get_by_id_spec(ns: Seq<NovelV>, id: Seq<char>) -> Option<NovelV> {
    get_by_id_from(ns, id, 0)
}

/// The first novel at or after `i` whose title equals `t`, ignoring case.
pub open spec fn get_by_title_from(ns: Seq<NovelV>, t: Seq<char>, i: int) -> Option<NovelV>
    decreases ns.len() - i when 0 <= i <= ns.len()
{
    if i >= ns.len() {
        None
    } else if lower_of(ns[i].title) == lower_of(t) {
        Some(ns[i])
    } else {
        get_by_title_from(ns, t, i + 1)
    }
}

/// The first novel whose title equals `t`, ignoring case.
pub open spec fn get_by_title_spec(ns: Seq<NovelV>, t: Seq<char>) -> Option<NovelV> {
    get_by_title_from(ns, t, 0)
}

/// Some non-empty recognition keyword of the novel equals `t`, ignoring
/// case.
pub open spec fn keyword_matches(n: NovelV, t: Seq<char>) -> bool {
    match n.settings.window_titles {
        Some(ks) => exists|j: int|
            0 <= j < ks.len() && (#[trigger] ks[j]).len() > 0 && lower_of(ks[j]) == lower_of(t),
        None => false,
    }
}

/// The first novel at or after `i` with a keyword equal to `t`.
pub open spec fn get_by_keywords_from(ns: Seq<NovelV>, t: Seq<char>, i: int) -> Option<NovelV>
    decreases ns.len() - i when 0 <= i <= ns.len()
{
    if i >= ns.len() {
        None
    } else if keyword_matches(ns[i], t) {
        Some(ns[i])
    } else {
        get_by_keywords_from(ns, t, i + 1)
    }
}

/// The first novel with a recognition keyword equal to `t`.
pub open spec fn get_by_keywords_spec(ns: Seq<NovelV>, t: Seq<char>) -> Option<NovelV> {
    get_by_keywords_from(ns, t, 0)
}

/// The titles of the library, lowercased, in order: the corpus the fuzzy
/// search runs over.
pub open spec fn lowered_titles(ns: Seq<NovelV>) -> Seq<Seq<char>> {
    ns.map_values(|n: NovelV| lower_of(n.title))
}

/// The bigram similarity (padded, warp 2) of `title` and `query`, as the
/// IEEE-754 bits of a fraction in `[0, 1]`: a function of the two strings
/// alone. It is zero exactly when the padded strings share no bigram.
pub uninterp spec fn sim_of(title: Seq<char>, query: Seq<char>) -> u32;

/// Relies on ngrammatic's `CorpusBuilder` / `Corpus::search`: a bigram
/// similarity search (padded, warp 2) over the given titles. The top result
/// is one of the titles, carries its own similarity, and no title scores
/// higher; when two titles tie, which of them is reported is not
/// determined. An empty result means no title shares a bigram with the
/// query, that is, every similarity is zero. Similarities, fractions in
/// `[0, 1]`, cross as their IEEE-754 bits, whose order agrees with the
/// numeric order on such values.
#[verifier::external_body]
fn fuzzy_search_top(titles: &Vec<String>, query: &str) -> (r: Option<(String, u32)>)
    ensures
        match r {
            Some(p) => {
                &&& exists|i: int| 0 <= i < titles@.len() && views(titles@)[i] == p.0@
                &&& p.1 == sim_of(p.0@, query@)
                &&& forall|i: int|
                    0 <= i < titles@.len() ==> sim_of(#[trigger] views(titles@)[i], query@) <= p.1
            },
            None => forall|i: int|
                0 <= i < titles@.len() ==> sim_of(#[trigger] views(titles@)[i], query@) == 0,
        },
{
    let mut corpus = ngrammatic::CorpusBuilder::default().arity(2).pad_full(
        ngrammatic::Pad::Auto,
    ).finish();
    for t in titles.iter() {
        corpus.add_text(t);
    }
    let results = corpus.search(query, Default::default(), 10);
    results.into_iter().next().map(|res| (res.text, res.similarity.to_bits()))
}

/// The first novel at or after `i` whose lowercased title is exactly `t`.
pub open spec fn by_lowered_title_from(ns: Seq<NovelV>, t: Seq<char>, i: int) -> Option<NovelV>
    decreases ns.len() - i when 0 <= i <= ns.len()
{
    if i >= ns.len() {
        None
    } else if lower_of(ns[i].title) == t {
        Some(ns[i])
    } else {
        by_lowered_title_from(ns, t, i + 1)
    }
}

/// The first novel whose lowercased title is exactly `t`.
pub open spec fn by_lowered_title_spec(ns: Seq<NovelV>, t: Seq<char>) -> Option<NovelV> {
    by_lowered_title_from(ns, t, 0)
}

proof fn lemma_by_lowered_title_exists(ns: Seq<NovelV>, t: Seq<char>, j: int)
    requires
        0 <= j < ns.len(),
        lower_of(ns[j].title) == t,
    ensures
        by_lowered_title_spec(ns, t) is Some,
{
    lemma_by_lowered_title_exists_from(ns, t, j, 0);
}

proof fn lemma_by_lowered_title_exists_from(ns: Seq<NovelV>, t: Seq<char>, j: int, i: int)
    requires
        0 <= i <= j < ns.len(),
        lower_of(ns[j].title) == t,
    ensures
        by_lowered_title_from(ns, t, i) is Some,
    decreases j - i,
{
    if lower_of(ns[i].title) != t {
        lemma_by_lowered_title_exists_from(ns, t, j, i + 1);
    }
}

/// Some title's similarity to `q` is above the acceptance threshold.
pub open spec fn fuzzy_hit(ns: Seq<NovelV>, q: Seq<char>) -> bool {
    exists|j: int|
        0 <= j < ns.len() && sim_of(lower_of((#[trigger] ns[j]).title), q) > SIMILARITY_THRESHOLD
}

/// A candidate string resolves to some novel: by exact title, exact
/// keyword, or a fuzzy similarity above the threshold. Whether a match
/// exists is a function of the library and the string.
pub open spec fn has_window_title_match(ns: Seq<NovelV>, t: Seq<char>) -> bool {
    ||| get_by_title_spec(ns, t) is Some
    ||| get_by_keywords_spec(ns, t) is Some
    ||| fuzzy_hit(ns, t)
}

/// `n` is a novel the candidate string may resolve to: the exact title
/// match when there is one, else the exact keyword match, else the first
/// novel carrying a top-similarity title above the threshold. In the fuzzy
/// tier two titles can tie on similarity, so more than one novel can
/// satisfy this.
pub open spec fn window_title_match_ok(ns: Seq<NovelV>, t: Seq<char>, n: NovelV) -> bool {
    if get_by_title_spec(ns, t) is Some {
        get_by_title_spec(ns, t) == Some(n)
    } else if get_by_keywords_spec(ns, t) is Some {
        get_by_keywords_spec(ns, t) == Some(n)
    } else {
        exists|j: int|
            0 <= j < ns.len() && {
                let lt = lower_of((#[trigger] ns[j]).title);
                &&& sim_of(lt, t) > SIMILARITY_THRESHOLD
                &&& forall|k: int|
                    0 <= k < ns.len() ==> sim_of(lower_of((#[trigger] ns[k]).title), t) <= sim_of(
                        lt,
                        t,
                    )
                &&& by_lowered_title_spec(ns, lt) == Some(n)
            }
    }
}

/// Exact title strictly beats exact keyword, which strictly beats fuzzy: a
/// novel whose title equals the candidate is the only admissible result
/// even when another novel's keyword matches, and a keyword match is the
/// only admissible result whatever the fuzzy search would say.
pub proof fn lemma_match_precedence(ns: Seq<NovelV>, t: Seq<char>)
    ensures
        get_by_title_spec(ns, t) is Some ==> has_window_title_match(ns, t) && (forall|n: NovelV|
            #[trigger] window_title_match_ok(ns, t, n) <==> get_by_title_spec(ns, t) == Some(n)),
        (get_by_title_spec(ns, t) is None && get_by_keywords_spec(ns, t) is Some)
            ==> has_window_title_match(ns, t) && (forall|n: NovelV|
            #[trigger] window_title_match_ok(ns, t, n) <==> get_by_keywords_spec(ns, t) == Some(
                n,
            )),
{
}

/// When every title's similarity to the candidate stays at or below the
/// threshold, the fuzzy tier yields no match at all, not the nearest novel.
pub proof fn lemma_fuzzy_below_threshold(ns: Seq<NovelV>, t: Seq<char>)
    requires
        get_by_title_spec(ns, t) is None,
        get_by_keywords_spec(ns, t) is None,
        forall|j: int|
            0 <= j < ns.len() ==> sim_of(lower_of((#[trigger] ns[j]).title), t)
                <= SIMILARITY_THRESHOLD,
    ensures
        !has_window_title_match(ns, t),
{
}

impl NovelDb {
    /// The first novel whose id is `novel_id`.
    pub fn get_by_id(&self, novel_id: &str) -> (r: Option<Novel>)
        requires
            self.wf(),
        ensures
            match r {
                Some(n) => get_by_id_spec(self@, novel_id@) == Some(n@) && n.wf(),
                None => get_by_id_spec(self@, novel_id@) is None,
            },
    {
        let idv = to_chars(novel_id);
        let mut i: usize = 0;
        while i < self.novels.len()
            invariant
                i <= self.novels@.len(),
                idv@ == novel_id@,
                self.wf(),
                get_by_id_spec(self@, novel_id@) == get_by_id_from(self@, novel_id@, i as int),
            decreases self.novels@.len() - i,
        {
            let nv = to_chars(self.novels[i].id.as_str());
            if chars_eq(&nv, &idv) {
                return Some(self.novels[i].duplicate());
            }
            i += 1;
        }
        None
    }

    /// The first novel whose title equals `window_title`, ignoring case.
    pub fn get_by_title(&self, window_title: &str) -> (r: Option<Novel>)
        requires
            self.wf(),
        ensures
            match r {
                Some(n) => get_by_title_spec(self@, window_title@) == Some(n@) && n.wf(),
                None => get_by_title_spec(self@, window_title@) is None,
            },
    {
        let tlow = lower_chars_of(window_title);
        let mut i: usize = 0;
        while i < self.novels.len()
            invariant
                i <= self.novels@.len(),
                tlow@ == lower_of(window_title@),
                self.wf(),
                get_by_title_spec(self@, window_title@) == get_by_title_from(
                    self@,
                    window_title@,
                    i as int,
                ),
            decreases self.novels@.len() - i,
        {
            let nlow = lower_chars_of(self.novels[i].title.as_str());
            if chars_eq(&nlow, &tlow) {
                return Some(self.novels[i].duplicate());
            }
            i += 1;
        }
        None
    }

    /// The first novel with a non-empty recognition keyword equal to
    /// `window_title`, ignoring case.
    pub fn get_by_novel_keywords(&self, window_title: &str) -> (r: Option<Novel>)
        requires
            self.wf(),
        ensures
            match r {
                Some(n) => get_by_keywords_spec(self@, window_title@) == Some(n@) && n.wf(),
                None => get_by_keywords_spec(self@, window_title@) is None,
            },
    {
        let mut i: usize = 0;
        while i < self.novels.len()
            invariant
                i <= self.novels@.len(),
                self.wf(),
                get_by_keywords_spec(self@, window_title@) == get_by_keywords_from(
                    self@,
                    window_title@,
                    i as int,
                ),
            decreases self.novels@.len() - i,
        {
            if keywords_match_exec(&self.novels[i], window_title) {
                return Some(self.novels[i].duplicate());
            }
            i += 1;
        }
        None
    }

    /// Resolves a candidate string: exact title match, else exact keyword
    /// match, else a fuzzy title match accepted only above the similarity
    /// threshold. In the fuzzy tier two titles can tie on similarity, and
    /// which of them the search reports is not determined, so the contract
    /// is relational: some admissible novel comes back exactly when a match
    /// exists at all.
    pub fn find_novel_by_window_title(&self, window_title: &str) -> (r: Option<Novel>)
        requires
            self.wf(),
        ensures
            match r {
                Some(n) => has_window_title_match(self@, window_title@) && window_title_match_ok(
                    self@,
                    window_title@,
                    n@,
                ) && n.wf(),
                None => !has_window_title_match(self@, window_title@),
            },
    {
        let exact = self.get_by_title(window_title);
        if exact.is_some() {
            return exact;
        }
        let by_keyword = self.get_by_novel_keywords(window_title);
        if by_keyword.is_some() {
            return by_keyword;
        }
        let mut titles: Vec<String> = Vec::new();
        let mut i: usize = 0;
        proof {
            assert(views(titles@) =~= lowered_titles(self@).subrange(0, 0));
        }
        while i < self.novels.len()
            invariant
                i <= self.novels@.len(),
                views(titles@) == lowered_titles(self@).subrange(0, i as int),
            decreases self.novels@.len() - i,
        {
            let nlow = lower_chars_of(self.novels[i].title.as_str());
            let ghost prev = titles@;
            let s = crate::text::from_chars(&nlow);
            titles.push(s);
            i += 1;
            proof {
                assert(views(prev.push(s)) =~= views(prev).push(s@));
                assert(views(titles@) =~= lowered_titles(self@).subrange(0, i as int));
            }
        }
        proof {
            assert(lowered_titles(self@).subrange(0, self@.len() as int) =~= lowered_titles(
                self@,
            ));
            assert forall|k: int| 0 <= k < self@.len() implies lowered_titles(self@)[k]
                == lower_of((#[trigger] self@[k]).title) by {}
        }
        match fuzzy_search_top(&titles, window_title) {
            Some(p) => {
                if p.1 > SIMILARITY_THRESHOLD {
                    let ghost jm = choose|jj: int|
                        0 <= jj < titles@.len() && views(titles@)[jj] == p.0@;
                    proof {
                        assert(lower_of(self@[jm].title) == p.0@);
                        assert(fuzzy_hit(self@, window_title@));
                    }
                    let tchars = to_chars(p.0.as_str());
                    let mut k: usize = 0;
                    while k < self.novels.len()
                        invariant
                            k <= self.novels@.len(),
                            tchars@ == p.0@,
                            self.wf(),
                            0 <= jm < self@.len(),
                            lower_of(self@[jm].title) == p.0@,
                            p.1 == sim_of(p.0@, window_title@),
                            p.1 > SIMILARITY_THRESHOLD,
                            forall|x: int|
                                0 <= x < self@.len() ==> sim_of(
                                    lower_of((#[trigger] self@[x]).title),
                                    window_title@,
                                ) <= p.1,
                            get_by_title_spec(self@, window_title@) is None,
                            get_by_keywords_spec(self@, window_title@) is None,
                            by_lowered_title_spec(self@, p.0@) == by_lowered_title_from(
                                self@,
                                p.0@,
                                k as int,
                            ),
                        decreases self.novels@.len() - k,
                    {
                        let nlow = lower_chars_of(self.novels[k].title.as_str());
                        if chars_eq(&nlow, &tchars) {
                            let found = self.novels[k].duplicate();
                            proof {
                                assert(by_lowered_title_spec(self@, p.0@) == Some(found@));
                                assert(window_title_match_ok(self@, window_title@, found@)) by {
                                    assert(0 <= jm < self@.len() && {
                                        let lt = lower_of(self@[jm].title);
                                        &&& sim_of(lt, window_title@) > SIMILARITY_THRESHOLD
                                        &&& forall|x: int|
                                            0 <= x < self@.len() ==> sim_of(
                                                lower_of((#[trigger] self@[x]).title),
                                                window_title@,
                                            ) <= sim_of(lt, window_title@)
                                        &&& by_lowered_title_spec(self@, lt) == Some(found@)
                                    });
                                }
                            }
                            return Some(found);
                        }
                        k += 1;
                    }
                    proof {
                        lemma_by_lowered_title_exists(self@, p.0@, jm);
                        assert(false);
                    }
                    None
                } else {
                    proof {
                        assert(!fuzzy_hit(self@, window_title@)) by {
                            assert(forall|x: int|
                                0 <= x < self@.len() ==> sim_of(
                                    lower_of((#[trigger] self@[x]).title),
                                    window_title@,
                                ) <= p.1);
                        }
                    }
                    None
                }
            },
            None => {
                proof {
                    assert(!fuzzy_hit(self@, window_title@)) by {
                        assert(forall|x: int|
                            0 <= x < self@.len() ==> sim_of(
                                lower_of((#[trigger] self@[x]).title),
                                window_title@,
                            ) == 0);
                    }
                }
                None
            },
        }
    }
}

/// The index, at or after `i`, of the first token that resolves to some
/// novel.
pub open spec fn first_match_token_from(ns: Seq<NovelV>, ts: Seq<Seq<char>>, i: int) -> Option<
    int,
>
    decreases ts.len() - i when 0 <= i <= ts.len()
{
    if i >= ts.len() {
        None
    } else if has_window_title_match(ns, ts[i]) {
        Some(i)
    } else {
        first_match_token_from(ns, ts, i + 1)
    }
}

/// The index of the first token that resolves to some novel.
pub open spec fn first_match_token(ns: Seq<NovelV>, ts: Seq<Seq<char>>) -> Option<int> {
    first_match_token_from(ns, ts, 0)
}

/// End (exclusive) of the whitespace-free run starting at `i`.
pub open spec fn word_end(s: Seq<char>, i: int) -> int
    decreases s.len() - i when 0 <= i <= s.len()
{
    if i < s.len() && !crate::text::is_space(s[i]) {
        word_end(s, i + 1)
    } else {
        i
    }
}

proof fn lemma_word_end_facts(s: Seq<char>, i: int)
    requires
        0 <= i <= s.len(),
    ensures
        i <= word_end(s, i) <= s.len(),
        i < s.len() && !crate::text::is_space(s[i]) ==> i < word_end(s, i),
    decreases s.len() - i,
{
    if i < s.len() && !crate::text::is_space(s[i]) {
        lemma_word_end_facts(s, i + 1);
    }
}

/// The whitespace-separated words of `s` at or after `i`, in order, without
/// empty words.
pub open spec fn ws_tokens_from(s: Seq<char>, i: int) -> Seq<Seq<char>>
    decreases s.len() - i when 0 <= i <= s.len() via ws_tokens_from_dec
{
    if i >= s.len() {
        Seq::empty()
    } else if crate::text::is_space(s[i]) {
        ws_tokens_from(s, i + 1)
    } else {
        seq![s.subrange(i, word_end(s, i))] + ws_tokens_from(s, word_end(s, i))
    }
}

#[via_fn]
proof fn ws_tokens_from_dec(s: Seq<char>, i: int) {
    if 0 <= i <= s.len() {
        lemma_word_end_facts(s, i);
    }
}

/// The whitespace-separated words of `s`.
pub open spec fn ws_tokens(s: Seq<char>) -> Seq<Seq<char>> {
    ws_tokens_from(s, 0)
}

/// Splits a string into its whitespace-separated words.
pub fn ws_split(s: &str) -> (r: Vec<String>)
    ensures
        views(r@) == ws_tokens(s@),
{
    let v = to_chars(s);
    let mut out: Vec<String> = Vec::new();
    let mut i: usize = 0;
    proof {
        assert(views(out@) + ws_tokens_from(v@, 0) =~= ws_tokens_from(v@, 0));
    }
    while i < v.len()
        invariant
            i <= v@.len(),
            v@ == s@,
            ws_tokens(s@) == views(out@) + ws_tokens_from(v@, i as int),
        decreases v@.len() - i,
    {
        if crate::text::is_space_exec(v[i]) {
            i += 1;
        } else {
            let e = word_end_exec(&v, i);
            let w = crate::text::chars_range(&v, i, e);
            let ghost prev = out@;
            let ws = crate::text::from_chars(&w);
            out.push(ws);
            proof {
                assert(views(prev.push(ws)) =~= views(prev).push(ws@));
                assert(views(out@) + ws_tokens_from(v@, e as int) =~= views(prev)
                    + (seq![v@.subrange(i as int, e as int)] + ws_tokens_from(v@, e as int)));
            }
            i = e;
        }
    }
    proof {
        assert(ws_tokens_from(v@, v@.len() as int) =~= Seq::<Seq<char>>::empty());
        assert(views(out@) + Seq::<Seq<char>>::empty() =~= views(out@));
    }
    out
}

/// End of the whitespace-free run starting at `i`.
fn word_end_exec(v: &Vec<char>, i: usize) -> (r: usize)
    requires
        i <= v@.len(),
    ensures
        r == word_end(v@, i as int),
        i <= r <= v@.len(),
{
    let mut e = i;
    while e < v.len() && !crate::text::is_space_exec(v[e])
        invariant
            i <= e <= v@.len(),
            word_end(v@, i as int) == word_end(v@, e as int),
        decreases v@.len() - e,
    {
        e += 1;
    }
    e
}

/// Some word of the title occurs inside some non-empty recognition keyword
/// of `ks`, case-sensitively.
pub open spec fn kw_token_match(ks: Seq<Seq<char>>, toks: Seq<Seq<char>>) -> bool {
    exists|a: int, b: int|
        0 <= a < toks.len() && 0 <= b < ks.len() && (#[trigger] ks[b]).len() > 0 && contains_seq(
            ks[b],
            #[trigger] toks[a],
        )
}

/// The novel is a suggestion for the title: with keywords, some word of the
/// title occurs in some keyword; without, the acronym of the novel's title
/// contains the title's first word.
pub open spec fn potential_matches(n: NovelV, title: Seq<char>) -> bool {
    match n.settings.window_titles {
        Some(ks) => kw_token_match(ks, ws_tokens(title)),
        None => ws_tokens(title).len() > 0 && contains_seq(
            acronym_spec(n.title),
            ws_tokens(title)[0],
        ),
    }
}

/// The ids of the novels already collected.
pub open spec fn collected_ids(out: Seq<Novel>) -> Set<Seq<char>> {
    Set::new(|id: Seq<char>| exists|j: int| 0 <= j < out.len() && (#[trigger] out[j])@.id == id)
}

/// The suggestions drawn from novels at or after `i`: each matching novel
/// once, in library order, skipping ids in `seen`.
pub open spec fn potentials_from(
    ns: Seq<NovelV>,
    title: Seq<char>,
    i: int,
    seen: Set<Seq<char>>,
) -> Seq<NovelV>
    decreases ns.len() - i when 0 <= i <= ns.len()
{
    if i >= ns.len() {
        Seq::empty()
    } else if potential_matches(ns[i], title) && !seen.contains(ns[i].id) {
        seq![ns[i]] + potentials_from(ns, title, i + 1, seen.insert(ns[i].id))
    } else {
        potentials_from(ns, title, i + 1, seen)
    }
}

/// The suggestions for a free-text title: every matching novel, once per
/// id, in library order.
pub open spec fn find_potential_novels_spec(ns: Seq<NovelV>, title: Seq<char>) -> Seq<NovelV> {
    potentials_from(ns, title, 0, Set::empty())
}

proof fn lemma_potentials_from_distinct(
    ns: Seq<NovelV>,
    title: Seq<char>,
    i: int,
    seen: Set<Seq<char>>,
)
    requires
        0 <= i <= ns.len(),
    ensures
        ({
            let r = potentials_from(ns, title, i, seen);
            &&& forall|k: int| 0 <= k < r.len() ==> !seen.contains(#[trigger] r[k].id)
            &&& forall|a: int, b: int| 0 <= a < b < r.len() ==> #[trigger] r[a].id != #[trigger] r[b].id
        }),
    decreases ns.len() - i,
{
    if i < ns.len() {
        if potential_matches(ns[i], title) && !seen.contains(ns[i].id) {
            lemma_potentials_from_distinct(ns, title, i + 1, seen.insert(ns[i].id));
            let tail = potentials_from(ns, title, i + 1, seen.insert(ns[i].id));
            let r = potentials_from(ns, title, i, seen);
            assert(r == seq![ns[i]] + tail);
            assert forall|k: int| 0 <= k < r.len() implies !seen.contains(
                #[trigger] r[k].id,
            ) by {
                if k > 0 {
                    assert(r[k] == tail[k - 1]);
                }
            }
            assert forall|a: int, b: int| 0 <= a < b < r.len() implies #[trigger] r[a].id != (
            #[trigger] r[b].id) by {
                assert(r[b] == tail[b - 1]);
                if a == 0 {
                    assert(!seen.insert(ns[i].id).contains(tail[b - 1].id));
                } else {
                    assert(r[a] == tail[a - 1]);
                }
            }
        } else {
            lemma_potentials_from_distinct(ns, title, i + 1, seen);
        }
    }
}

/// No novel is suggested more than once: the ids of the suggestion list are
/// pairwise distinct.
pub proof fn lemma_potentials_distinct(ns: Seq<NovelV>, title: Seq<char>)
    ensures
        ({
            let r = find_potential_novels_spec(ns, title);
            forall|a: int, b: int| 0 <= a < b < r.len() ==> #[trigger] r[a].id != #[trigger] r[b].id
        }),
{
    lemma_potentials_from_distinct(ns, title, 0, Set::empty());
}

/// Do the keywords hold some word of `toks`?
fn keywords_hold_token(ks: &Vec<String>, toks: &Vec<String>) -> (r: bool)
    ensures
        r == kw_token_match(views(ks@), views(toks@)),
{
    let mut a: usize = 0;
    while a < toks.len()
        invariant
            a <= toks@.len(),
            forall|x: int, y: int|
                0 <= x < a && 0 <= y < ks@.len() ==> !((#[trigger] views(ks@)[y]).len() > 0
                    && contains_seq(views(ks@)[y], #[trigger] views(toks@)[x])),
        decreases toks@.len() - a,
    {
        let tok = to_chars(toks[a].as_str());
        let mut b: usize = 0;
        while b < ks.len()
            invariant
                a < toks@.len(),
                b <= ks@.len(),
                tok@ == views(toks@)[a as int],
                forall|y: int|
                    0 <= y < b ==> !((#[trigger] views(ks@)[y]).len() > 0 && contains_seq(
                        views(ks@)[y],
                        views(toks@)[a as int],
                    )),
            decreases ks@.len() - b,
        {
            if ks[b].as_str().unicode_len() > 0 {
                let kv = to_chars(ks[b].as_str());
                if contains_chars(&kv, &tok) {
                    proof {
                        assert((views(ks@)[b as int]).len() > 0 && contains_seq(
                            views(ks@)[b as int],
                            views(toks@)[a as int],
                        ));
                    }
                    return true;
                }
            }
            b += 1;
        }
        a += 1;
    }
    false
}

impl NovelDb {
    /// A novel that the first resolving token of the tokenized title
    /// resolves to, when any token resolves at all.
    pub fn find_novel_from_title(&self, title_strings: &Vec<String>) -> (r: Option<Novel>)
        requires
            self.wf(),
        ensures
            match r {
                Some(n) => ({
                    let fm = first_match_token(self@, views(title_strings@));
                    fm is Some && window_title_match_ok(
                        self@,
                        views(title_strings@)[fm->Some_0],
                        n@,
                    ) && n.wf()
                }),
                None => first_match_token(self@, views(title_strings@)) is None,
            },
    {
        let ghost ts = views(title_strings@);
        let mut i: usize = 0;
        while i < title_strings.len()
            invariant
                i <= title_strings@.len(),
                ts == views(title_strings@),
                self.wf(),
                first_match_token(self@, ts) == first_match_token_from(self@, ts, i as int),
            decreases title_strings@.len() - i,
        {
            let maybe = self.find_novel_by_window_title(title_strings[i].as_str());
            if maybe.is_some() {
                proof {
                    assert(ts[i as int] == title_strings@[i as int]@);
                    assert(first_match_token(self@, ts) == Some(i as int));
                }
                return maybe;
            }
            i += 1;
        }
        None
    }

    /// All suggestions for a free-text title, each novel once, in library
    /// order.
    pub fn find_potential_novels(&self, title: &str) -> (r: Vec<Novel>)
        requires
            self.wf(),
        ensures
            nviews(r@) == find_potential_novels_spec(self@, title@),
            forall|j: int| 0 <= j < r@.len() ==> (#[trigger] r@[j]).wf(),
    {
        let toks = ws_split(title);
        let mut out: Vec<Novel> = Vec::new();
        let mut i: usize = 0;
        proof {
            assert(collected_ids(out@) =~= Set::<Seq<char>>::empty());
            assert(nviews(out@) + potentials_from(self@, title@, 0, collected_ids(out@))
                =~= potentials_from(self@, title@, 0, Set::empty()));
        }
        while i < self.novels.len()
            invariant
                i <= self.novels@.len(),
                self.wf(),
                views(toks@) == ws_tokens(title@),
                find_potential_novels_spec(self@, title@) == nviews(out@) + potentials_from(
                    self@,
                    title@,
                    i as int,
                    collected_ids(out@),
                ),
                forall|j: int| 0 <= j < out@.len() ==> (#[trigger] out@[j]).wf(),
            decreases self.novels@.len() - i,
        {
            let n = &self.novels[i];
            let matches_here = match &n.settings.window_titles {
                Some(ks) => {
                    let r = keywords_hold_token(ks, &toks);
                    proof {
                        assert(n@.settings.window_titles == Some(views(ks@)));
                    }
                    r
                },
                None => {
                    if toks.len() > 0 {
                        let acr = crate::util::guess_keyword(n.title.as_str());
                        let av = to_chars(acr.as_str());
                        let tok0 = to_chars(toks[0].as_str());
                        proof {
                            assert(views(toks@)[0] == toks@[0]@);
                        }
                        contains_chars(&av, &tok0)
                    } else {
                        false
                    }
                },
            };
            proof {
                assert(matches_here == potential_matches(self@[i as int], title@));
            }
            if matches_here {
                let idv = to_chars(n.id.as_str());
                if !contains_novel_id(&out, &idv) {
                    let ghost prev = out@;
                    let dup = n.duplicate();
                    out.push(dup);
                    proof {
                        assert(self@[i as int] == self.novels@[i as int]@);
                        assert(out@[prev.len() as int]@.id == self@[i as int].id);
                        assert forall|id: Seq<char>|
                            collected_ids(out@).contains(id) <==> collected_ids(prev).insert(
                                self@[i as int].id,
                            ).contains(id) by {
                            if collected_ids(out@).contains(id) {
                                let j = choose|j: int|
                                    0 <= j < out@.len() && (#[trigger] out@[j])@.id == id;
                                if j < prev.len() {
                                    assert(prev[j]@.id == id);
                                    assert(collected_ids(prev).contains(id));
                                }
                            }
                            if collected_ids(prev).insert(self@[i as int].id).contains(id) {
                                if collected_ids(prev).contains(id) {
                                    let j = choose|j: int|
                                        0 <= j < prev.len() && (#[trigger] prev[j])@.id == id;
                                    assert(out@[j]@.id == id);
                                    assert(collected_ids(out@).contains(id));
                                } else {
                                    assert(collected_ids(out@).contains(id));
                                }
                            }
                        }
                        assert(collected_ids(out@) =~= collected_ids(prev).insert(
                            self@[i as int].id,
                        ));
                        assert(nviews(out@) =~= nviews(prev).push(self@[i as int]));
                        assert(nviews(prev).push(self@[i as int]) + potentials_from(
                            self@,
                            title@,
                            i + 1,
                            collected_ids(out@),
                        ) =~= nviews(prev) + (seq![self@[i as int]] + potentials_from(
                            self@,
                            title@,
                            i + 1,
                            collected_ids(prev).insert(self@[i as int].id),
                        )));
                    }
                } else {
                    proof {
                        assert(collected_ids(out@).contains(self@[i as int].id));
                    }
                }
            }
            i += 1;
        }
        proof {
            assert(potentials_from(self@, title@, self@.len() as int, collected_ids(out@))
                =~= Seq::<NovelV>::empty());
            assert(nviews(out@) + Seq::<NovelV>::empty() =~= nviews(out@));
        }
        out
    }
}

/// The first index at or after `i` of a novel with this id.
pub open spec fn index_of_id_from(ns: Seq<NovelV>, id: Seq<char>, i: int) -> Option<int>
    decreases ns.len() - i when 0 <= i <= ns.len()
{
    if i >= ns.len() {
        None
    } else if ns[i].id == id {
        Some(i)
    } else {
        index_of_id_from(ns, id, i + 1)
    }
}

/// The first index of a novel with this id.
pub open spec fn index_of_id_spec(ns: Seq<NovelV>, id: Seq<char>) -> Option<int> {
    index_of_id_from(ns, id, 0)
}

impl NovelDb {
    /// Appends a novel to the library.
    pub fn push_novel(&mut self, novel: Novel)
        requires
            old(self).wf(),
            novel.wf(),
        ensures
            final(self)@ == old(self)@.push(novel@),
            final(self).wf(),
    {
        self.novels.push(novel);
        proof {
            assert(final(self)@ =~= old(self)@.push(final(self).novels@[old(
                self,
            ).novels@.len() as int]@));
        }
    }

    /// Replaces the first record with the same id by `novel` and hands the
    /// record back; a novel whose id is unknown leaves the library
    /// unchanged.
    pub fn update_novel_in_db(&mut self, novel: Novel) -> (r: Novel)
        requires
            old(self).wf(),
            novel.wf(),
        ensures
            r@ == novel@,
            r.wf(),
            match index_of_id_spec(old(self)@, novel@.id) {
                Some(idx) => final(self)@ == old(self)@.update(idx, novel@),
                None => final(self)@ == old(self)@,
            },
            final(self).wf(),
    {
        let idv = to_chars(novel.id.as_str());
        let mut i: usize = 0;
        while i < self.novels.len()
            invariant
                i <= self.novels@.len(),
                idv@ == novel@.id,
                self.wf(),
                novel.wf(),
                self == old(self),
                index_of_id_spec(self@, novel@.id) == index_of_id_from(self@, novel@.id, i as int),
            decreases self.novels@.len() - i,
        {
            let nv = to_chars(self.novels[i].id.as_str());
            if chars_eq(&nv, &idv) {
                let dup = novel.duplicate();
                self.novels[i] = dup;
                proof {
                    assert(final(self)@ =~= old(self)@.update(i as int, novel@));
                }
                return novel;
            }
            i += 1;
        }
        novel
    }

    /// Adds a recognition keyword to a novel (creating the keyword list if
    /// it had none) and stores the change.
    pub fn update_novel_reading_keyword(&mut self, novel: Novel, keyword: String) -> (r: Novel)
        requires
            old(self).wf(),
            novel.wf(),
        ensures
            r.wf(),
            r@.settings.window_titles == Some(
                match novel@.settings.window_titles {
                    Some(ks) => ks.push(keyword@),
                    None => seq![keyword@],
                },
            ),
            r@.id == novel@.id,
            match index_of_id_spec(old(self)@, novel@.id) {
                Some(idx) => final(self)@ == old(self)@.update(idx, r@),
                None => final(self)@ == old(self)@,
            },
            final(self).wf(),
    {
        let mut novel = novel;
        let ghost oldks = novel@.settings.window_titles;
        match novel.settings.window_titles.as_mut() {
            Some(keywords) => {
                let ghost prevks = keywords@;
                keywords.push(keyword);
                proof {
                    assert(views(prevks.push(keyword)) =~= views(prevks).push(keyword@));
                }
            },
            None => {
                let mut ks: Vec<String> = Vec::new();
                ks.push(keyword);
                proof {
                    assert(views(ks@) =~= seq![ks@[0]@]);
                }
                novel.settings.window_titles = Some(ks);
            },
        }
        self.update_novel_in_db(novel)
    }

    /// Sets a novel's publication status and stores the change; a novel
    /// already in that status is handed back with the library untouched.
    pub fn update_novel_status(&mut self, novel: Novel, status: crate::novel::NovelStatus) -> (r:
        Novel)
        requires
            old(self).wf(),
            novel.wf(),
        ensures
            r.wf(),
            novel@.status == status ==> r@ == novel@ && final(self)@ == old(self)@,
            novel@.status != status ==> {
                &&& r@ == (NovelV { status, ..novel@ })
                &&& match index_of_id_spec(old(self)@, novel@.id) {
                    Some(idx) => final(self)@ == old(self)@.update(idx, r@),
                    None => final(self)@ == old(self)@,
                }
            },
            final(self).wf(),
    {
        let mut novel = novel;
        if novel.status.to_i32() == status.to_i32() {
            proof {
                assert(novel.status == status);
            }
            return novel;
        }
        novel.status = status;
        self.update_novel_in_db(novel)
    }

    /// Applies one recognized progress update to the novel with the given
    /// record, stores the updated record, and hands it back.
    pub fn reading_novel(
        &mut self,
        novel: &Novel,
        data: &crate::recognition::NovelRecognitionData,
        exact_num: bool,
        pref: crate::settings::ChapterReadPreference,
        autocomplete_ongoing: bool,
        now: i64,
    ) -> (r: Novel)
        requires
            old(self).wf(),
            novel.wf(),
            data.wf(),
        ensures
            r@ == crate::chapter_read::chapter_read_spec(
                novel@,
                data.volume,
                data.chapter,
                data.side_story,
                exact_num,
                pref,
                autocomplete_ongoing,
                now,
            ),
            r.wf(),
            match index_of_id_spec(old(self)@, novel@.id) {
                Some(idx) => final(self)@ == old(self)@.update(idx, r@),
                None => final(self)@ == old(self)@,
            },
            final(self).wf(),
    {
        let updated = crate::chapter_read::apply_chapter_read(
            novel,
            data.volume,
            data.chapter,
            data.side_story,
            exact_num,
            pref,
            autocomplete_ongoing,
            now,
        );
        proof {
            assert(updated@.id == novel@.id);
        }
        self.update_novel_in_db(updated)
    }

    /// Handles one chapter-read request: a request whose numbers equal the
    /// stored progress is dropped; otherwise the update is applied and
    /// stored.
    pub fn chapter_read(
        &mut self,
        request: &crate::novel::ChapterRead,
        pref: crate::settings::ChapterReadPreference,
        autocomplete_ongoing: bool,
        now: i64,
    ) -> (r: Option<Novel>)
        requires
            old(self).wf(),
            request.novel.wf(),
            request.volume >= 0,
            request.chapter >= 0,
            request.side >= 0,
        ensures
            ({
                let stored = request.novel@.settings.content_read;
                if stored.chapters == request.chapter && stored.volumes == request.volume
                    && stored.side_stories == request.side {
                    r is None && final(self)@ == old(self)@
                } else {
                    match r {
                        Some(n) => {
                            &&& n@ == crate::chapter_read::chapter_read_spec(
                                request.novel@,
                                request.volume,
                                request.chapter,
                                request.side,
                                request.exact_num,
                                pref,
                                autocomplete_ongoing,
                                now,
                            )
                            &&& match index_of_id_spec(old(self)@, request.novel@.id) {
                                Some(idx) => final(self)@ == old(self)@.update(idx, n@),
                                None => final(self)@ == old(self)@,
                            }
                        },
                        None => false,
                    }
                }
            }),
            final(self).wf(),
    {
        let stored = request.novel.settings.content_read;
        if stored.chapters == request.chapter && stored.volumes == request.volume
            && stored.side_stories == request.side {
            return None;
        }
        let data = crate::recognition::NovelRecognitionData::new(
            request.volume,
            request.chapter,
            request.side,
            None,
            String::new(),
            false,
        );
        let updated = self.reading_novel(
            &request.novel,
            &data,
            request.exact_num,
            pref,
            autocomplete_ongoing,
            now,
        );
        Some(updated)
    }
}

/// Is a novel with this id already collected?
fn contains_novel_id(out: &Vec<Novel>, id: &Vec<char>) -> (r: bool)
    ensures
        r == collected_ids(out@).contains(id@),
{
    let mut j: usize = 0;
    while j < out.len()
        invariant
            j <= out@.len(),
            forall|k: int| 0 <= k < j ==> (#[trigger] out@[k])@.id != id@,
        decreases out@.len() - j,
    {
        let nv = to_chars(out[j].id.as_str());
        if chars_eq(&nv, id) {
            proof {
                assert((out@[j as int])@.id == id@);
                assert(collected_ids(out@).contains(id@));
            }
            return true;
        }
        j += 1;
    }
    proof {
        assert(!collected_ids(out@).contains(id@));
    }
    false
}

/// Does some non-empty keyword of the novel equal `t`, ignoring case?
fn keywords_match_exec(n: &Novel, t: &str) -> (r: bool)
    ensures
        r == keyword_matches(n@, t@),
{
    let tlow = lower_chars_of(t);
    match &n.settings.window_titles {
        Some(ks) => {
            let mut j: usize = 0;
            while j < ks.len()
                invariant
                    j <= ks@.len(),
                    tlow@ == lower_of(t@),
                    n@.settings.window_titles == Some(views(ks@)),
                    forall|k: int|
                        0 <= k < j ==> !((#[trigger] views(ks@)[k]).len() > 0 && lower_of(
                            views(ks@)[k],
                        ) == lower_of(t@)),
                decreases ks@.len() - j,
            {
                if ks[j].as_str().unicode_len() > 0 {
                    let klow = lower_chars_of(ks[j].as_str());
                    if chars_eq(&klow, &tlow) {
                        proof {
                            assert(n@.settings.window_titles == Some(views(ks@)));
                            assert((n@.settings.window_titles->Some_0)[j as int].len() > 0);
                            assert(lower_of((n@.settings.window_titles->Some_0)[j as int])
                                == lower_of(t@));
                            assert(keyword_matches(n@, t@));
                        }
                        return true;
                    }
                }
                j += 1;
            }
            proof {
                assert(n@.settings.window_titles == Some(views(ks@)));
            }
            false
        },
        None => false,
    }
}

} // verus!
