//! Research-paradigm and discipline recognition.
//!
//! A paper is scored against each research paradigm as
//! `0.45 × section hits + 0.40 × keyword hits + 0.15 × object hit + discipline prior`,
//! where two matching section titles and four matching keywords count as
//! full marks. The best paradigm becomes the primary one, the others scoring
//! at least 0.15 are listed as secondary, and the gap between them decides
//! whether the paper is single-discipline or a two- or multi-discipline
//! cross. Disciplines (domestic catalogue and ASJC) and research directions
//! are ranked by how many of their signal words occur.
//!
//! Scores, weights and confidences are exact rationals, held as integers in
//! units of `1 / SCALE`.
use vstd::prelude::*;
use crate::lexicon::{
    direction_keywords, direction_keywords_v, direction_names, direction_names_v,
    domestic_categories, domestic_categories_v, domestic_codes, domestic_codes_v,
    domestic_keywords, domestic_keywords_v, domestic_names, domestic_names_v,
    empirical_sections, empirical_sections_v, empirical_stats_terms, empirical_stats_terms_v,
    international_codes, international_codes_v, international_groups, international_groups_v,
    international_keywords, international_keywords_v, international_names, international_names_v,
    paradigm_ids, paradigm_ids_v, paradigm_keywords, paradigm_keywords_v, paradigm_names,
    paradigm_names_v, paradigm_object_labels, paradigm_object_labels_v, paradigm_sections,
    paradigm_sections_v, prior_keywords, prior_keywords_v, prior_primary, prior_primary_v,
    prior_secondary, prior_secondary_v, weak_discipline_terms, weak_discipline_terms_v,
    DIRECTION_COUNT, DOMESTIC_COUNT, INTERNATIONAL_COUNT, PARADIGM_COUNT, PRIOR_COUNT,
};
use crate::rank::{
    first_n, first_n_v, indices_below, keep_at_least, keep_at_least_v, lemma_first_n_below, lemma_keep,
    lemma_rank_below, lemma_skip_below, rank_desc, rank_v, skip_first_v,
};
use crate::text::{
    alnum, chars_of, contains, contains_v, eq_v, find_from, find_v, is_alnum, is_lower, join,
    join_v, lemma_find_from_props, to_lowercase, unicode_lower, views,
};

verus! {

/// Scores, weights and confidences are integers in units of `1 / SCALE`.
pub const SCALE: u32 = 1200;

// ---------------------------------------------------------------------------
// Keyword matching
// ---------------------------------------------------------------------------

/// The keyword is one plain lower-case ASCII word.
pub open spec fn single_ascii_word(kw: Seq<char>) -> bool {
    forall|i: int| 0 <= i < kw.len() ==> is_lower(#[trigger] kw[i])
}

/// A match of length `n` at `at` stands on word boundaries; a plural `s` or
/// `es` after it still counts as a boundary.
pub open spec fn word_bounded(hay: Seq<char>, n: int, at: int) -> bool {
    let after = at + n;
    &&& (at == 0 || !is_alnum(hay[at - 1]))
    &&& (after >= hay.len() || !is_alnum(hay[after]) || (hay[after] == 's' && (after + 1
        >= hay.len() || !is_alnum(hay[after + 1]))) || (hay[after] == 'e' && after + 1
        < hay.len() && hay[after + 1] == 's' && (after + 2 >= hay.len() || !is_alnum(
        hay[after + 2]))))
}

/// Scan the occurrences of `kw` from `start` on, each search resuming after
/// the previous match, for one that stands on word boundaries.
pub open spec fn word_scan(hay: Seq<char>, kw: Seq<char>, start: int) -> bool
    decreases hay.len() + 1 - start,
{
    if kw.len() == 0 || start < 0 {
        false
    } else {
        match find_from(hay, kw, start) {
            None => false,
            Some(at) => {
                if word_bounded(hay, kw.len() as int, at) {
                    true
                } else {
                    proof {
                        lemma_find_from_props(hay, kw, start);
                    }
                    word_scan(hay, kw, at + kw.len())
                }
            },
        }
    }
}

/// Keyword hit: a single lower-case ASCII word must match on word
/// boundaries (so "art" does not hit "artificial"); any other keyword is a
/// plain substring match.
pub open spec fn word_hits(hay: Seq<char>, kw: Seq<char>) -> bool {
    if !single_ascii_word(kw) {
        contains(hay, kw)
    } else if kw.len() == 0 {
        word_bounded(hay, 0, 0)
    } else {
        word_scan(hay, kw, 0)
    }
}

fn bounded_v(hay: &Vec<char>, n: usize, at: usize) -> (r: bool)
    requires
        at + n <= hay.len(),
    ensures
        r == word_bounded(hay@, n as int, at as int),
{
    let len = hay.len();
    let before = at == 0 || !alnum(hay[at - 1]);
    let after = at + n;
    let after_ok = after >= len || !alnum(hay[after]) || (hay[after] == 's' && (after + 1 >= len
        || !alnum(hay[after + 1]))) || (hay[after] == 'e' && after + 1 < len && hay[after + 1]
        == 's' && (after + 2 >= len || !alnum(hay[after + 2])));
    before && after_ok
}

fn word_hits_v(hay: &Vec<char>, kw: &Vec<char>) -> (r: bool)
    ensures
        r == word_hits(hay@, kw@),
{
    let mut single = true;
    let mut i: usize = 0;
    while i < kw.len()
        invariant
            i <= kw.len(),
            single == (forall|j: int| 0 <= j < i ==> is_lower(#[trigger] kw@[j])),
        decreases kw.len() - i,
    {
        if !('a' <= kw[i] && kw[i] <= 'z') {
            single = false;
        }
        i += 1;
    }
    if !single {
        return contains_v(hay, kw);
    }
    if kw.len() == 0 {
        return bounded_v(hay, 0, 0);
    }
    let mut start: usize = 0;
    loop
        invariant
            start <= hay.len() + 1,
            kw.len() > 0,
            single_ascii_word(kw@),
            word_scan(hay@, kw@, start as int) == word_hits(hay@, kw@),
        decreases hay.len() + 1 - start,
    {
        proof {
            lemma_find_from_props(hay@, kw@, start as int);
        }
        match find_v(hay, kw, start) {
            None => {
                return false;
            },
            Some(at) => {
                if bounded_v(hay, kw.len(), at) {
                    return true;
                }
                start = at + kw.len();
            },
        }
    }
}

// ---------------------------------------------------------------------------
// Selecting the signal words that hit
// ---------------------------------------------------------------------------

pub open spec fn lit_views(v: Seq<&'static str>) -> Seq<Seq<char>> {
    v.map_values(|s: &'static str| s@)
}

pub open spec fn str_views(v: Seq<String>) -> Seq<Seq<char>> {
    v.map_values(|s: String| s@)
}

/// The words that occur in `hay` (substring match), in order.
pub open spec fn occurring(words: Seq<&'static str>, hay: Seq<char>) -> Seq<&'static str>
    decreases words.len(),
{
    if words.len() == 0 {
        Seq::empty()
    } else {
        let rest = occurring(words.drop_last(), hay);
        if contains(hay, words.last()@) {
            rest.push(words.last())
        } else {
            rest
        }
    }
}

/// Some heading contains `w`.
pub open spec fn in_some(hs: Seq<Seq<char>>, w: Seq<char>) -> bool {
    exists|j: int| 0 <= j < hs.len() && contains(#[trigger] hs[j], w)
}

/// The words that occur in some heading, in order.
pub open spec fn in_headings(words: Seq<&'static str>, hs: Seq<Seq<char>>) -> Seq<&'static str>
    decreases words.len(),
{
    if words.len() == 0 {
        Seq::empty()
    } else {
        let rest = in_headings(words.drop_last(), hs);
        if in_some(hs, words.last()@) {
            rest.push(words.last())
        } else {
            rest
        }
    }
}

/// The words that hit `hay` by `word_hits`, in order.
pub open spec fn word_hits_in(words: Seq<&'static str>, hay: Seq<char>) -> Seq<&'static str>
    decreases words.len(),
{
    if words.len() == 0 {
        Seq::empty()
    } else {
        let rest = word_hits_in(words.drop_last(), hay);
        if word_hits(hay, words.last()@) {
            rest.push(words.last())
        } else {
            rest
        }
    }
}

/// `w` is one of the weak discipline words.
pub open spec fn is_weak(w: Seq<char>) -> bool {
    exists|j: int|
        0 <= j < weak_discipline_terms().len() && (#[trigger] weak_discipline_terms()[j])@ == w
}

/// A discipline word hits: weak words only in the title and keyword line
/// `tk`, the others anywhere in `hay`.
pub open spec fn discipline_hit(w: Seq<char>, hay: Seq<char>, tk: Seq<char>) -> bool {
    if is_weak(w) {
        word_hits(tk, w)
    } else {
        word_hits(hay, w)
    }
}

/// The discipline words that hit, in order.
pub open spec fn discipline_hits(words: Seq<&'static str>, hay: Seq<char>, tk: Seq<char>) -> Seq<
    &'static str,
>
    decreases words.len(),
{
    if words.len() == 0 {
        Seq::empty()
    } else {
        let rest = discipline_hits(words.drop_last(), hay, tk);
        if discipline_hit(words.last()@, hay, tk) {
            rest.push(words.last())
        } else {
            rest
        }
    }
}

fn occurring_v(words: &Vec<&'static str>, hay: &Vec<char>) -> (r: Vec<&'static str>)
    ensures
        r@ == occurring(words@, hay@),
{
    let mut r: Vec<&'static str> = Vec::new();
    let mut i: usize = 0;
    while i < words.len()
        invariant
            i <= words.len(),
            r@ == occurring(words@.take(i as int), hay@),
        decreases words.len() - i,
    {
        proof {
            let t = words@.take(i + 1);
            assert(t.drop_last() =~= words@.take(i as int));
            assert(t.last() == words@[i as int]);
        }
        if contains_v(hay, &chars_of(words[i])) {
            r.push(words[i]);
        }
        i += 1;
    }
    assert(words@.take(words.len() as int) =~= words@);
    r
}

fn in_some_v(hs: &Vec<Vec<char>>, w: &Vec<char>) -> (r: bool)
    ensures
        r == in_some(views(hs@), w@),
{
    let mut j: usize = 0;
    while j < hs.len()
        invariant
            j <= hs.len(),
            forall|k: int| 0 <= k < j ==> !contains(#[trigger] views(hs@)[k], w@),
        decreases hs.len() - j,
    {
        if contains_v(&hs[j], w) {
            assert(views(hs@)[j as int] == hs@[j as int]@);
            return true;
        }
        j += 1;
    }
    false
}

fn in_headings_v(words: &Vec<&'static str>, hs: &Vec<Vec<char>>) -> (r: Vec<&'static str>)
    ensures
        r@ == in_headings(words@, views(hs@)),
{
    let mut r: Vec<&'static str> = Vec::new();
    let mut i: usize = 0;
    while i < words.len()
        invariant
            i <= words.len(),
            r@ == in_headings(words@.take(i as int), views(hs@)),
        decreases words.len() - i,
    {
        proof {
            let t = words@.take(i + 1);
            assert(t.drop_last() =~= words@.take(i as int));
            assert(t.last() == words@[i as int]);
        }
        if in_some_v(hs, &chars_of(words[i])) {
            r.push(words[i]);
        }
        i += 1;
    }
    assert(words@.take(words.len() as int) =~= words@);
    r
}

fn word_hits_in_v(words: &Vec<&'static str>, hay: &Vec<char>) -> (r: Vec<&'static str>)
    ensures
        r@ == word_hits_in(words@, hay@),
{
    let mut r: Vec<&'static str> = Vec::new();
    let mut i: usize = 0;
    while i < words.len()
        invariant
            i <= words.len(),
            r@ == word_hits_in(words@.take(i as int), hay@),
        decreases words.len() - i,
    {
        proof {
            let t = words@.take(i + 1);
            assert(t.drop_last() =~= words@.take(i as int));
            assert(t.last() == words@[i as int]);
        }
        if word_hits_v(hay, &chars_of(words[i])) {
            r.push(words[i]);
        }
        i += 1;
    }
    assert(words@.take(words.len() as int) =~= words@);
    r
}

fn is_weak_v(w: &Vec<char>) -> (r: bool)
    ensures
        r == is_weak(w@),
{
    let ws = weak_discipline_terms_v();
    let mut j: usize = 0;
    while j < ws.len()
        invariant
            j <= ws.len(),
            ws@ == weak_discipline_terms(),
            forall|k: int| 0 <= k < j ==> (#[trigger] weak_discipline_terms()[k])@ != w@,
        decreases ws.len() - j,
    {
        if eq_v(&chars_of(ws[j]), w) {
            return true;
        }
        j += 1;
    }
    false
}

fn discipline_hits_v(words: &Vec<&'static str>, hay: &Vec<char>, tk: &Vec<char>) -> (r: Vec<
    &'static str,
>)
    ensures
        r@ == discipline_hits(words@, hay@, tk@),
{
    let mut r: Vec<&'static str> = Vec::new();
    let mut i: usize = 0;
    while i < words.len()
        invariant
            i <= words.len(),
            r@ == discipline_hits(words@.take(i as int), hay@, tk@),
        decreases words.len() - i,
    {
        proof {
            let t = words@.take(i + 1);
            assert(t.drop_last() =~= words@.take(i as int));
            assert(t.last() == words@[i as int]);
        }
        let w = chars_of(words[i]);
        let hit = if is_weak_v(&w) {
            word_hits_v(tk, &w)
        } else {
            word_hits_v(hay, &w)
        };
        if hit {
            r.push(words[i]);
        }
        i += 1;
    }
    assert(words@.take(words.len() as int) =~= words@);
    r
}

// ---------------------------------------------------------------------------
// Input and output
// ---------------------------------------------------------------------------

/// The signals taken from a parsed paper.
#[derive(Clone, Debug, Default)]
pub struct ParadigmInput {
    pub title: String,
    /// The abstract, or the first paragraphs with the keyword line.
    pub abstract_text: String,
    /// Section titles without their `#` marks.
    pub headings: Vec<String>,
    /// The first part of the body text.
    pub body_sample: String,
    /// The author's keyword line.
    pub keywords: String,
    pub table_count: usize,
    pub image_count: usize,
    /// How many `$` the Markdown holds.
    pub math_symbols: usize,
}

pub struct InputView {
    pub title: Seq<char>,
    pub abstract_text: Seq<char>,
    pub headings: Seq<Seq<char>>,
    pub body_sample: Seq<char>,
    pub keywords: Seq<char>,
    pub table_count: nat,
    pub image_count: nat,
    pub math_symbols: nat,
}

impl View for ParadigmInput {
    type V = InputView;

    open spec fn view(&self) -> InputView {
        InputView {
            title: self.title@,
            abstract_text: self.abstract_text@,
            headings: str_views(self.headings@),
            body_sample: self.body_sample@,
            keywords: self.keywords@,
            table_count: self.table_count as nat,
            image_count: self.image_count as nat,
            math_symbols: self.math_symbols as nat,
        }
    }
}

/// A secondary paradigm listed beside the primary one.
#[derive(Clone, Debug)]
pub struct SecondaryParadigm {
    pub paradigm_id: String,
    pub paradigm_name: String,
    /// Its score, in units of `1 / SCALE`.
    pub weight: u32,
    pub basis: Vec<String>,
}

pub struct SecondaryView {
    pub id: Seq<char>,
    pub name: Seq<char>,
    pub weight: int,
    pub basis: Seq<Seq<char>>,
}

impl View for SecondaryParadigm {
    type V = SecondaryView;

    open spec fn view(&self) -> SecondaryView {
        SecondaryView {
            id: self.paradigm_id@,
            name: self.paradigm_name@,
            weight: self.weight as int,
            basis: str_views(self.basis@),
        }
    }
}

/// A runner-up discipline.
#[derive(Clone, Debug)]
pub struct SecondaryItem {
    pub name: String,
    /// In units of `1 / SCALE`.
    pub weight: u32,
}

impl View for SecondaryItem {
    type V = (Seq<char>, int);

    open spec fn view(&self) -> (Seq<char>, int) {
        (self.name@, self.weight as int)
    }
}

pub open spec fn item_views(v: Seq<SecondaryItem>) -> Seq<(Seq<char>, int)> {
    v.map_values(|x: SecondaryItem| x@)
}

/// Discipline in the domestic catalogue (2022).
#[derive(Clone, Debug)]
pub struct DomesticDiscipline {
    pub category: String,
    pub code: String,
    pub discipline: String,
    /// In units of `1 / SCALE`.
    pub confidence: u32,
    pub basis: Vec<String>,
    pub secondary: Vec<SecondaryItem>,
}

/// Subject area in the ASJC classification.
#[derive(Clone, Debug)]
pub struct InternationalDiscipline {
    pub supergroup: String,
    pub code: String,
    pub discipline: String,
    /// In units of `1 / SCALE`.
    pub confidence: u32,
    pub basis: Vec<String>,
    pub secondary: Vec<SecondaryItem>,
}

pub struct DisciplineView {
    pub group: Seq<char>,
    pub code: Seq<char>,
    pub name: Seq<char>,
    pub confidence: int,
    pub basis: Seq<Seq<char>>,
    pub secondary: Seq<(Seq<char>, int)>,
}

impl View for DomesticDiscipline {
    type V = DisciplineView;

    open spec fn view(&self) -> DisciplineView {
        DisciplineView {
            group: self.category@,
            code: self.code@,
            name: self.discipline@,
            confidence: self.confidence as int,
            basis: str_views(self.basis@),
            secondary: item_views(self.secondary@),
        }
    }
}

impl View for InternationalDiscipline {
    type V = DisciplineView;

    open spec fn view(&self) -> DisciplineView {
        DisciplineView {
            group: self.supergroup@,
            code: self.code@,
            name: self.discipline@,
            confidence: self.confidence as int,
            basis: str_views(self.basis@),
            secondary: item_views(self.secondary@),
        }
    }
}

/// A research direction below the discipline level.
#[derive(Clone, Debug)]
pub struct ResearchDirection {
    pub name: String,
    /// In units of `1 / SCALE`.
    pub weight: u32,
}

impl View for ResearchDirection {
    type V = (Seq<char>, int);

    open spec fn view(&self) -> (Seq<char>, int) {
        (self.name@, self.weight as int)
    }
}

pub open spec fn direction_views(v: Seq<ResearchDirection>) -> Seq<(Seq<char>, int)> {
    v.map_values(|x: ResearchDirection| x@)
}

pub open spec fn secondary_views_of(v: Seq<SecondaryParadigm>) -> Seq<SecondaryView> {
    v.map_values(|x: SecondaryParadigm| x@)
}

/// The outcome of recognition.
#[derive(Clone, Debug)]
pub struct ParadigmRecognition {
    pub paradigm_id: String,
    pub paradigm_name: String,
    /// The primary paradigm's score, capped at `SCALE`.
    pub confidence: u32,
    pub identification_basis: Vec<String>,
    /// 单学科 / 双学科交叉 / 多学科交叉
    pub cross_type: String,
    pub secondary_paradigms: Vec<SecondaryParadigm>,
    pub human_review_required: bool,
    /// The score is too low: fall back to the common field set.
    pub fallback_to_common: bool,
    pub domestic: DomesticDiscipline,
    pub international: InternationalDiscipline,
    pub directions: Vec<ResearchDirection>,
}

pub struct RecognitionView {
    pub paradigm_id: Seq<char>,
    pub paradigm_name: Seq<char>,
    pub confidence: int,
    pub basis: Seq<Seq<char>>,
    pub cross_type: Seq<char>,
    pub secondary: Seq<SecondaryView>,
    pub human_review: bool,
    pub fallback: bool,
    pub domestic: DisciplineView,
    pub international: DisciplineView,
    pub directions: Seq<(Seq<char>, int)>,
}

impl View for ParadigmRecognition {
    type V = RecognitionView;

    open spec fn view(&self) -> RecognitionView {
        RecognitionView {
            paradigm_id: self.paradigm_id@,
            paradigm_name: self.paradigm_name@,
            confidence: self.confidence as int,
            basis: str_views(self.identification_basis@),
            cross_type: self.cross_type@,
            secondary: secondary_views_of(self.secondary_paradigms@),
            human_review: self.human_review_required,
            fallback: self.fallback_to_common,
            domestic: self.domestic@,
            international: self.international@,
            directions: direction_views(self.directions@),
        }
    }
}

// ---------------------------------------------------------------------------
// Signals
// ---------------------------------------------------------------------------

/// What recognition reads of a paper, lower-cased once.
pub struct Signals {
    /// Title, abstract, body sample and headings, lower-cased.
    pub hay: Seq<char>,
    /// Title and keyword line, lower-cased.
    pub tk: Seq<char>,
    /// Each heading, lower-cased.
    pub lh: Seq<Seq<char>>,
    pub tables: nat,
    pub images: nat,
    pub math: nat,
}

pub open spec fn lowered(hs: Seq<Seq<char>>) -> Seq<Seq<char>> {
    hs.map_values(|h: Seq<char>| unicode_lower(h))
}

pub open spec fn signals(inp: InputView) -> Signals {
    Signals {
        hay: unicode_lower(
            inp.title + seq![' '] + inp.abstract_text + seq![' '] + inp.body_sample + seq![' ']
                + join(inp.headings, seq![' ']),
        ),
        tk: unicode_lower(inp.title + seq![' '] + inp.keywords),
        lh: lowered(inp.headings),
        tables: inp.table_count,
        images: inp.image_count,
        math: inp.math_symbols,
    }
}

/// What recognition reads of a paper, lower-cased once (see `Signals`).
pub struct PaperSignals {
    pub hay: Vec<char>,
    pub tk: Vec<char>,
    pub lh: Vec<Vec<char>>,
    pub tables: usize,
    pub images: usize,
    pub math: usize,
}

impl PaperSignals {
    pub open spec fn view(&self) -> Signals {
        Signals {
            hay: self.hay@,
            tk: self.tk@,
            lh: views(self.lh@),
            tables: self.tables as nat,
            images: self.images as nat,
            math: self.math as nat,
        }
    }
}

fn str_chars(v: &Vec<String>) -> (r: Vec<Vec<char>>)
    ensures
        views(r@) == str_views(v@),
{
    let mut r: Vec<Vec<char>> = Vec::new();
    let mut i: usize = 0;
    while i < v.len()
        invariant
            i <= v.len(),
            views(r@) == str_views(v@.take(i as int)),
        decreases v.len() - i,
    {
        let ghost before = views(r@);
        r.push(chars_of(v[i].as_str()));
        proof {
            assert(views(r@) =~= before.push(v@[i as int]@));
            assert(str_views(v@.take(i + 1)) =~= str_views(v@.take(i as int)).push(v@[i as int]@));
        }
        i += 1;
    }
    assert(v@.take(v.len() as int) =~= v@);
    r
}

/// The signals of a paper: its texts lower-cased (`str::to_lowercase`) and
/// its counts.
pub fn paper_signals(input: &ParadigmInput) -> (r: PaperSignals)
    ensures
        r.view() == signals(input@),
{
    let hv = str_chars(&input.headings);
    let mut sp: Vec<char> = Vec::new();
    sp.push(' ');
    let joined = join_v(&hv, &sp);
    let mut s = String::new();
    s.append(input.title.as_str());
    s.append(" ");
    s.append(input.abstract_text.as_str());
    s.append(" ");
    s.append(input.body_sample.as_str());
    s.append(" ");
    crate::text::push_chars(&mut s, &joined);
    let mut t = String::new();
    t.append(input.title.as_str());
    t.append(" ");
    t.append(input.keywords.as_str());
    proof {
        reveal_strlit(" ");
        assert(sp@ =~= seq![' ']);
        let iv = input@;
        assert(s@ =~= iv.title + seq![' '] + iv.abstract_text + seq![' '] + iv.body_sample + seq![
            ' ',
        ] + join(iv.headings, seq![' ']));
        assert(t@ =~= iv.title + seq![' '] + iv.keywords);
    }
    let hay = chars_of(to_lowercase(s.as_str()).as_str());
    let tk = chars_of(to_lowercase(t.as_str()).as_str());
    let mut lh: Vec<Vec<char>> = Vec::new();
    let mut i: usize = 0;
    while i < input.headings.len()
        invariant
            i <= input.headings.len(),
            views(lh@) == lowered(str_views(input.headings@.take(i as int))),
        decreases input.headings.len() - i,
    {
        let ghost before = views(lh@);
        lh.push(chars_of(to_lowercase(input.headings[i].as_str()).as_str()));
        proof {
            let h = input.headings@;
            assert(views(lh@) =~= before.push(unicode_lower(h[i as int]@)));
            assert(str_views(h.take(i + 1)) =~= str_views(h.take(i as int)).push(h[i as int]@));
            assert(lowered(str_views(h.take(i + 1))) =~= lowered(str_views(h.take(i as int))).push(
                unicode_lower(h[i as int]@),
            ));
        }
        i += 1;
    }
    assert(input.headings@.take(input.headings.len() as int) =~= input.headings@);
    let r = PaperSignals {
        hay,
        tk,
        lh,
        tables: input.table_count,
        images: input.image_count,
        math: input.math_symbols,
    };
    assert(r.view().hay == signals(input@).hay);
    assert(r.view().tk == signals(input@).tk);
    assert(r.view().lh == signals(input@).lh);
    r
}

// ---------------------------------------------------------------------------
// Paradigm scores
// ---------------------------------------------------------------------------

pub open spec fn min_int(a: int, b: int) -> int {
    if a <= b {
        a
    } else {
        b
    }
}

/// The paper has the frame of an empirical study: two structural section
/// titles, or one together with two statistical terms.
pub open spec fn is_empirical(sg: Signals) -> bool {
    let n = in_headings(empirical_sections(), sg.lh).len();
    n >= 2 || (n == 1 && occurring(empirical_stats_terms(), sg.hay).len() >= 2)
}

/// Some signal word of discipline group `d` occurs.
pub open spec fn prior_fires(hay: Seq<char>, d: int) -> bool {
    exists|j: int| 0 <= j < prior_keywords(d).len() && contains(hay, (#[trigger] prior_keywords(d)[j])@)
}

/// Discipline prior of paradigm `i` from the first `n` groups: 0.06 for each
/// firing group that favours it most, 0.03 for each that favours it second.
pub open spec fn prior_upto(hay: Seq<char>, i: int, n: int) -> int
    decreases n,
{
    if n <= 0 {
        0
    } else {
        prior_upto(hay, i, n - 1) + if prior_fires(hay, n - 1) {
            (if prior_primary()[n - 1] == i {
                72int
            } else {
                0int
            }) + (if prior_secondary()[n - 1] == i {
                36int
            } else {
                0int
            })
        } else {
            0int
        }
    }
}

pub open spec fn prior(hay: Seq<char>, i: int) -> int {
    prior_upto(hay, i, PRIOR_COUNT as int)
}

/// Section hits in halves: full marks at two distinct section signals. The
/// theoretical paradigm has none of its own and scores full marks exactly
/// when the paper is not empirical.
pub open spec fn section_halves(i: int, sg: Signals) -> int {
    if paradigm_sections(i).len() == 0 {
        if is_empirical(sg) {
            0
        } else {
            2
        }
    } else {
        min_int(in_headings(paradigm_sections(i), sg.lh).len() as int, 2)
    }
}

/// Keyword hits in quarters: full marks at four.
pub open spec fn keyword_quarters(i: int, sg: Signals) -> int {
    min_int(occurring(paradigm_keywords(i), sg.hay).len() as int, 4)
}

/// The structural object of paradigm `i` is present: tables for the
/// experimental, empirical, case-study and review paradigms, four `$` for
/// computational simulation, images for design science.
pub open spec fn object_signal(i: int, sg: Signals) -> bool {
    if i == 0 || i == 2 || i == 4 || i == 5 {
        sg.tables > 0
    } else if i == 6 {
        sg.math >= 4
    } else if i == 7 {
        sg.images > 0
    } else {
        false
    }
}

pub open spec fn text_signal(i: int, sg: Signals) -> bool {
    section_halves(i, sg) > 0 || keyword_quarters(i, sg) > 0
}

/// Score of paradigm `i`; without a section or keyword signal the paradigm
/// does not stand, whatever its object and prior.
pub open spec fn paradigm_score(i: int, sg: Signals) -> int {
    if text_signal(i, sg) {
        270 * section_halves(i, sg) + 120 * keyword_quarters(i, sg) + (if object_signal(i, sg) {
            180int
        } else {
            0int
        }) + prior(sg.hay, i)
    } else {
        0
    }
}

pub open spec fn paradigm_scores(sg: Signals, n: int) -> Seq<u32>
    decreases n,
{
    if n <= 0 {
        Seq::empty()
    } else {
        paradigm_scores(sg, n - 1).push(paradigm_score(n - 1, sg) as u32)
    }
}

/// Why paradigm `i` scored as it did.
pub open spec fn paradigm_basis(i: int, sg: Signals) -> Seq<Seq<char>> {
    let ms = in_headings(paradigm_sections(i), sg.lh);
    let mk = occurring(paradigm_keywords(i), sg.hay);
    let text = text_signal(i, sg);
    let label = paradigm_object_labels()[i]@;
    (if section_halves(i, sg) > 0 && ms.len() > 0 {
        seq!["章节信号命中："@ + join(lit_views(ms), " / "@)]
    } else {
        Seq::empty()
    }) + (if mk.len() > 0 {
        seq!["关键词命中："@ + join(lit_views(first_n(mk, 5)), " / "@)]
    } else {
        Seq::empty()
    }) + (if object_signal(i, sg) && label.len() > 0 && text {
        seq!["检测到"@ + label]
    } else {
        Seq::empty()
    }) + (if prior(sg.hay, i) > 0 && text {
        seq!["命中学科大类先验"@]
    } else {
        Seq::empty()
    }) + (if paradigm_sections(i).len() == 0 && section_halves(i, sg) > 0 {
        seq!["无实证方法章节（主题式结构）"@]
    } else {
        Seq::empty()
    })
}

fn is_empirical_v(sv: &PaperSignals) -> (r: bool)
    ensures
        r == is_empirical(sv.view()),
{
    let secs = empirical_sections_v();
    let n = in_headings_v(&secs, &sv.lh).len();
    if n >= 2 {
        return true;
    }
    if n == 0 {
        return false;
    }
    let terms = empirical_stats_terms_v();
    occurring_v(&terms, &sv.hay).len() >= 2
}

fn prior_fires_v(hay: &Vec<char>, d: usize) -> (r: bool)
    requires
        d < PRIOR_COUNT,
    ensures
        r == prior_fires(hay@, d as int),
{
    let kws = prior_keywords_v(d);
    let mut j: usize = 0;
    while j < kws.len()
        invariant
            j <= kws.len(),
            kws@ == prior_keywords(d as int),
            forall|k: int| 0 <= k < j ==> !contains(hay@, (#[trigger] prior_keywords(d as int)[k])@),
        decreases kws.len() - j,
    {
        if contains_v(hay, &chars_of(kws[j])) {
            return true;
        }
        j += 1;
    }
    false
}

fn priors_v(hay: &Vec<char>) -> (r: Vec<u32>)
    ensures
        r.len() == PARADIGM_COUNT,
        forall|i: int| 0 <= i < PARADIGM_COUNT ==> r@[i] == prior(hay@, i),
        forall|i: int| 0 <= i < PARADIGM_COUNT ==> r@[i] <= 648,
{
    let mut r: Vec<u32> = Vec::new();
    let mut i: usize = 0;
    while i < PARADIGM_COUNT
        invariant
            i <= PARADIGM_COUNT,
            r.len() == i,
            forall|k: int| 0 <= k < i ==> r@[k] == 0,
        decreases PARADIGM_COUNT - i,
    {
        r.push(0);
        i += 1;
    }
    let pp = prior_primary_v();
    let ps = prior_secondary_v();
    let mut d: usize = 0;
    while d < PRIOR_COUNT
        invariant
            d <= PRIOR_COUNT,
            r.len() == PARADIGM_COUNT,
            pp@ == prior_primary(),
            ps@ == prior_secondary(),
            forall|k: int| 0 <= k < PARADIGM_COUNT ==> r@[k] == prior_upto(hay@, k, d as int),
            forall|k: int| 0 <= k < PARADIGM_COUNT ==> r@[k] <= 108 * d,
        decreases PRIOR_COUNT - d,
    {
        if prior_fires_v(hay, d) {
            let p = pp[d];
            if p < PARADIGM_COUNT {
                let v = r[p] + 72;
                r.set(p, v);
            }
            let q = ps[d];
            if q < PARADIGM_COUNT {
                let v = r[q] + 36;
                r.set(q, v);
            }
        }
        d += 1;
    }
    r
}

fn lit_chars(v: &Vec<&'static str>) -> (r: Vec<Vec<char>>)
    ensures
        views(r@) == lit_views(v@),
{
    let mut r: Vec<Vec<char>> = Vec::new();
    let mut i: usize = 0;
    while i < v.len()
        invariant
            i <= v.len(),
            views(r@) == lit_views(v@.take(i as int)),
        decreases v.len() - i,
    {
        let ghost before = views(r@);
        r.push(chars_of(v[i]));
        proof {
            assert(views(r@) =~= before.push(v@[i as int]@));
            assert(lit_views(v@.take(i + 1)) =~= lit_views(v@.take(i as int)).push(v@[i as int]@));
        }
        i += 1;
    }
    assert(v@.take(v.len() as int) =~= v@);
    r
}

/// `head` followed by the words joined with " / ".
fn joined_line(head: &str, words: &Vec<&'static str>) -> (r: String)
    ensures
        r@ == head@ + join(lit_views(words@), " / "@),
{
    let mut s = String::new();
    s.append(head);
    let parts = lit_chars(words);
    let j = join_v(&parts, &chars_of(" / "));
    crate::text::push_chars(&mut s, &j);
    s
}

fn text_of(s: &str) -> (r: String)
    ensures
        r@ == s@,
{
    let mut r = String::new();
    r.append(s);
    r
}

/// Score and basis of paradigm `i`.
#[verifier::rlimit(30)]
fn basis_of(
    i: usize,
    sv: &PaperSignals,
    s_halves: u32,
    k: u32,
    obj: bool,
    prior_i: u32,
    ms: &Vec<&'static str>,
    mk: &Vec<&'static str>,
    no_secs: bool,
) -> (basis: Vec<String>)
    requires
        i < PARADIGM_COUNT,
        s_halves == section_halves(i as int, sv.view()),
        k == keyword_quarters(i as int, sv.view()),
        obj == object_signal(i as int, sv.view()),
        prior_i == prior(sv.hay@, i as int),
        ms@ == in_headings(paradigm_sections(i as int), sv.view().lh),
        mk@ == occurring(paradigm_keywords(i as int), sv.view().hay),
        no_secs == (paradigm_sections(i as int).len() == 0),
    ensures
        str_views(basis@) == paradigm_basis(i as int, sv.view()),
{
    let sg = Ghost(sv.view());
    let text = s_halves > 0 || k > 0;
    let ghost p = paradigm_basis(i as int, sg@);
    let ghost ms_s = in_headings(paradigm_sections(i as int), sg@.lh);
    let ghost mk_s = occurring(paradigm_keywords(i as int), sg@.hay);
    let ghost p1: Seq<Seq<char>> = if s_halves > 0 && ms_s.len() > 0 {
        seq!["章节信号命中："@ + join(lit_views(ms_s), " / "@)]
    } else {
        Seq::empty()
    };
    let ghost p2: Seq<Seq<char>> = if mk_s.len() > 0 {
        seq!["关键词命中："@ + join(lit_views(first_n(mk_s, 5)), " / "@)]
    } else {
        Seq::empty()
    };
    let labels = paradigm_object_labels_v();
    let label = labels[i];
    let ghost p3: Seq<Seq<char>> = if obj && label@.len() > 0 && text {
        seq!["检测到"@ + label@]
    } else {
        Seq::empty()
    };
    let ghost p4: Seq<Seq<char>> = if prior_i > 0 && text {
        seq!["命中学科大类先验"@]
    } else {
        Seq::empty()
    };
    let ghost p5: Seq<Seq<char>> = if no_secs && s_halves > 0 {
        seq!["无实证方法章节（主题式结构）"@]
    } else {
        Seq::empty()
    };
    let mut basis: Vec<String> = Vec::new();
    if s_halves > 0 && ms.len() > 0 {
        basis.push(joined_line("章节信号命中：", &ms));
    }
    assert(str_views(basis@) =~= p1);
    if mk.len() > 0 {
        let top = crate::rank::first_n_v(&mk, 5);
        basis.push(joined_line("关键词命中：", &top));
    }
    assert(str_views(basis@) =~= p1 + p2);
    if obj && chars_of(label).len() > 0 && text {
        let mut s = text_of("检测到");
        s.append(label);
        basis.push(s);
    }
    assert(str_views(basis@) =~= p1 + p2 + p3);
    if prior_i > 0 && text {
        basis.push(text_of("命中学科大类先验"));
    }
    assert(str_views(basis@) =~= p1 + p2 + p3 + p4);
    if no_secs && s_halves > 0 {
        basis.push(text_of("无实证方法章节（主题式结构）"));
    }
    assert(str_views(basis@) =~= p1 + p2 + p3 + p4 + p5);
    proof {
        assert(label@ == paradigm_object_labels()[i as int]@);
        assert(p =~= p1 + p2 + p3 + p4 + p5);
    }
    basis
}

fn score_paradigm(i: usize, sv: &PaperSignals, emp: bool, prior_i: u32) -> (r: (u32, Vec<String>))
    requires
        i < PARADIGM_COUNT,
        emp == is_empirical(sv.view()),
        prior_i == prior(sv.hay@, i as int),
        prior_i <= 648,
    ensures
        r.0 == paradigm_score(i as int, sv.view()),
        str_views(r.1@) == paradigm_basis(i as int, sv.view()),
{
    let sg = Ghost(sv.view());
    let secs = paradigm_sections_v(i);
    let ms = in_headings_v(&secs, &sv.lh);
    let s_halves: u32 = if secs.len() == 0 {
        if emp {
            0
        } else {
            2
        }
    } else if ms.len() >= 2 {
        2
    } else {
        ms.len() as u32
    };
    let kws = paradigm_keywords_v(i);
    let mk = occurring_v(&kws, &sv.hay);
    let k: u32 = if mk.len() >= 4 {
        4
    } else {
        mk.len() as u32
    };
    let obj = if i == 0 || i == 2 || i == 4 || i == 5 {
        sv.tables > 0
    } else if i == 6 {
        sv.math >= 4
    } else if i == 7 {
        sv.images > 0
    } else {
        false
    };
    let text = s_halves > 0 || k > 0;
    assert(s_halves == section_halves(i as int, sg@));
    assert(k == keyword_quarters(i as int, sg@));
    assert(obj == object_signal(i as int, sg@));
    let score: u32 = if text {
        270 * s_halves + 120 * k + (if obj {
            180
        } else {
            0
        }) + prior_i
    } else {
        0
    };
    let basis = basis_of(i, sv, s_halves, k, obj, prior_i, &ms, &mk, secs.len() == 0);
    (score, basis)
}

fn paradigm_hits_v(sv: &PaperSignals, emp: bool, priors: &Vec<u32>) -> (r: (Vec<u32>, Vec<Vec<String>>))
    requires
        emp == is_empirical(sv.view()),
        priors.len() == PARADIGM_COUNT,
        forall|i: int| 0 <= i < PARADIGM_COUNT ==> priors@[i] == prior(sv.hay@, i),
        forall|i: int| 0 <= i < PARADIGM_COUNT ==> priors@[i] <= 648,
    ensures
        r.0@ == paradigm_scores(sv.view(), PARADIGM_COUNT as int),
        r.0.len() == PARADIGM_COUNT,
        r.1.len() == PARADIGM_COUNT,
        forall|i: int| 0 <= i < PARADIGM_COUNT ==> str_views(#[trigger] r.1@[i]@) == paradigm_basis(i, sv.view()),
{
    let mut scores: Vec<u32> = Vec::new();
    let mut bases: Vec<Vec<String>> = Vec::new();
    let mut i: usize = 0;
    while i < PARADIGM_COUNT
        invariant
            i <= PARADIGM_COUNT,
            emp == is_empirical(sv.view()),
            priors.len() == PARADIGM_COUNT,
            forall|k: int| 0 <= k < PARADIGM_COUNT ==> priors@[k] == prior(sv.hay@, k),
            forall|k: int| 0 <= k < PARADIGM_COUNT ==> priors@[k] <= 648,
            scores@ == paradigm_scores(sv.view(), i as int),
            scores.len() == i,
            bases.len() == i,
            forall|k: int| 0 <= k < i ==> str_views(#[trigger] bases@[k]@) == paradigm_basis(k, sv.view()),
        decreases PARADIGM_COUNT - i,
    {
        let (sc, b) = score_paradigm(i, sv, emp, priors[i]);
        scores.push(sc);
        bases.push(b);
        i += 1;
    }
    (scores, bases)
}

// ---------------------------------------------------------------------------
// Disciplines and directions
// ---------------------------------------------------------------------------

/// Entries `(count, index)` as named items with weight `min(count, cap) × unit`.
pub open spec fn scaled_items(s: Seq<(u32, usize)>, names: Seq<&'static str>, cap: int, unit: int) -> Seq<
    (Seq<char>, int),
>
    decreases s.len(),
{
    if s.len() == 0 {
        Seq::empty()
    } else {
        scaled_items(s.drop_last(), names, cap, unit).push(
            (names[s.last().1 as int]@, min_int(s.last().0 as int, cap) * unit),
        )
    }
}

/// The best-ranked entry of a discipline dictionary, its matched words as
/// basis, and the runners-up with at least two hits (at most three);
/// `unknown_name` and `unknown_basis` stand in when nothing hit.
pub open spec fn discipline_of(
    ranked: Seq<(u32, usize)>,
    groups: Seq<&'static str>,
    codes: Seq<&'static str>,
    names: Seq<&'static str>,
    matched: Seq<&'static str>,
    unknown_name: Seq<char>,
    unknown_basis: Seq<char>,
) -> DisciplineView {
    let c = ranked[0].0;
    let b = ranked[0].1 as int;
    DisciplineView {
        group: groups[b]@,
        code: codes[b]@,
        name: if c > 0 {
            names[b]@
        } else {
            unknown_name
        },
        confidence: min_int(c as int, 4) * 300,
        basis: if c > 0 {
            lit_views(first_n(matched, 5))
        } else {
            seq![unknown_basis]
        },
        secondary: scaled_items(first_n(keep_at_least(ranked.skip(1), 2), 3), names, 4, 300),
    }
}

pub open spec fn domestic_counts(sg: Signals, n: int) -> Seq<u32>
    decreases n,
{
    if n <= 0 {
        Seq::empty()
    } else {
        domestic_counts(sg, n - 1).push(
            discipline_hits(domestic_keywords(n - 1), sg.hay, sg.tk).len() as u32,
        )
    }
}

pub open spec fn international_counts(sg: Signals, n: int) -> Seq<u32>
    decreases n,
{
    if n <= 0 {
        Seq::empty()
    } else {
        international_counts(sg, n - 1).push(
            discipline_hits(international_keywords(n - 1), sg.hay, sg.tk).len() as u32,
        )
    }
}

pub open spec fn direction_counts(sg: Signals, n: int) -> Seq<u32>
    decreases n,
{
    if n <= 0 {
        Seq::empty()
    } else {
        direction_counts(sg, n - 1).push(word_hits_in(direction_keywords(n - 1), sg.hay).len() as u32)
    }
}

pub open spec fn domestic_of(sg: Signals) -> DisciplineView {
    let ranked = rank_desc(domestic_counts(sg, DOMESTIC_COUNT as int));
    discipline_of(
        ranked,
        domestic_categories(),
        domestic_codes(),
        domestic_names(),
        discipline_hits(domestic_keywords(ranked[0].1 as int), sg.hay, sg.tk),
        "未识别"@,
        "未匹配到足够学科信号"@,
    )
}

pub open spec fn international_of(sg: Signals) -> DisciplineView {
    let ranked = rank_desc(international_counts(sg, INTERNATIONAL_COUNT as int));
    discipline_of(
        ranked,
        international_groups(),
        international_codes(),
        international_names(),
        discipline_hits(international_keywords(ranked[0].1 as int), sg.hay, sg.tk),
        "Unidentified"@,
        "no sufficient signals"@,
    )
}

/// Directions with at least two hits, best first, at most three; weight
/// `min(hits, 3) / 3`.
pub open spec fn directions_of(sg: Signals) -> Seq<(Seq<char>, int)> {
    scaled_items(
        first_n(keep_at_least(rank_desc(direction_counts(sg, DIRECTION_COUNT as int)), 2), 3),
        direction_names(),
        3,
        400,
    )
}

fn scaled_items_v(s: &Vec<(u32, usize)>, names: &Vec<&'static str>, cap: u32, unit: u32) -> (r: Vec<
    SecondaryItem,
>)
    requires
        indices_below(s@, names.len() as int),
        cap <= 4,
        unit <= 400,
    ensures
        item_views(r@) == scaled_items(s@, names@, cap as int, unit as int),
{
    let mut r: Vec<SecondaryItem> = Vec::new();
    let mut i: usize = 0;
    while i < s.len()
        invariant
            i <= s.len(),
            indices_below(s@, names.len() as int),
            cap <= 4,
            unit <= 400,
            item_views(r@) == scaled_items(s@.take(i as int), names@, cap as int, unit as int),
        decreases s.len() - i,
    {
        let (c, b) = s[i];
        assert(s@[i as int].1 < names.len());
        let m = if c < cap {
            c
        } else {
            cap
        };
        let ghost before = item_views(r@);
        assert(m * unit <= 1600) by (nonlinear_arith)
            requires
                m <= 4,
                unit <= 400,
        ;
        r.push(SecondaryItem { name: text_of(names[b]), weight: m * unit });
        proof {
            let t = s@.take(i + 1);
            assert(t.drop_last() =~= s@.take(i as int));
            assert(t.last() == s@[i as int]);
            assert(item_views(r@) =~= before.push((names@[b as int]@, min_int(c as int, cap as int) * unit)));
        }
        i += 1;
    }
    assert(s@.take(s.len() as int) =~= s@);
    r
}

fn discipline_v(
    ranked: &Vec<(u32, usize)>,
    groups: &Vec<&'static str>,
    codes: &Vec<&'static str>,
    names: &Vec<&'static str>,
    matched: &Vec<&'static str>,
    unknown_name: &str,
    unknown_basis: &str,
) -> (r: (String, String, String, u32, Vec<String>, Vec<SecondaryItem>))
    requires
        ranked.len() >= 1,
        indices_below(ranked@, names.len() as int),
        groups.len() == names.len(),
        codes.len() == names.len(),
    ensures
        ({
            let v = discipline_of(
                ranked@,
                groups@,
                codes@,
                names@,
                matched@,
                unknown_name@,
                unknown_basis@,
            );
            &&& r.0@ == v.group
            &&& r.1@ == v.code
            &&& r.2@ == v.name
            &&& r.3 == v.confidence
            &&& str_views(r.4@) == v.basis
            &&& item_views(r.5@) == v.secondary
        }),
{
    let (c, b) = ranked[0];
    let name = if c > 0 {
        text_of(names[b])
    } else {
        text_of(unknown_name)
    };
    let conf = if c < 4 {
        c * 300
    } else {
        1200
    };
    let mut basis: Vec<String> = Vec::new();
    if c > 0 {
        let top = first_n_v(matched, 5);
        let mut j: usize = 0;
        while j < top.len()
            invariant
                j <= top.len(),
                str_views(basis@) == lit_views(top@.take(j as int)),
            decreases top.len() - j,
        {
            let ghost before = str_views(basis@);
            basis.push(text_of(top[j]));
            proof {
                assert(str_views(basis@) =~= before.push(top@[j as int]@));
                assert(lit_views(top@.take(j + 1)) =~= lit_views(top@.take(j as int)).push(top@[j as int]@));
            }
            j += 1;
        }
        assert(top@.take(top.len() as int) =~= top@);
    } else {
        basis.push(text_of(unknown_basis));
        assert(str_views(basis@) =~= seq![unknown_basis@]);
    }
    let rest = skip_first_v(ranked);
    let kept = keep_at_least_v(&rest, 2);
    let top3 = first_n_v(&kept, 3);
    proof {
        lemma_skip_below(ranked@, names.len() as int);
        lemma_keep(rest@, 2, names.len() as int);
        lemma_first_n_below(kept@, 3, names.len() as int);
    }
    let secondary = scaled_items_v(&top3, names, 4, 300);
    (text_of(groups[b]), text_of(codes[b]), name, conf, basis, secondary)
}

fn counts_domestic(sv: &PaperSignals) -> (r: Vec<u32>)
    ensures
        r@ == domestic_counts(sv.view(), DOMESTIC_COUNT as int),
        r.len() == DOMESTIC_COUNT,
{
    let mut r: Vec<u32> = Vec::new();
    let mut d: usize = 0;
    while d < DOMESTIC_COUNT
        invariant
            d <= DOMESTIC_COUNT,
            r.len() == d,
            r@ == domestic_counts(sv.view(), d as int),
        decreases DOMESTIC_COUNT - d,
    {
        let kws = domestic_keywords_v(d);
        let m = discipline_hits_v(&kws, &sv.hay, &sv.tk);
        r.push(m.len() as u32);
        d += 1;
    }
    r
}

fn counts_international(sv: &PaperSignals) -> (r: Vec<u32>)
    ensures
        r@ == international_counts(sv.view(), INTERNATIONAL_COUNT as int),
        r.len() == INTERNATIONAL_COUNT,
{
    let mut r: Vec<u32> = Vec::new();
    let mut d: usize = 0;
    while d < INTERNATIONAL_COUNT
        invariant
            d <= INTERNATIONAL_COUNT,
            r.len() == d,
            r@ == international_counts(sv.view(), d as int),
        decreases INTERNATIONAL_COUNT - d,
    {
        let kws = international_keywords_v(d);
        let m = discipline_hits_v(&kws, &sv.hay, &sv.tk);
        r.push(m.len() as u32);
        d += 1;
    }
    r
}

fn counts_directions(sv: &PaperSignals) -> (r: Vec<u32>)
    ensures
        r@ == direction_counts(sv.view(), DIRECTION_COUNT as int),
        r.len() == DIRECTION_COUNT,
{
    let mut r: Vec<u32> = Vec::new();
    let mut d: usize = 0;
    while d < DIRECTION_COUNT
        invariant
            d <= DIRECTION_COUNT,
            r.len() == d,
            r@ == direction_counts(sv.view(), d as int),
        decreases DIRECTION_COUNT - d,
    {
        let kws = direction_keywords_v(d);
        let m = word_hits_in_v(&kws, &sv.hay);
        r.push(m.len() as u32);
        d += 1;
    }
    r
}

fn domestic_v(sv: &PaperSignals) -> (r: DomesticDiscipline)
    ensures
        r@ == domestic_of(sv.view()),
{
    let counts = counts_domestic(sv);
    let ranked = rank_v(&counts);
    proof {
        lemma_rank_below(counts@);
    }
    let names = domestic_names_v();
    let best_kws = domestic_keywords_v(ranked[0].1);
    let matched = discipline_hits_v(&best_kws, &sv.hay, &sv.tk);
    let (g, c, n, conf, basis, secondary) = discipline_v(
        &ranked,
        &domestic_categories_v(),
        &domestic_codes_v(),
        &names,
        &matched,
        "未识别",
        "未匹配到足够学科信号",
    );
    DomesticDiscipline { category: g, code: c, discipline: n, confidence: conf, basis, secondary }
}

fn international_v(sv: &PaperSignals) -> (r: InternationalDiscipline)
    ensures
        r@ == international_of(sv.view()),
{
    let counts = counts_international(sv);
    let ranked = rank_v(&counts);
    proof {
        lemma_rank_below(counts@);
    }
    let names = international_names_v();
    let best_kws = international_keywords_v(ranked[0].1);
    let matched = discipline_hits_v(&best_kws, &sv.hay, &sv.tk);
    let (g, c, n, conf, basis, secondary) = discipline_v(
        &ranked,
        &international_groups_v(),
        &international_codes_v(),
        &names,
        &matched,
        "Unidentified",
        "no sufficient signals",
    );
    InternationalDiscipline { supergroup: g, code: c, discipline: n, confidence: conf, basis, secondary }
}

fn directions_v(sv: &PaperSignals) -> (r: Vec<ResearchDirection>)
    ensures
        direction_views(r@) == directions_of(sv.view()),
{
    let counts = counts_directions(sv);
    let ranked = rank_v(&counts);
    let names = direction_names_v();
    proof {
        lemma_rank_below(counts@);
    }
    let kept = keep_at_least_v(&ranked, 2);
    let top3 = first_n_v(&kept, 3);
    proof {
        lemma_keep(ranked@, 2, DIRECTION_COUNT as int);
        lemma_first_n_below(kept@, 3, DIRECTION_COUNT as int);
    }
    let items = scaled_items_v(&top3, &names, 3, 400);
    let mut r: Vec<ResearchDirection> = Vec::new();
    let mut i: usize = 0;
    while i < items.len()
        invariant
            i <= items.len(),
            direction_views(r@) == item_views(items@).take(i as int),
        decreases items.len() - i,
    {
        let ghost before = direction_views(r@);
        r.push(ResearchDirection { name: items[i].name.clone(), weight: items[i].weight });
        proof {
            assert(direction_views(r@) =~= before.push(items@[i as int]@));
            assert(item_views(items@).take(i + 1) =~= item_views(items@).take(i as int).push(
                items@[i as int]@,
            ));
        }
        i += 1;
    }
    assert(item_views(items@).take(items.len() as int) =~= item_views(items@));
    r
}

// ---------------------------------------------------------------------------
// Recognition
// ---------------------------------------------------------------------------

/// Cross type from the best score, whether three paradigms reach 0.15, and
/// the best secondary score.
pub open spec fn cross_type_of(best: int, multi: bool, second: int) -> Seq<char> {
    if best < 600 {
        "单学科"@
    } else if multi {
        "多学科交叉"@
    } else if best >= 900 && second < 300 {
        "单学科"@
    } else if second >= 300 {
        "双学科交叉"@
    } else {
        "单学科"@
    }
}

pub open spec fn secondary_of(sec: Seq<(u32, usize)>, sg: Signals) -> Seq<SecondaryView>
    decreases sec.len(),
{
    if sec.len() == 0 {
        Seq::empty()
    } else {
        let (w, i) = sec.last();
        secondary_of(sec.drop_last(), sg).push(
            SecondaryView {
                id: paradigm_ids()[i as int]@,
                name: paradigm_names()[i as int]@,
                weight: w as int,
                basis: paradigm_basis(i as int, sg),
            },
        )
    }
}

/// The paradigms ranked by score, best first (ties in table order).
pub open spec fn ranked_paradigms(sg: Signals) -> Seq<(u32, usize)> {
    rank_desc(paradigm_scores(sg, PARADIGM_COUNT as int))
}

/// What `recognize` returns for a paper.
pub open spec fn recognition(inp: InputView) -> RecognitionView {
    recognition_of(signals(inp))
}

/// The recognition from a paper's lower-cased signals.
pub open spec fn recognition_of(sg: Signals) -> RecognitionView {
    let ranked = ranked_paradigms(sg);
    let best = ranked[0].0 as int;
    let bi = ranked[0].1 as int;
    let sec = keep_at_least(ranked.skip(1), 180);
    let second = if sec.len() > 0 {
        sec[0].0 as int
    } else {
        0
    };
    let multi = keep_at_least(ranked, 180).len() >= 3;
    let basis = paradigm_basis(bi, sg);
    RecognitionView {
        paradigm_id: paradigm_ids()[bi]@,
        paradigm_name: paradigm_names()[bi]@,
        confidence: min_int(best, SCALE as int),
        basis: if basis.len() == 0 {
            seq!["信号匹配不足，建议人工确认范式"@]
        } else {
            basis
        },
        cross_type: cross_type_of(best, multi, second),
        secondary: secondary_of(sec, sg),
        human_review: best < 600,
        fallback: best < 600,
        domestic: domestic_of(sg),
        international: international_of(sg),
        directions: directions_of(sg),
    }
}

pub(crate) fn clone_strings(v: &Vec<String>) -> (r: Vec<String>)
    ensures
        str_views(r@) == str_views(v@),
{
    let mut r: Vec<String> = Vec::new();
    let mut i: usize = 0;
    while i < v.len()
        invariant
            i <= v.len(),
            str_views(r@) == str_views(v@.take(i as int)),
        decreases v.len() - i,
    {
        let ghost before = str_views(r@);
        r.push(v[i].clone());
        proof {
            assert(str_views(r@) =~= before.push(v@[i as int]@));
            assert(str_views(v@.take(i + 1)) =~= str_views(v@.take(i as int)).push(v@[i as int]@));
        }
        i += 1;
    }
    assert(v@.take(v.len() as int) =~= v@);
    r
}

fn secondary_v(sec: &Vec<(u32, usize)>, bases: &Vec<Vec<String>>, sg: Ghost<Signals>) -> (r: Vec<
    SecondaryParadigm,
>)
    requires
        indices_below(sec@, PARADIGM_COUNT as int),
        bases.len() == PARADIGM_COUNT,
        forall|i: int| 0 <= i < PARADIGM_COUNT ==> str_views(#[trigger] bases@[i]@) == paradigm_basis(i, sg@),
    ensures
        secondary_views_of(r@) == secondary_of(sec@, sg@),
{
    let ids = paradigm_ids_v();
    let names = paradigm_names_v();
    let mut r: Vec<SecondaryParadigm> = Vec::new();
    let mut k: usize = 0;
    while k < sec.len()
        invariant
            k <= sec.len(),
            ids@ == paradigm_ids(),
            names@ == paradigm_names(),
            indices_below(sec@, PARADIGM_COUNT as int),
            bases.len() == PARADIGM_COUNT,
            forall|i: int| 0 <= i < PARADIGM_COUNT ==> str_views(#[trigger] bases@[i]@) == paradigm_basis(i, sg@),
            secondary_views_of(r@) == secondary_of(sec@.take(k as int), sg@),
        decreases sec.len() - k,
    {
        let (w, i) = sec[k];
        assert(sec@[k as int].1 < PARADIGM_COUNT);
        let ghost before = secondary_views_of(r@);
        let item = SecondaryParadigm {
            paradigm_id: text_of(ids[i]),
            paradigm_name: text_of(names[i]),
            weight: w,
            basis: clone_strings(&bases[i]),
        };
        r.push(item);
        proof {
            let t = sec@.take(k + 1);
            assert(t.drop_last() =~= sec@.take(k as int));
            assert(t.last() == sec@[k as int]);
            assert(secondary_views_of(r@) =~= before.push(item@));
        }
        k += 1;
    }
    assert(sec@.take(sec.len() as int) =~= sec@);
    r
}

/// Recognize the research paradigm, the disciplines and the research
/// directions of a paper.
pub fn recognize(input: &ParadigmInput) -> (r: ParadigmRecognition)
    ensures
        r@ == recognition(input@),
{
    let sv = paper_signals(input);
    recognize_signals(&sv)
}

/// Recognize the research paradigm, the disciplines and the research
/// directions from a paper's lower-cased signals.
pub fn recognize_signals(sv: &PaperSignals) -> (r: ParadigmRecognition)
    ensures
        r@ == recognition_of(sv.view()),
{
    let sg = Ghost(sv.view());
    let emp = is_empirical_v(sv);
    let priors = priors_v(&sv.hay);
    let (scores, bases) = paradigm_hits_v(sv, emp, &priors);
    let ranked = rank_v(&scores);
    proof {
        lemma_rank_below(scores@);
    }
    let (best, bi) = ranked[0];
    let rest = skip_first_v(&ranked);
    let sec = keep_at_least_v(&rest, 180);
    proof {
        lemma_skip_below(ranked@, PARADIGM_COUNT as int);
        lemma_keep(rest@, 180, PARADIGM_COUNT as int);
    }
    let second: u32 = if sec.len() > 0 {
        sec[0].0
    } else {
        0
    };
    let multi = keep_at_least_v(&ranked, 180).len() >= 3;
    let ids = paradigm_ids_v();
    let names = paradigm_names_v();
    let basis = if bases[bi].len() == 0 {
        let mut b: Vec<String> = Vec::new();
        b.push(text_of("信号匹配不足，建议人工确认范式"));
        assert(str_views(b@) =~= seq!["信号匹配不足，建议人工确认范式"@]);
        b
    } else {
        clone_strings(&bases[bi])
    };
    let cross = if best < 600 {
        text_of("单学科")
    } else if multi {
        text_of("多学科交叉")
    } else if best >= 900 && second < 300 {
        text_of("单学科")
    } else if second >= 300 {
        text_of("双学科交叉")
    } else {
        text_of("单学科")
    };
    let secondary = secondary_v(&sec, &bases, sg);
    let r = ParadigmRecognition {
        paradigm_id: text_of(ids[bi]),
        paradigm_name: text_of(names[bi]),
        confidence: if best < SCALE {
            best
        } else {
            SCALE
        },
        identification_basis: basis,
        cross_type: cross,
        secondary_paradigms: secondary,
        human_review_required: best < 600,
        fallback_to_common: best < 600,
        domestic: domestic_v(sv),
        international: international_v(sv),
        directions: directions_v(sv),
    };
    proof {
        assert(str_views(bases@[bi as int]@) == paradigm_basis(bi as int, sg@));
    }
    r
}

proof fn lemma_secondary_of(sec: Seq<(u32, usize)>, sg: Signals)
    ensures
        secondary_of(sec, sg).len() == sec.len(),
        forall|k: int| 0 <= k < sec.len() ==> (#[trigger] secondary_of(sec, sg)[k]).weight == sec[k].0 as int,
    decreases sec.len(),
{
    if sec.len() > 0 {
        lemma_secondary_of(sec.drop_last(), sg);
        assert forall|k: int| 0 <= k < sec.len() implies (#[trigger] secondary_of(sec, sg)[k]).weight
            == sec[k].0 as int by {
            if k < sec.len() - 1 {
                assert(secondary_of(sec, sg)[k] == secondary_of(sec.drop_last(), sg)[k]);
                assert(sec.drop_last()[k] == sec[k]);
            }
        }
    }
}

proof fn lemma_scaled_items_len(s: Seq<(u32, usize)>, names: Seq<&'static str>, cap: int, unit: int)
    ensures
        scaled_items(s, names, cap, unit).len() == s.len(),
    decreases s.len(),
{
    if s.len() > 0 {
        lemma_scaled_items_len(s.drop_last(), names, cap, unit);
    }
}

proof fn lemma_runners_up(ranked: Seq<(u32, usize)>, names: Seq<&'static str>)
    requires
        ranked.len() >= 1,
        indices_below(ranked, names.len() as int),
    ensures
        scaled_items(first_n(keep_at_least(ranked.skip(1), 2), 3), names, 4, 300).len() <= 3,
{
    lemma_skip_below(ranked, names.len() as int);
    lemma_keep(ranked.skip(1), 2, names.len() as int);
    let k = keep_at_least(ranked.skip(1), 2);
    lemma_first_n_below(k, 3, names.len() as int);
    lemma_scaled_items_len(first_n(k, 3), names, 4, 300);
}

/// Every recognition is well-formed: the confidence never exceeds 1, a
/// paper that falls back to the common field set is flagged for human
/// review and treated as single-discipline, every secondary paradigm scores
/// at least 0.15 and none of the listed runners-up or directions exceeds
/// three.
pub proof fn law_recognition_shape(inp: InputView)
    ensures
        recognition(inp).confidence <= SCALE,
        recognition(inp).fallback == recognition(inp).human_review,
        recognition(inp).fallback ==> recognition(inp).cross_type == "单学科"@,
        forall|k: int|
            0 <= k < recognition(inp).secondary.len() ==> (#[trigger] recognition(inp).secondary[k]).weight
                >= 180,
        recognition(inp).domestic.secondary.len() <= 3,
        recognition(inp).international.secondary.len() <= 3,
        recognition(inp).directions.len() <= 3,
        recognition(inp).domestic.confidence <= SCALE,
        recognition(inp).international.confidence <= SCALE,
{
    let sg = signals(inp);
    let scores = paradigm_scores(sg, PARADIGM_COUNT as int);
    lemma_paradigm_scores_len(sg, PARADIGM_COUNT as int);
    lemma_rank_below(scores);
    let ranked = ranked_paradigms(sg);
    lemma_skip_below(ranked, PARADIGM_COUNT as int);
    lemma_keep(ranked.skip(1), 180, PARADIGM_COUNT as int);
    lemma_secondary_of(keep_at_least(ranked.skip(1), 180), sg);
    let dc = domestic_counts(sg, DOMESTIC_COUNT as int);
    lemma_domestic_counts_len(sg, DOMESTIC_COUNT as int);
    lemma_rank_below(dc);
    lemma_runners_up(rank_desc(dc), domestic_names());
    let ic = international_counts(sg, INTERNATIONAL_COUNT as int);
    lemma_international_counts_len(sg, INTERNATIONAL_COUNT as int);
    lemma_rank_below(ic);
    lemma_runners_up(rank_desc(ic), international_names());
    let rc = direction_counts(sg, DIRECTION_COUNT as int);
    lemma_direction_counts_len(sg, DIRECTION_COUNT as int);
    lemma_rank_below(rc);
    lemma_keep(rank_desc(rc), 2, DIRECTION_COUNT as int);
    lemma_first_n_below(keep_at_least(rank_desc(rc), 2), 3, DIRECTION_COUNT as int);
    lemma_scaled_items_len(
        first_n(keep_at_least(rank_desc(rc), 2), 3),
        direction_names(),
        3,
        400,
    );
}

proof fn lemma_paradigm_scores_len(sg: Signals, n: int)
    requires
        n >= 0,
    ensures
        paradigm_scores(sg, n).len() == n,
    decreases n,
{
    if n > 0 {
        lemma_paradigm_scores_len(sg, n - 1);
    }
}

proof fn lemma_domestic_counts_len(sg: Signals, n: int)
    requires
        n >= 0,
    ensures
        domestic_counts(sg, n).len() == n,
    decreases n,
{
    if n > 0 {
        lemma_domestic_counts_len(sg, n - 1);
    }
}

proof fn lemma_international_counts_len(sg: Signals, n: int)
    requires
        n >= 0,
    ensures
        international_counts(sg, n).len() == n,
    decreases n,
{
    if n > 0 {
        lemma_international_counts_len(sg, n - 1);
    }
}

proof fn lemma_direction_counts_len(sg: Signals, n: int)
    requires
        n >= 0,
    ensures
        direction_counts(sg, n).len() == n,
    decreases n,
{
    if n > 0 {
        lemma_direction_counts_len(sg, n - 1);
    }
}

/// Law: the cross type follows from the recognized scores alone. Below a
/// confidence of 0.50 a paper is single-discipline; otherwise two or more
/// secondary paradigms (each at 0.15 or more) make a multi-discipline
/// cross, exactly one secondary paradigm at 0.25 or more makes a
/// two-discipline cross, and anything less is single-discipline.
pub proof fn law_cross_type(sg: Signals)
    ensures
        recognition_of(sg).confidence < 600 ==> recognition_of(sg).cross_type == "单学科"@,
        recognition_of(sg).confidence >= 600 && recognition_of(sg).secondary.len() >= 2
            ==> recognition_of(sg).cross_type == "多学科交叉"@,
        recognition_of(sg).confidence >= 600 && recognition_of(sg).secondary.len() == 1
            && recognition_of(sg).secondary[0].weight >= 300 ==> recognition_of(sg).cross_type
            == "双学科交叉"@,
        recognition_of(sg).confidence >= 600 && recognition_of(sg).secondary.len() == 1
            && recognition_of(sg).secondary[0].weight < 300 ==> recognition_of(sg).cross_type
            == "单学科"@,
        recognition_of(sg).confidence >= 600 && recognition_of(sg).secondary.len() == 0
            ==> recognition_of(sg).cross_type == "单学科"@,
{
    let scores = paradigm_scores(sg, PARADIGM_COUNT as int);
    lemma_paradigm_scores_len(sg, PARADIGM_COUNT as int);
    lemma_rank_below(scores);
    let ranked = ranked_paradigms(sg);
    let sec = keep_at_least(ranked.skip(1), 180);
    lemma_secondary_of(sec, sg);
    crate::rank::lemma_keep_first(ranked, 180);
    let r = recognition_of(sg);
    let best = ranked[0].0 as int;
    assert(r.confidence == min_int(best, SCALE as int));
    assert(r.secondary.len() == sec.len());
    if sec.len() > 0 {
        assert(r.secondary[0].weight == sec[0].0 as int);
    }
}

/// Law: the cross type of a paper, read from its inputs.
pub proof fn law_recognition_cross_type(inp: InputView)
    ensures
        recognition(inp).confidence < 600 ==> recognition(inp).cross_type == "单学科"@,
        recognition(inp).confidence >= 600 && recognition(inp).secondary.len() >= 2
            ==> recognition(inp).cross_type == "多学科交叉"@,
        recognition(inp).confidence >= 600 && recognition(inp).secondary.len() == 1
            && recognition(inp).secondary[0].weight >= 300 ==> recognition(inp).cross_type
            == "双学科交叉"@,
        recognition(inp).confidence >= 600 && recognition(inp).secondary.len() <= 1 && (
        recognition(inp).secondary.len() == 0 || recognition(inp).secondary[0].weight < 300)
            ==> recognition(inp).cross_type == "单学科"@,
{
    law_cross_type(signals(inp));
}

} // verus!
