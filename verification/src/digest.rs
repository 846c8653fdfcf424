//! Digest execution: numbered context with citation anchors, the context
//! chosen for each field, the prompts, the reading of the model's bilingual
//! JSON answer, and the retry policy of one field.
use vstd::prelude::*;
use crate::fields::{field_views, paradigm_index, FieldDef, FieldView};
use crate::json::{json_pointer_node, node_at, index_pointer, index_pointer_v, key_pointer, key_pointer_v, JsonKind};
use crate::paradigm::{lit_views, str_views, ParadigmRecognition, RecognitionView};
use crate::rank::{keep_at_least, keep_at_least_v, lemma_keep_contents, lemma_rank_contents, rank_desc, rank_v};
use crate::segment::{split_pairs, split_spec, SegKind};
use crate::text::{
    append_str, append_v, ascii_lower, chars_of, contains, contains_v, decimal, decimal_v, eq_v,
    is_alnum, is_ascii_char, is_ws, join, join_v, lower_v, push_chars, slice_v, string_of, to_lowercase,
    trim, trim_end_str, trim_end_str_v, trim_start_char, trim_start_char_v, trim_start_str,
    trim_start_str_v, trim_v, unicode_lower, views, ws,
};
use crate::translate::TranslateError;

verus! {

// ---------------------------------------------------------------------------
// Numbered segments
// ---------------------------------------------------------------------------

/// One entry of the numbered context: a body paragraph with its number, or
/// a section heading.
#[derive(Clone, Debug)]
pub struct NumberedSeg {
    /// Paragraph number; `None` for a heading.
    pub no: Option<usize>,
    /// Heading text (headings only).
    pub heading: Option<String>,
    pub content: String,
}

pub open spec fn opt_text(o: Option<String>) -> Option<Seq<char>> {
    match o {
        Some(s) => Some(s@),
        None => None,
    }
}

impl View for NumberedSeg {
    type V = (Option<nat>, Option<Seq<char>>, Seq<char>);

    open spec fn view(&self) -> (Option<nat>, Option<Seq<char>>, Seq<char>) {
        (
            match self.no {
                Some(n) => Some(n as nat),
                None => None,
            },
            opt_text(self.heading),
            self.content@,
        )
    }
}

pub open spec fn numbered_views(v: Seq<NumberedSeg>) -> Seq<(Option<nat>, Option<Seq<char>>, Seq<char>)> {
    v.map_values(|x: NumberedSeg| x@)
}

/// Number of paragraphs among the segments.
pub open spec fn paragraph_count(segs: Seq<(SegKind, Seq<char>)>) -> nat
    decreases segs.len(),
{
    if segs.len() == 0 {
        0
    } else {
        paragraph_count(segs.drop_last()) + if segs.last().0 == SegKind::Paragraph {
            1nat
        } else {
            0nat
        }
    }
}

/// Paragraphs numbered from 1 in reading order, headings kept without
/// their `#` marks, every other segment left out.
pub open spec fn numbered(segs: Seq<(SegKind, Seq<char>)>) -> Seq<(Option<nat>, Option<Seq<char>>, Seq<char>)>
    decreases segs.len(),
{
    if segs.len() == 0 {
        Seq::empty()
    } else {
        let r = numbered(segs.drop_last());
        let (k, c) = segs.last();
        if k == SegKind::Paragraph {
            r.push((Some(paragraph_count(segs)), None, c))
        } else if k == SegKind::Heading {
            r.push((None, Some(trim(trim_start_char(c, '#'))), Seq::empty()))
        } else {
            r
        }
    }
}

/// Split parsed Markdown into numbered entries: body paragraphs get
/// increasing numbers, section headings are kept on their own.
pub fn number_segments(md: &str) -> (r: Vec<NumberedSeg>)
    ensures
        numbered_views(r@) == numbered(split_spec(md@)),
{
    let pairs = split_pairs(md);
    let ghost segs = split_spec(md@);
    let mut out: Vec<NumberedSeg> = Vec::new();
    let mut para_no: usize = 0;
    let mut i: usize = 0;
    while i < pairs.len()
        invariant
            i <= pairs.len(),
            crate::segment::seg_views(pairs@) == segs,
            numbered_views(out@) == numbered(segs.take(i as int)),
            para_no == paragraph_count(segs.take(i as int)),
            para_no <= i,
        decreases pairs.len() - i,
    {
        proof {
            let t = segs.take(i + 1);
            assert(t.drop_last() =~= segs.take(i as int));
            assert(t.last() == segs[i as int]);
            assert(segs[i as int] == (pairs@[i as int].0, pairs@[i as int].1@));
        }
        let ghost before = numbered_views(out@);
        let kind = pairs[i].0;
        if kind == SegKind::Paragraph {
            para_no += 1;
            out.push(NumberedSeg { no: Some(para_no), heading: None, content: string_of(&pairs[i].1) });
            assert(numbered_views(out@) =~= before.push((Some(para_no as nat), None, pairs@[i as int].1@)));
        } else if kind == SegKind::Heading {
            let h = trim_v(&trim_start_char_v(&pairs[i].1, '#'));
            out.push(NumberedSeg { no: None, heading: Some(string_of(&h)), content: String::new() });
            assert(numbered_views(out@) =~= before.push((None, Some(h@), Seq::empty())));
        }
        i += 1;
    }
    assert(segs.take(pairs.len() as int) =~= segs);
    out
}

/// The paragraph numbers in order.
pub open spec fn paragraph_numbers(v: Seq<(Option<nat>, Option<Seq<char>>, Seq<char>)>) -> Seq<nat>
    decreases v.len(),
{
    if v.len() == 0 {
        Seq::empty()
    } else {
        let r = paragraph_numbers(v.drop_last());
        match v.last().0 {
            Some(n) => r.push(n),
            None => r,
        }
    }
}

proof fn lemma_numbers_consecutive(segs: Seq<(SegKind, Seq<char>)>)
    ensures
        paragraph_numbers(numbered(segs)).len() == paragraph_count(segs),
        forall|j: int|
            0 <= j < paragraph_numbers(numbered(segs)).len() ==> #[trigger] paragraph_numbers(
                numbered(segs),
            )[j] == j + 1,
    decreases segs.len(),
{
    if segs.len() > 0 {
        lemma_numbers_consecutive(segs.drop_last());
        let prev = paragraph_numbers(numbered(segs.drop_last()));
        let cur = paragraph_numbers(numbered(segs));
        let ns = numbered(segs);
        if segs.last().0 == SegKind::Paragraph {
            assert(ns.drop_last() =~= numbered(segs.drop_last()));
            assert(cur == prev.push(paragraph_count(segs)));
            assert forall|j: int| 0 <= j < cur.len() implies #[trigger] cur[j] == j + 1 by {
                if j < prev.len() {
                    assert(cur[j] == prev[j]);
                }
            }
        } else if segs.last().0 == SegKind::Heading {
            assert(ns.drop_last() =~= numbered(segs.drop_last()));
            assert(cur == prev);
        }
    }
}

/// Paragraph numbers run 1, 2, 3, … without gap or repetition, so that a
/// `[段落 N]` citation names exactly one paragraph.
pub proof fn law_paragraph_numbers_consecutive(md: Seq<char>)
    ensures
        forall|j: int|
            0 <= j < paragraph_numbers(numbered(split_spec(md))).len() ==> #[trigger] paragraph_numbers(
                numbered(split_spec(md)),
            )[j] == j + 1,
{
    lemma_numbers_consecutive(split_spec(md));
}

// ---------------------------------------------------------------------------
// Context for one field
// ---------------------------------------------------------------------------

/// How an entry appears in the prompt.
pub open spec fn rendered(s: (Option<nat>, Option<Seq<char>>, Seq<char>)) -> Seq<char> {
    match s.0 {
        Some(n) => "[段落 "@ + decimal(n) + "]\n"@ + s.2 + "\n\n"@,
        None => "【章节】"@ + match s.1 {
            Some(h) => h,
            None => Seq::empty(),
        } + "\n\n"@,
    }
}

fn render_seg(seg: &NumberedSeg) -> (r: Vec<char>)
    ensures
        r@ == rendered(seg@),
{
    let mut r: Vec<char> = Vec::new();
    match seg.no {
        Some(n) => {
            append_str(&mut r, "[段落 ");
            let d = decimal_v(n as u64);
            append_v(&mut r, &d);
            append_str(&mut r, "]\n");
            append_str(&mut r, seg.content.as_str());
            append_str(&mut r, "\n\n");
        },
        None => {
            append_str(&mut r, "【章节】");
            match &seg.heading {
                Some(h) => append_str(&mut r, h.as_str()),
                None => {},
            }
            append_str(&mut r, "\n\n");
        },
    }
    r
}

/// Pieces of `s[from..]` between characters that are not ASCII letters or
/// digits, the current piece having started at `start`.
pub open spec fn alnum_pieces(s: Seq<char>, start: int, from: int) -> Seq<Seq<char>>
    decreases s.len() - from,
{
    if from < 0 || start < 0 || start > from || from >= s.len() {
        seq![s.subrange(start, s.len() as int)]
    } else if !is_alnum(s[from]) {
        seq![s.subrange(start, from)] + alnum_pieces(s, from + 1, from + 1)
    } else {
        alnum_pieces(s, start, from + 1)
    }
}

/// The pieces of at least four characters, lower-cased.
pub open spec fn long_words(pieces: Seq<Seq<char>>) -> Seq<Seq<char>>
    decreases pieces.len(),
{
    if pieces.len() == 0 {
        Seq::empty()
    } else {
        let r = long_words(pieces.drop_last());
        if pieces.last().len() >= 4 {
            r.push(ascii_lower(pieces.last()))
        } else {
            r
        }
    }
}

/// The characters of the label that are neither ASCII nor white space.
pub open spec fn wide_chars(s: Seq<char>) -> Seq<char>
    decreases s.len(),
{
    if s.len() == 0 {
        Seq::empty()
    } else {
        let r = wide_chars(s.drop_last());
        if !is_ascii_char(s.last()) && !is_ws(s.last()) {
            r.push(s.last())
        } else {
            r
        }
    }
}

/// Every two neighbouring characters.
pub open spec fn pairs_of(z: Seq<char>) -> Seq<Seq<char>>
    decreases z.len(),
{
    if z.len() < 2 {
        Seq::empty()
    } else {
        pairs_of(z.drop_last()).push(seq![z[z.len() - 2], z.last()])
    }
}

/// `s` without repeated elements, first occurrences kept.
pub open spec fn dedup(s: Seq<Seq<char>>) -> Seq<Seq<char>>
    decreases s.len(),
{
    if s.len() == 0 {
        Seq::empty()
    } else {
        let r = dedup(s.drop_last());
        if r.contains(s.last()) {
            r
        } else {
            r.push(s.last())
        }
    }
}

/// Search terms of a field: the English words of four or more letters of
/// its name and description (lower-cased), and every two neighbouring
/// Chinese characters of its label; each term once.
pub open spec fn field_terms_spec(f: FieldView) -> Seq<Seq<char>> {
    dedup(
        long_words(alnum_pieces(f.name, 0, 0)) + long_words(alnum_pieces(f.description, 0, 0))
            + pairs_of(wide_chars(f.label)),
    )
}

fn alnum_pieces_v(s: &Vec<char>) -> (r: Vec<Vec<char>>)
    ensures
        views(r@) == alnum_pieces(s@, 0, 0),
{
    let mut r: Vec<Vec<char>> = Vec::new();
    let mut start: usize = 0;
    let mut from: usize = 0;
    while from < s.len()
        invariant
            start <= from <= s.len(),
            views(r@) + alnum_pieces(s@, start as int, from as int) == alnum_pieces(s@, 0, 0),
        decreases s.len() - from,
    {
        if !crate::text::alnum(s[from]) {
            let piece = slice_v(s, start, from);
            let ghost before = views(r@);
            r.push(piece);
            proof {
                assert(views(r@) =~= before.push(piece@));
                assert(views(r@) + alnum_pieces(s@, from + 1, from + 1) =~= before + alnum_pieces(
                    s@,
                    start as int,
                    from as int,
                ));
            }
            start = from + 1;
        }
        from += 1;
    }
    let last = slice_v(s, start, s.len());
    let ghost before = views(r@);
    r.push(last);
    assert(views(r@) =~= before + alnum_pieces(s@, start as int, from as int));
    r
}

fn long_words_v(pieces: &Vec<Vec<char>>, out: &mut Vec<Vec<char>>)
    ensures
        views(final(out)@) == views(old(out)@) + long_words(views(pieces@)),
{
    let ghost start = views(out@);
    let mut i: usize = 0;
    while i < pieces.len()
        invariant
            i <= pieces.len(),
            views(out@) == start + long_words(views(pieces@).take(i as int)),
        decreases pieces.len() - i,
    {
        proof {
            let t = views(pieces@).take(i + 1);
            assert(t.drop_last() =~= views(pieces@).take(i as int));
            assert(t.last() == pieces@[i as int]@);
        }
        if pieces[i].len() >= 4 {
            let ghost before = views(out@);
            out.push(lower_v(&pieces[i]));
            assert(views(out@) =~= before.push(ascii_lower(pieces@[i as int]@)));
        }
        i += 1;
    }
    assert(views(pieces@).take(pieces.len() as int) =~= views(pieces@));
}

fn seq_in(r: &Vec<Vec<char>>, t: &Vec<char>) -> (b: bool)
    ensures
        b == views(r@).contains(t@),
{
    let mut k: usize = 0;
    while k < r.len()
        invariant
            k <= r.len(),
            forall|j: int| 0 <= j < k ==> views(r@)[j] != t@,
        decreases r.len() - k,
    {
        if eq_v(&r[k], t) {
            assert(views(r@)[k as int] == t@);
            return true;
        }
        k += 1;
    }
    false
}

fn field_terms(field: &FieldDef) -> (r: Vec<Vec<char>>)
    ensures
        views(r@) == field_terms_spec(field@),
{
    let mut raw: Vec<Vec<char>> = Vec::new();
    let p1 = alnum_pieces_v(&chars_of(field.name.as_str()));
    long_words_v(&p1, &mut raw);
    let p2 = alnum_pieces_v(&chars_of(field.description.as_str()));
    long_words_v(&p2, &mut raw);
    let label = chars_of(field.label.as_str());
    let mut zh: Vec<char> = Vec::new();
    let mut i: usize = 0;
    while i < label.len()
        invariant
            i <= label.len(),
            zh@ == wide_chars(label@.take(i as int)),
        decreases label.len() - i,
    {
        proof {
            let t = label@.take(i + 1);
            assert(t.drop_last() =~= label@.take(i as int));
        }
        let c = label[i];
        if !crate::text::ascii_char(c) && !ws(c) {
            zh.push(c);
        }
        i += 1;
    }
    assert(label@.take(label.len() as int) =~= label@);
    let ghost before_pairs = views(raw@);
    if zh.len() >= 2 {
        let mut j: usize = 1;
        while j < zh.len()
            invariant
                1 <= j <= zh.len(),
                views(raw@) == before_pairs + pairs_of(zh@.take(j as int)),
            decreases zh.len() - j,
        {
            proof {
                let t = zh@.take(j + 1);
                assert(t.drop_last() =~= zh@.take(j as int));
            }
            let ghost before = views(raw@);
            let mut w: Vec<char> = Vec::new();
            w.push(zh[j - 1]);
            w.push(zh[j]);
            assert(w@ =~= seq![zh@[j - 1], zh@[j as int]]);
            raw.push(w);
            assert(views(raw@) =~= before.push(seq![zh@[j - 1], zh@[j as int]]));
            j += 1;
        }
        assert(zh@.take(zh.len() as int) =~= zh@);
    } else {
        assert(pairs_of(zh@) =~= Seq::<Seq<char>>::empty());
        assert(views(raw@) =~= before_pairs + pairs_of(zh@));
    }
    proof {
        assert(views(raw@) =~= long_words(alnum_pieces(field@.name, 0, 0)) + long_words(
            alnum_pieces(field@.description, 0, 0),
        ) + pairs_of(wide_chars(field@.label)));
    }
    let ghost all = views(raw@);
    let mut r: Vec<Vec<char>> = Vec::new();
    let mut k: usize = 0;
    while k < raw.len()
        invariant
            k <= raw.len(),
            all == views(raw@),
            views(r@) == dedup(all.take(k as int)),
        decreases raw.len() - k,
    {
        proof {
            let t = all.take(k + 1);
            assert(t.drop_last() =~= all.take(k as int));
            assert(t.last() == raw@[k as int]@);
        }
        if !seq_in(&r, &raw[k]) {
            let ghost before = views(r@);
            let copy = slice_v(&raw[k], 0, raw[k].len());
            assert(copy@ =~= raw@[k as int]@);
            r.push(copy);
            assert(views(r@) =~= before.push(raw@[k as int]@));
        }
        k += 1;
    }
    assert(all.take(raw.len() as int) =~= all);
    r
}

/// Number of terms that occur in `text`.
pub open spec fn term_hits(text: Seq<char>, terms: Seq<Seq<char>>) -> nat
    decreases terms.len(),
{
    if terms.len() == 0 {
        0
    } else {
        term_hits(text, terms.drop_last()) + if contains(text, terms.last()) {
            1nat
        } else {
            0nat
        }
    }
}

pub type SegView = (Option<nat>, Option<Seq<char>>, Seq<char>);

/// Score of each entry: how many terms its lower-cased text holds.
pub open spec fn seg_scores(segs: Seq<SegView>, terms: Seq<Seq<char>>) -> Seq<u32>
    decreases segs.len(),
{
    if segs.len() == 0 {
        Seq::empty()
    } else {
        seg_scores(segs.drop_last(), terms).push(term_hits(unicode_lower(segs.last().2), terms) as u32)
    }
}

/// Entries chosen so far and the characters they take.
pub struct Pick {
    pub chosen: Seq<bool>,
    pub used: int,
}

pub open spec fn all_false(n: nat) -> Seq<bool>
    decreases n,
{
    if n == 0 {
        Seq::empty()
    } else {
        all_false((n - 1) as nat).push(false)
    }
}

/// Take entry `i` if it still fits into `budget`.
pub open spec fn take_if_fits(segs: Seq<SegView>, st: Pick, i: int, budget: int) -> Pick {
    let len = rendered(segs[i]).len() as int;
    if st.used + len > budget {
        st
    } else {
        Pick { chosen: st.chosen.update(i, true), used: st.used + len }
    }
}

/// First pass: the hit entries, best first, within `budget`.
pub open spec fn pass_hits(segs: Seq<SegView>, hits: Seq<(u32, usize)>, budget: int, st: Pick) -> Pick
    decreases hits.len(),
{
    if hits.len() == 0 {
        st
    } else {
        take_if_fits(segs, pass_hits(segs, hits.drop_last(), budget, st), hits.last().1 as int, budget)
    }
}

/// Second pass: the other entries in reading order, within `cap`.
pub open spec fn pass_fill(segs: Seq<SegView>, n: int, cap: int, st: Pick) -> Pick
    decreases n,
{
    if n <= 0 {
        st
    } else {
        let prev = pass_fill(segs, n - 1, cap, st);
        if prev.chosen[n - 1] {
            prev
        } else {
            take_if_fits(segs, prev, n - 1, cap)
        }
    }
}

/// The chosen entries of the first `n`, rendered, in reading order.
pub open spec fn chosen_text(segs: Seq<SegView>, chosen: Seq<bool>, n: int) -> Seq<char>
    decreases n,
{
    if n <= 0 {
        Seq::empty()
    } else {
        chosen_text(segs, chosen, n - 1) + if chosen[n - 1] {
            rendered(segs[n - 1])
        } else {
            Seq::empty()
        }
    }
}

/// The context of a field: paragraphs that hit its terms first (best first,
/// up to 70% of `cap` characters), then headings and other paragraphs in
/// reading order while they fit into `cap`, all rendered in reading order.
pub open spec fn field_context(segs: Seq<SegView>, field: FieldView, cap: nat) -> Seq<char> {
    chosen_text(segs, context_pick(segs, field, cap).chosen, segs.len() as int)
}

/// The entries chosen for the context of a field.
pub open spec fn context_pick(segs: Seq<SegView>, field: FieldView, cap: nat) -> Pick {
    let scores = seg_scores(segs, field_terms_spec(field));
    let hits = keep_at_least(rank_desc(scores), 1);
    let p1 = pass_hits(segs, hits, (cap * 7 / 10) as int, Pick { chosen: all_false(segs.len()), used: 0 });
    pass_fill(segs, segs.len() as int, cap as int, p1)
}

proof fn lemma_seg_scores_len(segs: Seq<SegView>, terms: Seq<Seq<char>>)
    ensures
        seg_scores(segs, terms).len() == segs.len(),
    decreases segs.len(),
{
    if segs.len() > 0 {
        lemma_seg_scores_len(segs.drop_last(), terms);
    }
}

/// The first pass chooses only hit entries; while it has chosen none it has
/// used nothing; and if some hit entry fits into the budget on its own, it
/// chooses at least one.
proof fn lemma_pass_hits(segs: Seq<SegView>, hits: Seq<(u32, usize)>, budget: int)
    requires
        budget >= 0,
        forall|j: int| 0 <= j < hits.len() ==> (#[trigger] hits[j]).1 < segs.len(),
    ensures
        pass_hits(segs, hits, budget, Pick { chosen: all_false(segs.len()), used: 0 }).chosen.len()
            == segs.len(),
        (forall|k: int|
            0 <= k < segs.len() ==> !(#[trigger] pass_hits(
                segs,
                hits,
                budget,
                Pick { chosen: all_false(segs.len()), used: 0 },
            ).chosen[k])) ==> pass_hits(
            segs,
            hits,
            budget,
            Pick { chosen: all_false(segs.len()), used: 0 },
        ).used == 0,
        forall|k: int|
            0 <= k < segs.len() && #[trigger] pass_hits(
                segs,
                hits,
                budget,
                Pick { chosen: all_false(segs.len()), used: 0 },
            ).chosen[k] ==> exists|j: int| 0 <= j < hits.len() && hits[j].1 == k,
        (exists|j: int| 0 <= j < hits.len() && rendered(segs[(#[trigger] hits[j]).1 as int]).len() <= budget)
            ==> exists|k: int|
            0 <= k < segs.len() && #[trigger] pass_hits(
                segs,
                hits,
                budget,
                Pick { chosen: all_false(segs.len()), used: 0 },
            ).chosen[k],
    decreases hits.len(),
{
    let init = Pick { chosen: all_false(segs.len()), used: 0 };
    lemma_all_false(segs.len());
    if hits.len() > 0 {
        let h0 = hits.drop_last();
        assert forall|j: int| 0 <= j < h0.len() implies (#[trigger] h0[j]).1 < segs.len() by {
            assert(h0[j] == hits[j]);
        }
        lemma_pass_hits(segs, h0, budget);
        let prev = pass_hits(segs, h0, budget, init);
        let i = hits.last().1 as int;
        let st = pass_hits(segs, hits, budget, init);
        assert(st == take_if_fits(segs, prev, i, budget));
        if prev.used + rendered(segs[i]).len() as int <= budget {
            assert(st.chosen[i]);
        } else {
            assert(st == prev);
        }
        assert forall|k: int| 0 <= k < segs.len() && #[trigger] st.chosen[k] implies exists|j: int|
            0 <= j < hits.len() && hits[j].1 == k by {
            if k == i {
                assert(hits[hits.len() - 1].1 == k);
            } else {
                assert(prev.chosen[k]);
                let j = choose|j: int| 0 <= j < h0.len() && h0[j].1 == k;
                assert(hits[j] == h0[j]);
            }
        }
        if exists|j: int| 0 <= j < hits.len() && rendered(segs[(#[trigger] hits[j]).1 as int]).len() <= budget {
            let j = choose|j: int| 0 <= j < hits.len() && rendered(segs[(#[trigger] hits[j]).1 as int]).len() <= budget;
            if exists|k: int| 0 <= k < segs.len() && #[trigger] prev.chosen[k] {
                let k = choose|k: int| 0 <= k < segs.len() && #[trigger] prev.chosen[k];
                assert(st.chosen[k]);
            } else if j < h0.len() {
                assert(h0[j] == hits[j]);
                assert(false);
            } else {
                assert(prev.used == 0);
                assert(st.chosen[i]);
            }
        }
    }
}

/// The second pass never drops an entry the first chose.
proof fn lemma_pass_fill_keeps(segs: Seq<SegView>, n: int, cap: int, st: Pick)
    requires
        st.chosen.len() == segs.len(),
        n <= segs.len(),
    ensures
        pass_fill(segs, n, cap, st).chosen.len() == segs.len(),
        forall|k: int| 0 <= k < segs.len() && st.chosen[k] ==> #[trigger] pass_fill(segs, n, cap, st).chosen[k],
    decreases n,
{
    if n > 0 {
        lemma_pass_fill_keeps(segs, n - 1, cap, st);
    }
}

/// The context of a field is its chosen entries in reading order, each at
/// most once; and when some entry that holds one of the field's terms fits
/// into 70% of the budget on its own, the context holds an entry with a hit.
pub proof fn law_context_holds_a_hit(segs: Seq<SegView>, field: FieldView, cap: nat)
    requires
        segs.len() <= usize::MAX,
        exists|i: int|
            0 <= i < segs.len() && #[trigger] seg_scores(segs, field_terms_spec(field))[i] > 0
                && rendered(segs[i]).len() <= cap * 7 / 10,
    ensures
        context_pick(segs, field, cap).chosen.len() == segs.len(),
        field_context(segs, field, cap) == chosen_text(
            segs,
            context_pick(segs, field, cap).chosen,
            segs.len() as int,
        ),
        exists|k: int|
            0 <= k < segs.len() && #[trigger] context_pick(segs, field, cap).chosen[k] && seg_scores(
                segs,
                field_terms_spec(field),
            )[k] > 0,
{
    let scores = seg_scores(segs, field_terms_spec(field));
    lemma_seg_scores_len(segs, field_terms_spec(field));
    let ranked = rank_desc(scores);
    lemma_rank_contents(scores);
    let hits = keep_at_least(ranked, 1);
    lemma_keep_contents(ranked, 1);
    let i = choose|i: int|
        0 <= i < segs.len() && #[trigger] seg_scores(segs, field_terms_spec(field))[i] > 0
            && rendered(segs[i]).len() <= cap * 7 / 10;
    assert(ranked.contains((scores[i], i as usize)));
    let m = choose|m: int| 0 <= m < ranked.len() && ranked[m] == (scores[i], i as usize);
    assert(hits.contains(ranked[m]));
    let j = choose|j: int| 0 <= j < hits.len() && hits[j] == ranked[m];
    assert forall|q: int| 0 <= q < hits.len() implies (#[trigger] hits[q]).1 < segs.len() by {
        assert(ranked.contains(hits[q]));
        let w = choose|w: int| 0 <= w < ranked.len() && ranked[w] == hits[q];
        assert(ranked[w].1 < scores.len());
    }
    let budget = (cap * 7 / 10) as int;
    lemma_pass_hits(segs, hits, budget);
    assert(rendered(segs[hits[j].1 as int]).len() <= budget);
    let init = Pick { chosen: all_false(segs.len()), used: 0 };
    let p1 = pass_hits(segs, hits, budget, init);
    let k = choose|k: int| 0 <= k < segs.len() && #[trigger] p1.chosen[k];
    let q = choose|q: int| 0 <= q < hits.len() && hits[q].1 == k;
    assert(ranked.contains(hits[q]));
    let w = choose|w: int| 0 <= w < ranked.len() && ranked[w] == hits[q];
    assert(ranked[w].0 == scores[ranked[w].1 as int]);
    assert(hits[q].0 >= 1);
    lemma_pass_fill_keeps(segs, segs.len() as int, cap as int, p1);
    assert(context_pick(segs, field, cap).chosen[k]);
}

proof fn lemma_all_false(n: nat)
    ensures
        all_false(n).len() == n,
        forall|i: int| 0 <= i < n ==> !(#[trigger] all_false(n)[i]),
    decreases n,
{
    if n > 0 {
        lemma_all_false((n - 1) as nat);
        assert forall|i: int| 0 <= i < n implies !(#[trigger] all_false(n)[i]) by {
            if i < n - 1 {
                assert(all_false(n)[i] == all_false((n - 1) as nat)[i]);
            }
        }
    }
}

proof fn lemma_chosen_none(segs: Seq<SegView>, chosen: Seq<bool>, n: int)
    requires
        forall|i: int| 0 <= i < n ==> !(#[trigger] chosen[i]),
    ensures
        chosen_text(segs, chosen, n).len() == 0,
    decreases n,
{
    if n > 0 {
        lemma_chosen_none(segs, chosen, n - 1);
    }
}

proof fn lemma_chosen_update(segs: Seq<SegView>, chosen: Seq<bool>, i: int, n: int)
    requires
        0 <= i < chosen.len(),
        n <= chosen.len(),
    ensures
        chosen_text(segs, chosen.update(i, true), n).len() <= chosen_text(segs, chosen, n).len() + (
        if i < n {
            rendered(segs[i]).len() as int
        } else {
            0
        }),
    decreases n,
{
    if n > 0 {
        lemma_chosen_update(segs, chosen, i, n - 1);
    }
}

fn count_hits(text: &Vec<char>, terms: &Vec<Vec<char>>) -> (r: usize)
    ensures
        r == term_hits(text@, views(terms@)),
{
    let mut c: usize = 0;
    let mut k: usize = 0;
    while k < terms.len()
        invariant
            k <= terms.len(),
            c <= k,
            c == term_hits(text@, views(terms@).take(k as int)),
        decreases terms.len() - k,
    {
        proof {
            let t = views(terms@).take(k + 1);
            assert(t.drop_last() =~= views(terms@).take(k as int));
            assert(t.last() == terms@[k as int]@);
        }
        if contains_v(text, &terms[k]) {
            c += 1;
        }
        k += 1;
    }
    assert(views(terms@).take(terms.len() as int) =~= views(terms@));
    c
}

/// Choose the context for one field: the paragraphs that hit the field's
/// terms come first (best first, within 70% of the budget), then the
/// headings and remaining paragraphs in reading order; the result never
/// exceeds `cap_chars` characters.
pub fn context_for_field(segs: &Vec<NumberedSeg>, field: &FieldDef, cap_chars: usize) -> (r: String)
    requires
        cap_chars <= usize::MAX / 7,
    ensures
        r@ == field_context(numbered_views(segs@), field@, cap_chars as nat),
        r@.len() <= cap_chars,
        segs.len() == 0 ==> r@.len() == 0,
{
    let ghost sv = numbered_views(segs@);
    let n = segs.len();
    let terms = field_terms(field);
    let mut scores: Vec<u32> = Vec::new();
    let mut rend: Vec<Vec<char>> = Vec::new();
    let mut i: usize = 0;
    while i < n
        invariant
            i <= n,
            n == segs.len(),
            sv == numbered_views(segs@),
            views(terms@) == field_terms_spec(field@),
            scores@ == seg_scores(sv.take(i as int), field_terms_spec(field@)),
            scores.len() == i,
            rend.len() == i,
            forall|k: int| 0 <= k < i ==> (#[trigger] rend@[k])@ == rendered(sv[k]),
        decreases n - i,
    {
        proof {
            let t = sv.take(i + 1);
            assert(t.drop_last() =~= sv.take(i as int));
            assert(t.last() == segs@[i as int]@);
        }
        let lower = chars_of(to_lowercase(segs[i].content.as_str()).as_str());
        let c = count_hits(&lower, &terms);
        scores.push(c as u32);
        rend.push(render_seg(&segs[i]));
        i += 1;
    }
    assert(sv.take(n as int) =~= sv);
    let ranked = rank_v(&scores);
    let hits = keep_at_least_v(&ranked, 1);
    proof {
        crate::rank::lemma_rank_below(scores@);
        crate::rank::lemma_keep(ranked@, 1, n as int);
        lemma_all_false(n as nat);
        lemma_chosen_none(sv, all_false(n as nat), n as int);
    }
    let mut chosen: Vec<bool> = Vec::new();
    let mut z: usize = 0;
    while z < n
        invariant
            z <= n,
            chosen@ == all_false(z as nat),
        decreases n - z,
    {
        chosen.push(false);
        z += 1;
    }
    let budget = cap_chars * 7 / 10;
    let ghost init = Pick { chosen: all_false(n as nat), used: 0 };
    let mut used: usize = 0;
    let mut h: usize = 0;
    while h < hits.len()
        invariant
            h <= hits.len(),
            n == segs.len(),
            sv == numbered_views(segs@),
            rend.len() == n,
            forall|k: int| 0 <= k < n ==> (#[trigger] rend@[k])@ == rendered(sv[k]),
            crate::rank::indices_below(hits@, n as int),
            chosen.len() == n,
            budget == cap_chars * 7 / 10,
            budget <= cap_chars,
            used <= budget,
            (Pick { chosen: chosen@, used: used as int }) == pass_hits(sv, hits@.take(h as int), budget as int, init),
            chosen_text(sv, chosen@, n as int).len() <= used,
        decreases hits.len() - h,
    {
        proof {
            let t = hits@.take(h + 1);
            assert(t.drop_last() =~= hits@.take(h as int));
            assert(t.last() == hits@[h as int]);
        }
        let k = hits[h].1;
        assert(hits@[h as int].1 < n);
        let len = rend[k].len();
        if len <= budget - used {
            proof {
                lemma_chosen_update(sv, chosen@, k as int, n as int);
            }
            chosen.set(k, true);
            used += len;
        }
        h += 1;
    }
    assert(hits@.take(hits.len() as int) =~= hits@);
    let ghost p1 = Pick { chosen: chosen@, used: used as int };
    let mut j: usize = 0;
    while j < n
        invariant
            j <= n,
            n == segs.len(),
            sv == numbered_views(segs@),
            rend.len() == n,
            forall|k: int| 0 <= k < n ==> (#[trigger] rend@[k])@ == rendered(sv[k]),
            chosen.len() == n,
            used <= cap_chars,
            (Pick { chosen: chosen@, used: used as int }) == pass_fill(sv, j as int, cap_chars as int, p1),
            chosen_text(sv, chosen@, n as int).len() <= used,
        decreases n - j,
    {
        if !chosen[j] {
            let len = rend[j].len();
            if len <= cap_chars - used {
                proof {
                    lemma_chosen_update(sv, chosen@, j as int, n as int);
                }
                chosen.set(j, true);
                used += len;
            }
        }
        j += 1;
    }
    let mut out = String::new();
    let mut q: usize = 0;
    while q < n
        invariant
            q <= n,
            n == segs.len(),
            sv == numbered_views(segs@),
            rend.len() == n,
            forall|k: int| 0 <= k < n ==> (#[trigger] rend@[k])@ == rendered(sv[k]),
            chosen.len() == n,
            out@ == chosen_text(sv, chosen@, q as int),
        decreases n - q,
    {
        if chosen[q] {
            push_chars(&mut out, &rend[q]);
        }
        q += 1;
    }
    out
}

// ---------------------------------------------------------------------------
// Prompts
// ---------------------------------------------------------------------------

/// What to check in a paper of each paradigm, in the order of the paradigm
/// identifiers.
pub open spec fn instructions() -> Seq<&'static str> {
    seq![
        "重点核对：基线是否公平（同设置/同资源）；指标是否齐备；消融是否解释了每个组件的贡献；SOTA 对比是否诚实",
        "重点核对：随机化与盲法是否完备；样本量估算是否合理；主要结局是否注册一致；harm 报告是否完整",
        "重点核对：识别策略是否可信；内生性处理是否充分；稳健性检验覆盖哪些维度；结果是否支持因果解释",
        "重点核对：概念界定是否清晰；论证前提与推理是否自洽；反驳是否回应到位；思想谱系定位是否准确",
        "重点核对：案例选择是否有依据；证据是否多源三角验证；分析技术是否与问题匹配；命题是否可推广",
        "重点核对：检索策略是否可复现；纳排标准是否明确；质量评估工具是否恰当；异质性与偏倚是否报告",
        "重点核对：Verification 与 Validation 是否严格区分；收敛性是否验证；不确定性是否量化；模型假设是否声明",
        "重点核对：问题-目标-设计是否对齐；评估方法是否匹配构件类型；设计理论贡献是否明确",
    ]
}

fn instructions_v() -> (r: Vec<&'static str>)
    ensures
        r@ == instructions(),
{
    let r = vec![
        "重点核对：基线是否公平（同设置/同资源）；指标是否齐备；消融是否解释了每个组件的贡献；SOTA 对比是否诚实",
        "重点核对：随机化与盲法是否完备；样本量估算是否合理；主要结局是否注册一致；harm 报告是否完整",
        "重点核对：识别策略是否可信；内生性处理是否充分；稳健性检验覆盖哪些维度；结果是否支持因果解释",
        "重点核对：概念界定是否清晰；论证前提与推理是否自洽；反驳是否回应到位；思想谱系定位是否准确",
        "重点核对：案例选择是否有依据；证据是否多源三角验证；分析技术是否与问题匹配；命题是否可推广",
        "重点核对：检索策略是否可复现；纳排标准是否明确；质量评估工具是否恰当；异质性与偏倚是否报告",
        "重点核对：Verification 与 Validation 是否严格区分；收敛性是否验证；不确定性是否量化；模型假设是否声明",
        "重点核对：问题-目标-设计是否对齐；评估方法是否匹配构件类型；设计理论贡献是否明确",
    ];
    assert(r@ == instructions());
    r
}

/// The check instruction of a paradigm (empty for an unknown one).
pub open spec fn instruction_of(id: Seq<char>) -> Seq<char> {
    let k = paradigm_index(id);
    if 0 <= k < 8 {
        instructions()[k]@
    } else {
        Seq::empty()
    }
}

fn paradigm_instruction(id: &Vec<char>) -> (r: Vec<char>)
    ensures
        r@ == instruction_of(id@),
{
    match crate::fields::paradigm_index_v(id) {
        Some(k) => {
            let ins = instructions_v();
            chars_of(ins[k])
        },
        None => Vec::new(),
    }
}

/// The system prompt of a digest: role, citation rules and the paradigm's
/// check instruction.
pub open spec fn system_prompt_spec(
    name: Seq<char>,
    cross: Seq<char>,
    strategy: Seq<char>,
    count: nat,
    instr: Seq<char>,
) -> Seq<char> {
    "你是一名"@ + name + "领域的论文拆解专家。请对以下文献按给定字段逐一拆解。\n文献范式："@ + name + "（"@ + cross
        + "，字段合并策略："@ + strategy + "，共 "@ + decimal(count) + " 个字段）。\n【规则】\n1. 每个字段的输出必须引用原文段落（引用格式：[段落 N]，或给出原文关键摘录）；\n2. 无法从原文定位支撑的字段，必须输出“引用缺失”四个字，严禁编造内容；\n3. 表格类字段输出 Markdown 表格；图片类字段输出图片描述并注明其在原文中的位置；\n4. 保留原文术语，不做二次翻译；\n5. 只输出该字段的拆解内容本身，不要输出字段名、解释性开场白或任何与内容无关的文字。\n"@
        + (if instr.len() == 0 {
        Seq::empty()
    } else {
        "\n         【范式核对要求】"@ + instr
    }) + "\n"@ + "若文献明显包含多学科交叉，除主范式视角外，可补充说明交叉学科视角。"@
}

/// System prompt of the digest requests for a recognized paper.
pub fn build_system_prompt(rec: &ParadigmRecognition, strategy: &str, field_count: usize) -> (r: String)
    ensures
        r@ == system_prompt_spec(
            rec@.paradigm_name,
            rec@.cross_type,
            strategy@,
            field_count as nat,
            instruction_of(rec@.paradigm_id),
        ),
{
    let instr = paradigm_instruction(&chars_of(rec.paradigm_id.as_str()));
    let mut s = String::new();
    s.append("你是一名");
    s.append(rec.paradigm_name.as_str());
    s.append("领域的论文拆解专家。请对以下文献按给定字段逐一拆解。\n文献范式：");
    s.append(rec.paradigm_name.as_str());
    s.append("（");
    s.append(rec.cross_type.as_str());
    s.append("，字段合并策略：");
    s.append(strategy);
    s.append("，共 ");
    push_chars(&mut s, &decimal_v(field_count as u64));
    s.append(" 个字段）。\n【规则】\n1. 每个字段的输出必须引用原文段落（引用格式：[段落 N]，或给出原文关键摘录）；\n2. 无法从原文定位支撑的字段，必须输出“引用缺失”四个字，严禁编造内容；\n3. 表格类字段输出 Markdown 表格；图片类字段输出图片描述并注明其在原文中的位置；\n4. 保留原文术语，不做二次翻译；\n5. 只输出该字段的拆解内容本身，不要输出字段名、解释性开场白或任何与内容无关的文字。\n");
    if instr.len() > 0 {
        s.append("\n         【范式核对要求】");
        push_chars(&mut s, &instr);
    }
    s.append("\n");
    s.append("若文献明显包含多学科交叉，除主范式视角外，可补充说明交叉学科视角。");
    s
}

/// What the answer to a field of type `ftype` should look like.
pub open spec fn type_hint(ftype: Seq<char>) -> Seq<char> {
    if ftype == "table"@ {
        "Markdown 表格（表头 + 数据行，放在 table 字段）"@
    } else if ftype == "list[string]"@ {
        "项目符号列表（每行一个条目）"@
    } else if ftype == "enum"@ {
        "从可选值中选择一个"@
    } else if ftype == "image"@ {
        "描述该图（类型、内容要点）并注明其在原文中的位置（[段落 N]）"@
    } else if ftype == "integer"@ {
        "一个整数"@
    } else if ftype == "string"@ {
        "一句简洁的结论文字"@
    } else if ftype == "code"@ {
        "代码块"@
    } else {
        "简洁的段落文字"@
    }
}

fn type_hint_v(ftype: &str) -> (r: &'static str)
    ensures
        r@ == type_hint(ftype@),
{
    let f = chars_of(ftype);
    if eq_v(&f, &chars_of("table")) {
        "Markdown 表格（表头 + 数据行，放在 table 字段）"
    } else if eq_v(&f, &chars_of("list[string]")) {
        "项目符号列表（每行一个条目）"
    } else if eq_v(&f, &chars_of("enum")) {
        "从可选值中选择一个"
    } else if eq_v(&f, &chars_of("image")) {
        "描述该图（类型、内容要点）并注明其在原文中的位置（[段落 N]）"
    } else if eq_v(&f, &chars_of("integer")) {
        "一个整数"
    } else if eq_v(&f, &chars_of("string")) {
        "一句简洁的结论文字"
    } else if eq_v(&f, &chars_of("code")) {
        "代码块"
    } else {
        "简洁的段落文字"
    }
}

/// The admissible values of an `enum` field, if it has any.
pub open spec fn enum_hint(values: Seq<Seq<char>>) -> Seq<char> {
    if values.len() > 0 {
        "（可选值："@ + join(values, " / "@) + "）"@
    } else {
        Seq::empty()
    }
}

/// The user prompt of one field: the numbered context, the field's
/// requirements and the bilingual JSON answer format.
pub open spec fn field_user_spec(f: FieldView, context: Seq<char>) -> Seq<char> {
    "【文献内容】（段落编号用于引用锚定）\n"@ + context + "\n\n【待拆解字段】\n字段："@ + f.label + "\n说明："@ + f.description
        + "\n类型："@ + f.ftype + " → "@ + type_hint(f.ftype) + enum_hint(f.enum_values)
        + "\n\n【输出格式】严格输出一个 JSON 对象，不要输出任何其他文字：\n{\"zh\": \"中文拆解，必须内联标注所依据的原文段落，格式 [段落 N]（至少一处；无法定位时只输出 引用缺失）\", \"en\": \"英文拆解，与 zh 内容一一对应\", \"table\": \"仅表格类字段输出 Markdown 表格，其余字段省略此项\"}"@
}

pub fn build_field_user(field: &FieldDef, context: &str) -> (r: String)
    ensures
        r@ == field_user_spec(field@, context@),
{
    let mut s = String::new();
    s.append("【文献内容】（段落编号用于引用锚定）\n");
    s.append(context);
    s.append("\n\n【待拆解字段】\n字段：");
    s.append(field.label.as_str());
    s.append("\n说明：");
    s.append(field.description.as_str());
    s.append("\n类型：");
    s.append(field.ftype.as_str());
    s.append(" → ");
    s.append(type_hint_v(field.ftype.as_str()));
    if field.enum_values.len() > 0 {
        s.append("（可选值：");
        let mut parts: Vec<Vec<char>> = Vec::new();
        let mut i: usize = 0;
        while i < field.enum_values.len()
            invariant
                i <= field.enum_values.len(),
                views(parts@) == str_views(field.enum_values@.take(i as int)),
            decreases field.enum_values.len() - i,
        {
            let ghost before = views(parts@);
            parts.push(chars_of(field.enum_values[i].as_str()));
            proof {
                assert(views(parts@) =~= before.push(field.enum_values@[i as int]@));
                assert(str_views(field.enum_values@.take(i + 1)) =~= str_views(
                    field.enum_values@.take(i as int),
                ).push(field.enum_values@[i as int]@));
            }
            i += 1;
        }
        assert(field.enum_values@.take(field.enum_values.len() as int) =~= field.enum_values@);
        push_chars(&mut s, &join_v(&parts, &chars_of(" / ")));
        s.append("）");
    }
    s.append("\n\n【输出格式】严格输出一个 JSON 对象，不要输出任何其他文字：\n{\"zh\": \"中文拆解，必须内联标注所依据的原文段落，格式 [段落 N]（至少一处；无法定位时只输出 引用缺失）\", \"en\": \"英文拆解，与 zh 内容一一对应\", \"table\": \"仅表格类字段输出 Markdown 表格，其余字段省略此项\"}");
    s
}

/// The reminder appended to the user prompt when an answer cites no
/// paragraph.
pub open spec fn citation_reminder() -> Seq<char> {
    "\n\n你的上一条输出缺少段落引用。请重新输出，并必须在中文拆解中内联标注依据段落，格式 [段落 N]；若确实无法定位，只输出 {\"zh\":\"引用缺失\",\"en\":\"Citation missing\"}。"@
}

// ---------------------------------------------------------------------------
// Reading the model's answer
// ---------------------------------------------------------------------------

/// Keys tried, in order, for the text of an object inside an array.
pub open spec fn item_keys() -> Seq<&'static str> {
    seq!["term", "text", "item", "label", "definition", "zh"]
}

/// Keys tried, in order, for the text of a whole object.
pub open spec fn object_keys() -> Seq<&'static str> {
    seq!["zh", "text", "content", "term", "definition"]
}

pub open spec fn trimmed_nonempty(s: Seq<char>) -> Option<Seq<char>> {
    if trim(s).len() > 0 {
        Some(trim(s))
    } else {
        None
    }
}

/// The first of `keys` whose member of the object at `ptr` is a string.
pub open spec fn first_str_member(doc: Seq<char>, ptr: Seq<char>, keys: Seq<&'static str>) -> Option<
    Seq<char>,
>
    decreases keys.len(),
{
    if keys.len() == 0 {
        None
    } else {
        let n = json_pointer_node(doc, key_pointer(ptr, keys[0]@));
        if n.0 == JsonKind::Str {
            Some(n.1)
        } else {
            first_str_member(doc, ptr, keys.drop_first())
        }
    }
}

/// The line an array element contributes: a string trimmed (nothing if
/// blank), an object's first string member among `item_keys` trimmed (its
/// serialization if there is none or it is blank), anything else serialized.
pub open spec fn item_line(doc: Seq<char>, item: Seq<char>) -> Option<Seq<char>> {
    let n = json_pointer_node(doc, item);
    if n.0 == JsonKind::Str {
        trimmed_nonempty(n.1)
    } else if n.0 == JsonKind::Object {
        match first_str_member(doc, item, item_keys()) {
            Some(t) => if trim(t).len() > 0 {
                Some(trim(t))
            } else {
                Some(n.1)
            },
            None => Some(n.1),
        }
    } else if n.1.len() > 0 {
        Some(n.1)
    } else {
        None
    }
}

/// Lines of the first `k` elements of the array at `ptr`.
pub open spec fn array_lines(doc: Seq<char>, ptr: Seq<char>, k: nat) -> Seq<Seq<char>>
    decreases k,
{
    if k == 0 {
        Seq::empty()
    } else {
        let r = array_lines(doc, ptr, (k - 1) as nat);
        match item_line(doc, index_pointer(ptr, (k - 1) as nat)) {
            Some(l) => r.push(l),
            None => r,
        }
    }
}

/// Display text of the value at `ptr`: a string as it is; an array's lines
/// joined by newlines (nothing if none); an object's first string member
/// among `object_keys`, trimmed (nothing if blank); nothing otherwise.
pub open spec fn value_text(doc: Seq<char>, ptr: Seq<char>) -> Option<Seq<char>> {
    let n = json_pointer_node(doc, ptr);
    if n.0 == JsonKind::Str {
        Some(n.1)
    } else if n.0 == JsonKind::Array {
        let ls = array_lines(doc, ptr, n.2);
        if ls.len() == 0 {
            None
        } else {
            Some(join(ls, "\n"@))
        }
    } else if n.0 == JsonKind::Object {
        match first_str_member(doc, ptr, object_keys()) {
            Some(t) => trimmed_nonempty(t),
            None => None,
        }
    } else {
        None
    }
}

fn first_str_member_v(doc: &str, ptr: &Vec<char>, keys: &Vec<&'static str>) -> (r: Option<String>)
    ensures
        match r {
            Some(t) => first_str_member(doc@, ptr@, keys@) == Some(t@),
            None => first_str_member(doc@, ptr@, keys@) is None,
        },
{
    let mut i: usize = 0;
    assert(keys@.skip(0) =~= keys@);
    while i < keys.len()
        invariant
            i <= keys.len(),
            first_str_member(doc@, ptr@, keys@) == first_str_member(doc@, ptr@, keys@.skip(i as int)),
        decreases keys.len() - i,
    {
        proof {
            let t = keys@.skip(i as int);
            assert(t.drop_first() =~= keys@.skip(i + 1));
            assert(t[0] == keys@[i as int]);
        }
        let p = key_pointer_v(ptr, keys[i]);
        let n = node_at(doc, &p);
        if n.kind == JsonKind::Str {
            return Some(n.text);
        }
        i += 1;
    }
    None
}

fn trimmed_nonempty_v(s: &String) -> (r: Option<String>)
    ensures
        match r {
            Some(t) => trimmed_nonempty(s@) == Some(t@),
            None => trimmed_nonempty(s@) is None,
        },
{
    let t = trim_v(&chars_of(s.as_str()));
    if t.len() > 0 {
        Some(string_of(&t))
    } else {
        None
    }
}

fn item_line_v(doc: &str, item: &Vec<char>) -> (r: Option<String>)
    ensures
        match r {
            Some(t) => item_line(doc@, item@) == Some(t@),
            None => item_line(doc@, item@) is None,
        },
{
    let n = node_at(doc, item);
    if n.kind == JsonKind::Str {
        trimmed_nonempty_v(&n.text)
    } else if n.kind == JsonKind::Object {
        let keys: Vec<&'static str> = vec!["term", "text", "item", "label", "definition", "zh"];
        assert(keys@ == item_keys());
        match first_str_member_v(doc, item, &keys) {
            Some(t) => match trimmed_nonempty_v(&t) {
                Some(tt) => Some(tt),
                None => Some(n.text),
            },
            None => Some(n.text),
        }
    } else if chars_of(n.text.as_str()).len() > 0 {
        Some(n.text)
    } else {
        None
    }
}

fn value_text_v(doc: &str, ptr: &Vec<char>) -> (r: Option<String>)
    ensures
        match r {
            Some(t) => value_text(doc@, ptr@) == Some(t@),
            None => value_text(doc@, ptr@) is None,
        },
{
    let n = node_at(doc, ptr);
    if n.kind == JsonKind::Str {
        Some(n.text)
    } else if n.kind == JsonKind::Array {
        let mut lines: Vec<Vec<char>> = Vec::new();
        let mut k: usize = 0;
        while k < n.len
            invariant
                k <= n.len,
                n@ == json_pointer_node(doc@, ptr@),
                views(lines@) == array_lines(doc@, ptr@, k as nat),
            decreases n.len - k,
        {
            let ip = index_pointer_v(ptr, k);
            match item_line_v(doc, &ip) {
                Some(l) => {
                    let ghost before = views(lines@);
                    lines.push(chars_of(l.as_str()));
                    assert(views(lines@) =~= before.push(l@));
                },
                None => {},
            }
            k += 1;
        }
        if lines.len() == 0 {
            None
        } else {
            Some(string_of(&join_v(&lines, &chars_of("\n"))))
        }
    } else if n.kind == JsonKind::Object {
        let keys: Vec<&'static str> = vec!["zh", "text", "content", "term", "definition"];
        assert(keys@ == object_keys());
        match first_str_member_v(doc, ptr, &keys) {
            Some(t) => trimmed_nonempty_v(&t),
            None => None,
        }
    } else {
        None
    }
}

/// The answer with surrounding white space and Markdown code fences
/// removed.
pub open spec fn unfenced(raw: Seq<char>) -> Seq<char> {
    trim(trim_end_str(trim_start_str(trim_start_str(trim(raw), "```json"@), "```"@), "```"@))
}

pub open spec fn text_or_empty(o: Option<Seq<char>>) -> Seq<char> {
    match o {
        Some(t) => t,
        None => Seq::empty(),
    }
}

/// The answer read as `{zh, en, table}` (the table for table fields only);
/// an answer without a usable `zh` is taken whole, trimmed, as `zh`.
pub open spec fn digest_reply(raw: Seq<char>, ftype: Seq<char>) -> (Seq<char>, Seq<char>, Option<Seq<char>>) {
    let doc = unfenced(raw);
    let zh = text_or_empty(value_text(doc, "/zh"@));
    if zh.len() > 0 {
        (
            zh,
            text_or_empty(value_text(doc, "/en"@)),
            if ftype == "table"@ {
                value_text(doc, "/table"@)
            } else {
                None
            },
        )
    } else {
        (trim(raw), Seq::empty(), None)
    }
}

pub open spec fn triple_view(t: (String, String, Option<String>)) -> (Seq<char>, Seq<char>, Option<Seq<char>>) {
    (t.0@, t.1@, opt_text(t.2))
}

fn text_or_empty_v(o: Option<String>) -> (r: String)
    ensures
        r@ == text_or_empty(opt_text(o)),
{
    match o {
        Some(t) => t,
        None => String::new(),
    }
}

fn parse_digest_response(raw: &str, ftype: &str) -> (r: (String, String, Option<String>))
    ensures
        triple_view(r) == digest_reply(raw@, ftype@),
{
    let a = trim_v(&chars_of(raw));
    let b = trim_start_str_v(&a, &chars_of("```json"));
    let c = trim_start_str_v(&b, &chars_of("```"));
    let d = trim_end_str_v(&c, &chars_of("```"));
    let e = trim_v(&d);
    let doc = string_of(&e);
    let zh_o = value_text_v(doc.as_str(), &chars_of("/zh"));
    proof {
        assert(opt_text(zh_o) == value_text(doc@, "/zh"@));
    }
    let zh = text_or_empty_v(zh_o);
    if chars_of(zh.as_str()).len() > 0 {
        let en_o = value_text_v(doc.as_str(), &chars_of("/en"));
        assert(opt_text(en_o) == value_text(doc@, "/en"@));
        let en = text_or_empty_v(en_o);
        let table = if eq_v(&chars_of(ftype), &chars_of("table")) {
            let t = value_text_v(doc.as_str(), &chars_of("/table"));
            assert(opt_text(t) == value_text(doc@, "/table"@));
            t
        } else {
            None
        };
        (zh, en, table)
    } else {
        (string_of(&a), String::new(), None)
    }
}

/// The Chinese answer cites a paragraph, or says that no citation exists.
pub open spec fn cites(zh: Seq<char>) -> bool {
    contains(zh, "引用缺失"@) || contains(zh, "[段落"@) || contains(zh, "段落 "@) || contains(zh, "（段落"@)
}

fn has_citation(zh: &str) -> (r: bool)
    ensures
        r == cites(zh@),
{
    let z = chars_of(zh);
    contains_v(&z, &chars_of("引用缺失")) || contains_v(&z, &chars_of("[段落")) || contains_v(
        &z,
        &chars_of("段落 "),
    ) || contains_v(&z, &chars_of("（段落"))
}

// ---------------------------------------------------------------------------
// One field's requests
// ---------------------------------------------------------------------------

/// What to do after a model answer for a field.
pub enum DigestAction {
    /// Send another request with this user prompt (same system prompt).
    Ask(String),
    /// The field is done: its Chinese text, English text and table, or the
    /// error that ended it.
    Done(Result<(String, String, Option<String>), TranslateError>),
}

/// The requests of one field so far.
pub struct DigestRun {
    /// The field's user prompt.
    pub user: String,
    pub ftype: String,
    /// 0: first request sent; 1: repeated after a retryable error;
    /// 2: reminder about citations sent.
    pub stage: u32,
    /// The answer read before the reminder was sent.
    pub first: (String, String, Option<String>),
}

impl DigestRun {
    /// Start a field; the first request carries `user`.
    pub fn new(user: &str, ftype: &str) -> (r: DigestRun)
        ensures
            r.user@ == user@,
            r.ftype@ == ftype@,
            r.stage == 0,
    {
        let mut u = String::new();
        u.append(user);
        let mut f = String::new();
        f.append(ftype);
        DigestRun { user: u, ftype: f, stage: 0, first: (String::new(), String::new(), None) }
    }
}

/// One field's digest, as a decision on each model answer: a retryable
/// error is retried once; an answer that cites no paragraph is asked again
/// once with a reminder, and if that request fails the first answer stands.
pub fn digest_field(run: &mut DigestRun, reply: Result<String, TranslateError>) -> (act: DigestAction)
    requires
        old(run).stage < 3,
    ensures
        act is Ask ==> old(run).stage < final(run).stage && final(run).stage < 3,
        final(run).user == old(run).user,
        final(run).ftype == old(run).ftype,
        match reply {
            Err(e) => if old(run).stage == 0 && e.retryable {
                &&& act matches DigestAction::Ask(u) && u@ == old(run).user@
                &&& final(run).stage == 1
            } else if old(run).stage == 2 {
                act matches DigestAction::Done(Ok(t)) && triple_view(t) == triple_view(old(run).first)
            } else {
                act matches DigestAction::Done(Err(f)) && f == e
            },
            Ok(raw) => if old(run).stage == 2 || cites(digest_reply(raw@, old(run).ftype@).0) {
                act matches DigestAction::Done(Ok(t)) && triple_view(t) == digest_reply(
                    raw@,
                    old(run).ftype@,
                )
            } else {
                &&& act matches DigestAction::Ask(u) && u@ == old(run).user@ + citation_reminder()
                &&& final(run).stage == 2
                &&& triple_view(final(run).first) == digest_reply(raw@, old(run).ftype@)
            },
        },
{
    match reply {
        Err(e) => {
            if run.stage == 0 && e.retryable {
                run.stage = 1;
                let mut u = String::new();
                u.append(run.user.as_str());
                DigestAction::Ask(u)
            } else if run.stage == 2 {
                let first = (run.first.0.clone(), run.first.1.clone(), run.first.2.clone());
                DigestAction::Done(Ok(first))
            } else {
                DigestAction::Done(Err(e))
            }
        },
        Ok(raw) => {
            let parsed = parse_digest_response(raw.as_str(), run.ftype.as_str());
            if run.stage == 2 || has_citation(parsed.0.as_str()) {
                DigestAction::Done(Ok(parsed))
            } else {
                let mut u = String::new();
                u.append(run.user.as_str());
                u.append("\n\n你的上一条输出缺少段落引用。请重新输出，并必须在中文拆解中内联标注依据段落，格式 [段落 N]；若确实无法定位，只输出 {\"zh\":\"引用缺失\",\"en\":\"Citation missing\"}。");
                run.stage = 2;
                run.first = parsed;
                DigestAction::Ask(u)
            }
        },
    }
}

// ---------------------------------------------------------------------------
// Field results
// ---------------------------------------------------------------------------

/// The digest of one field as it is stored.
#[derive(Clone, Debug)]
pub struct DigestFieldResult {
    pub name: String,
    pub label: String,
    pub ftype: String,
    pub source: String,
    /// Chinese digest with inline `[段落 N]` citations.
    pub zh: String,
    /// English digest.
    pub en: String,
    /// Markdown table of a table field.
    pub table: Option<String>,
    /// The field failed: a placeholder, not invented content.
    pub failed: bool,
}

pub struct ResultView {
    pub name: Seq<char>,
    pub label: Seq<char>,
    pub ftype: Seq<char>,
    pub source: Seq<char>,
    pub zh: Seq<char>,
    pub en: Seq<char>,
    pub table: Option<Seq<char>>,
    pub failed: bool,
}

impl View for DigestFieldResult {
    type V = ResultView;

    open spec fn view(&self) -> ResultView {
        ResultView {
            name: self.name@,
            label: self.label@,
            ftype: self.ftype@,
            source: self.source@,
            zh: self.zh@,
            en: self.en@,
            table: opt_text(self.table),
            failed: self.failed,
        }
    }
}

pub open spec fn result_views(v: Seq<DigestFieldResult>) -> Seq<ResultView> {
    v.map_values(|x: DigestFieldResult| x@)
}

/// Heading block of a digest document.
pub open spec fn digest_header_spec(title: Seq<char>, name: Seq<char>, cross: Seq<char>, strategy: Seq<char>, total: nat) -> Seq<char> {
    "# "@ + title + "\n\n> 范式："@ + name + " ｜ "@ + cross + " ｜ "@ + strategy + " ｜ 共 "@ + decimal(total) + " 个字段\n\n"@
}

pub fn digest_header(title: &str, rec: &ParadigmRecognition, strategy: &str, total: usize) -> (r: String)
    ensures
        r@ == digest_header_spec(title@, rec@.paradigm_name, rec@.cross_type, strategy@, total as nat),
{
    let mut s = String::new();
    s.append("# ");
    s.append(title);
    s.append("\n\n> 范式：");
    s.append(rec.paradigm_name.as_str());
    s.append(" ｜ ");
    s.append(rec.cross_type.as_str());
    s.append(" ｜ ");
    s.append(strategy);
    s.append(" ｜ 共 ");
    push_chars(&mut s, &decimal_v(total as u64));
    s.append(" 个字段\n\n");
    s
}

/// The stored result of a field and its Markdown block: the answer, or a
/// "citation missing" placeholder that records the failure.
pub open spec fn field_outcome_spec(f: FieldView, outcome: Result<(Seq<char>, Seq<char>, Option<Seq<char>>), Seq<char>>) -> (ResultView, Seq<char>) {
    match outcome {
        Ok((zh, en, table)) => (
            ResultView { name: f.name, label: f.label, ftype: f.ftype, source: f.source, zh, en, table, failed: false },
            "## "@ + f.label + "\n\n"@ + (if text_or_empty(table).len() > 0 {
                text_or_empty(table) + "\n\n"@
            } else {
                Seq::empty()
            }) + zh + "\n\n"@,
        ),
        Err(message) => (
            ResultView {
                name: f.name,
                label: f.label,
                ftype: f.ftype,
                source: f.source,
                zh: "引用缺失"@,
                en: "Citation missing"@,
                table: None,
                failed: true,
            },
            "## "@ + f.label + "\n\n引用缺失（拆解失败："@ + message + "）\n\n"@,
        ),
    }
}

pub open spec fn outcome_view(o: Result<(String, String, Option<String>), TranslateError>) -> Result<(Seq<char>, Seq<char>, Option<Seq<char>>), Seq<char>> {
    match o {
        Ok(t) => Ok(triple_view(t)),
        Err(e) => Err(e.message@),
    }
}

fn text_of(s: &str) -> (r: String)
    ensures
        r@ == s@,
{
    let mut r = String::new();
    r.append(s);
    r
}

pub fn field_outcome(fld: &FieldDef, outcome: Result<(String, String, Option<String>), TranslateError>) -> (r: (DigestFieldResult, String))
    ensures
        (r.0@, r.1@) == field_outcome_spec(fld@, outcome_view(outcome)),
{
    let mut md = String::new();
    md.append("## ");
    md.append(fld.label.as_str());
    match outcome {
        Ok((zh, en, table)) => {
            md.append("\n\n");
            let block = match &table {
                Some(t) => chars_of(t.as_str()),
                None => Vec::new(),
            };
            if block.len() > 0 {
                push_chars(&mut md, &block);
                md.append("\n\n");
            }
            md.append(zh.as_str());
            md.append("\n\n");
            let r = DigestFieldResult {
                name: fld.name.clone(),
                label: fld.label.clone(),
                ftype: fld.ftype.clone(),
                source: fld.source.clone(),
                zh,
                en,
                table,
                failed: false,
            };
            (r, md)
        },
        Err(e) => {
            md.append("\n\n引用缺失（拆解失败：");
            md.append(e.message.as_str());
            md.append("）\n\n");
            let r = DigestFieldResult {
                name: fld.name.clone(),
                label: fld.label.clone(),
                ftype: fld.ftype.clone(),
                source: fld.source.clone(),
                zh: text_of("引用缺失"),
                en: text_of("Citation missing"),
                table: None,
                failed: true,
            };
            (r, md)
        },
    }
}

/// Markdown of one stored field.
pub open spec fn field_md(f: ResultView) -> Seq<char> {
    "## "@ + f.label + "\n\n"@ + (match f.table {
        Some(t) => if t.len() > 0 {
            t + "\n"@
        } else {
            Seq::empty()
        },
        None => Seq::empty(),
    }) + f.zh + "\n"@ + (if f.en.len() > 0 {
        "\n_English:_ "@ + f.en + "\n"@
    } else {
        Seq::empty()
    }) + "\n"@
}

pub open spec fn fields_md(fs: Seq<ResultView>) -> Seq<char>
    decreases fs.len(),
{
    if fs.len() == 0 {
        Seq::empty()
    } else {
        fields_md(fs.drop_last()) + field_md(fs.last())
    }
}

/// A stored digest rendered as Markdown.
pub fn fields_to_md(title: &str, fields: &Vec<DigestFieldResult>) -> (r: String)
    ensures
        r@ == "# "@ + title@ + "\n\n"@ + fields_md(result_views(fields@)),
{
    let mut out = String::new();
    out.append("# ");
    out.append(title);
    out.append("\n\n");
    let ghost head = out@;
    let mut i: usize = 0;
    while i < fields.len()
        invariant
            i <= fields.len(),
            head == "# "@ + title@ + "\n\n"@,
            out@ == head + fields_md(result_views(fields@).take(i as int)),
        decreases fields.len() - i,
    {
        proof {
            let t = result_views(fields@).take(i + 1);
            assert(t.drop_last() =~= result_views(fields@).take(i as int));
            assert(t.last() == fields@[i as int]@);
        }
        let f = &fields[i];
        let ghost before = out@;
        let mut piece = String::new();
        piece.append("## ");
        piece.append(f.label.as_str());
        piece.append("\n\n");
        match &f.table {
            Some(t) => {
                if chars_of(t.as_str()).len() > 0 {
                    piece.append(t.as_str());
                    piece.append("\n");
                }
            },
            None => {},
        }
        piece.append(f.zh.as_str());
        piece.append("\n");
        if chars_of(f.en.as_str()).len() > 0 {
            piece.append("\n_English:_ ");
            piece.append(f.en.as_str());
            piece.append("\n");
        }
        piece.append("\n");
        assert(piece@ =~= field_md(f@));
        out.append(piece.as_str());
        assert(out@ =~= head + fields_md(result_views(fields@).take(i + 1)));
        i += 1;
    }
    assert(result_views(fields@).take(fields.len() as int) =~= result_views(fields@));
    out
}

/// The string member `key` of array element `k`, or nothing.
pub open spec fn member_text(doc: Seq<char>, k: nat, key: Seq<char>) -> Option<Seq<char>> {
    let n = json_pointer_node(doc, key_pointer(index_pointer(Seq::empty(), k), key));
    if n.0 == JsonKind::Str {
        Some(n.1)
    } else {
        None
    }
}

/// The first `k` elements of an older stored digest (an array of
/// `{name, label, ftype, source, content, failed}`), elements without a
/// string `name` left out.
pub open spec fn legacy_fields(doc: Seq<char>, k: nat) -> Seq<ResultView>
    decreases k,
{
    if k == 0 {
        Seq::empty()
    } else {
        let r = legacy_fields(doc, (k - 1) as nat);
        let i = (k - 1) as nat;
        match member_text(doc, i, "name"@) {
            Some(name) => r.push(
                ResultView {
                    name,
                    label: text_or_empty(member_text(doc, i, "label"@)),
                    ftype: text_or_empty(member_text(doc, i, "ftype"@)),
                    source: text_or_empty(member_text(doc, i, "source"@)),
                    zh: text_or_empty(member_text(doc, i, "content"@)),
                    en: Seq::empty(),
                    table: None,
                    failed: {
                        let f = json_pointer_node(doc, key_pointer(index_pointer(Seq::empty(), i), "failed"@));
                        f.0 == JsonKind::Scalar && f.1 == "true"@
                    },
                },
            ),
            None => r,
        }
    }
}

/// The fields of a digest stored in the older single-language layout.
pub open spec fn legacy_digest(doc: Seq<char>) -> Seq<ResultView> {
    let n = json_pointer_node(doc, Seq::empty());
    if n.0 == JsonKind::Array {
        legacy_fields(doc, n.2)
    } else {
        Seq::empty()
    }
}

fn member_text_v(doc: &str, k: usize, key: &str) -> (r: Option<String>)
    ensures
        match r {
            Some(t) => member_text(doc@, k as nat, key@) == Some(t@),
            None => member_text(doc@, k as nat, key@) is None,
        },
{
    let e: Vec<char> = Vec::new();
    let p = key_pointer_v(&index_pointer_v(&e, k), key);
    let n = node_at(doc, &p);
    if n.kind == JsonKind::Str {
        Some(n.text)
    } else {
        None
    }
}

/// Read a digest stored in the older layout: `content` becomes the Chinese
/// text, the English text and the table stay empty.
pub fn legacy_digest_fields(content: &str) -> (r: Vec<DigestFieldResult>)
    ensures
        result_views(r@) == legacy_digest(content@),
{
    let e: Vec<char> = Vec::new();
    let top = node_at(content, &e);
    let mut r: Vec<DigestFieldResult> = Vec::new();
    if top.kind != JsonKind::Array {
        assert(result_views(r@) =~= Seq::<ResultView>::empty());
        return r;
    }
    let mut k: usize = 0;
    while k < top.len
        invariant
            k <= top.len,
            top@ == json_pointer_node(content@, Seq::empty()),
            e@ == Seq::<char>::empty(),
            result_views(r@) == legacy_fields(content@, k as nat),
        decreases top.len - k,
    {
        match member_text_v(content, k, "name") {
            Some(name) => {
                let lo = member_text_v(content, k, "label");
                assert(opt_text(lo) == member_text(content@, k as nat, "label"@));
                let label = text_or_empty_v(lo);
                let fo = member_text_v(content, k, "ftype");
                assert(opt_text(fo) == member_text(content@, k as nat, "ftype"@));
                let ftype = text_or_empty_v(fo);
                let so = member_text_v(content, k, "source");
                assert(opt_text(so) == member_text(content@, k as nat, "source"@));
                let source = text_or_empty_v(so);
                let co = member_text_v(content, k, "content");
                assert(opt_text(co) == member_text(content@, k as nat, "content"@));
                let zh = text_or_empty_v(co);
                let fp = key_pointer_v(&index_pointer_v(&e, k), "failed");
                let f = node_at(content, &fp);
                let failed = f.kind == JsonKind::Scalar && eq_v(&chars_of(f.text.as_str()), &chars_of("true"));
                let ghost before = result_views(r@);
                let item = DigestFieldResult { name, label, ftype, source, zh, en: String::new(), table: None, failed };
                proof {
                    let spec_item = legacy_fields(content@, (k + 1) as nat).last();
                    assert(item@.failed == spec_item.failed);
                    assert(item@.en =~= spec_item.en);
                    assert(item@ == spec_item);
                }
                r.push(item);
                assert(result_views(r@) =~= before.push(item@));
            },
            None => {},
        }
        k += 1;
    }
    r
}

} // verus!
