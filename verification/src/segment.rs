//! Structural segmentation of Markdown into translation units.
//!
//! Headings, tables, code blocks and figure lines become segments of their
//! own; other lines are merged into paragraphs.  Paragraphs after a
//! bibliography heading are references.  Paragraphs that read like a table
//! of contents are re-tagged `toc` and keep one entry per line.
use vstd::prelude::*;
use crate::text::{
    append_v, chars_of, contains, contains_v, digit, eq_v, has_char, has_char_v, is_digit, is_ws,
    join, join_v, lines, lines_v, slice_v, starts_with, starts_with_v, string_of, trim,
    trim_end, trim_end_char, trim_end_char_v, trim_end_v, trim_start_char, trim_start_char_v,
    trim_v, utf8_len, utf8_len_lt, views, ws, trim_start,
};

verus! {

/// Kind of a translation unit.
#[derive(Clone, Copy, Debug, PartialEq, Eq, Structural)]
pub enum SegKind {
    Paragraph,
    Heading,
    Table,
    Code,
    ImageCaption,
    Reference,
    Toc,
}

/// The name a kind carries in a [`Segment`].
pub open spec fn kind_name(k: SegKind) -> Seq<char> {
    match k {
        SegKind::Paragraph => "paragraph"@,
        SegKind::Heading => "heading"@,
        SegKind::Table => "table"@,
        SegKind::Code => "code"@,
        SegKind::ImageCaption => "image_caption"@,
        SegKind::Reference => "reference"@,
        SegKind::Toc => "toc"@,
    }
}

pub fn kind_str(k: SegKind) -> (r: &'static str)
    ensures
        r@ == kind_name(k),
{
    match k {
        SegKind::Paragraph => "paragraph",
        SegKind::Heading => "heading",
        SegKind::Table => "table",
        SegKind::Code => "code",
        SegKind::ImageCaption => "image_caption",
        SegKind::Reference => "reference",
        SegKind::Toc => "toc",
    }
}

/// Translation unit: the smallest block sent to the translator.
#[derive(Clone, Debug)]
pub struct Segment {
    pub index: usize,
    pub kind: String,
    pub content: String,
}

/// The segmenter's state after some lines.
pub struct SplitState {
    pub segs: Seq<(SegKind, Seq<char>)>,
    pub buf: Seq<char>,
    pub kind: SegKind,
    pub in_code: bool,
    pub in_refs: bool,
}

pub open spec fn initial_state() -> SplitState {
    SplitState {
        segs: Seq::empty(),
        buf: Seq::empty(),
        kind: SegKind::Paragraph,
        in_code: false,
        in_refs: false,
    }
}

/// Emit the buffer (without trailing whitespace) as a segment if anything is
/// left of it, and empty the buffer.
pub open spec fn flush(st: SplitState) -> SplitState {
    let c = trim_end(st.buf);
    SplitState {
        segs: if c.len() > 0 {
            st.segs.push((st.kind, c))
        } else {
            st.segs
        },
        buf: Seq::empty(),
        ..st
    }
}

pub open spec fn with_kind(st: SplitState, k: SegKind) -> SplitState {
    SplitState { kind: k, ..st }
}

pub open spec fn add_line(st: SplitState, line: Seq<char>) -> SplitState {
    SplitState { buf: st.buf + line.push('\n'), ..st }
}

/// Headings after which paragraphs are bibliography entries.
pub open spec fn is_refs_heading(h: Seq<char>) -> bool {
    ||| h == "References"@
    ||| h == "REFERENCES"@
    ||| h == "Reference"@
    ||| h == "Bibliography"@
    ||| h == "BIBLIOGRAPHY"@
    ||| h == "参考文献"@
    ||| h == "引用文献"@
}

/// The text of a heading line without its `#` markers.
pub open spec fn heading_text(t: Seq<char>) -> Seq<char> {
    trim(trim_end_char(trim(trim_start_char(t, '#')), '#'))
}

pub open spec fn is_caption_start(t: Seq<char>) -> bool {
    starts_with(t, "!["@) || starts_with(t, "**Figure"@) || starts_with(t, "**图"@)
}

/// One line of input.
pub open spec fn step(st: SplitState, line: Seq<char>) -> SplitState {
    let t = trim(line);
    if starts_with(t, "```"@) {
        let s1 = add_line(
            SplitState { in_code: !st.in_code, ..with_kind(flush(st), SegKind::Code) },
            line,
        );
        if !s1.in_code {
            with_kind(flush(s1), SegKind::Paragraph)
        } else {
            s1
        }
    } else if st.in_code {
        add_line(st, line)
    } else if starts_with(t, "#"@) {
        let s1 = with_kind(
            flush(add_line(with_kind(flush(st), SegKind::Heading), line)),
            SegKind::Paragraph,
        );
        let h = heading_text(t);
        if !st.in_refs && utf8_len(h) < 30 && is_refs_heading(h) {
            SplitState { in_refs: true, ..s1 }
        } else {
            s1
        }
    } else if starts_with(t, "|"@) || starts_with(t, "<table"@) {
        let s1 = if st.kind != SegKind::Table {
            with_kind(flush(st), SegKind::Table)
        } else {
            st
        };
        add_line(s1, line)
    } else if t.len() == 0 {
        flush(st)
    } else if is_caption_start(t) {
        with_kind(flush(add_line(with_kind(flush(st), SegKind::ImageCaption), line)), SegKind::Paragraph)
    } else {
        let s1 = if st.kind != SegKind::Paragraph && st.kind != SegKind::Reference {
            with_kind(
                flush(st),
                if st.in_refs {
                    SegKind::Reference
                } else {
                    SegKind::Paragraph
                },
            )
        } else if st.in_refs && st.kind != SegKind::Reference {
            with_kind(st, SegKind::Reference)
        } else {
            st
        };
        add_line(s1, line)
    }
}

/// The state after all of `lines`.
pub open spec fn run(lines: Seq<Seq<char>>) -> SplitState
    decreases lines.len(),
{
    if lines.len() == 0 {
        initial_state()
    } else {
        step(run(lines.drop_last()), lines.last())
    }
}

/// The non-empty trimmed lines of a paragraph.
pub open spec fn entry_lines(content: Seq<char>) -> Seq<Seq<char>> {
    keep_nonempty(lines(content).map_values(|l: Seq<char>| trim(l)))
}

/// The non-empty members of `ls`, in order.
pub open spec fn keep_nonempty(ls: Seq<Seq<char>>) -> Seq<Seq<char>>
    decreases ls.len(),
{
    if ls.len() == 0 {
        ls
    } else if ls.last().len() > 0 {
        keep_nonempty(ls.drop_last()).push(ls.last())
    } else {
        keep_nonempty(ls.drop_last())
    }
}

/// Paragraphs that read like a table of contents become `toc` segments whose
/// entries are joined by Markdown hard breaks.
pub open spec fn retag(seg: (SegKind, Seq<char>)) -> (SegKind, Seq<char>) {
    let ls = entry_lines(seg.1);
    if seg.0 == SegKind::Paragraph && looks_like_toc_spec(ls) {
        (SegKind::Toc, join(ls, "  \n"@))
    } else {
        seg
    }
}

/// The segmentation of `md`: kinds and contents, in order.
pub open spec fn split_spec(md: Seq<char>) -> Seq<(SegKind, Seq<char>)> {
    flush(run(lines(md))).segs.map_values(|s: (SegKind, Seq<char>)| retag(s))
}

// ---------------------------------------------------------------------------
// Table-of-contents detection
// ---------------------------------------------------------------------------

/// Number of trailing ASCII digits of `t`.
pub open spec fn trailing_digits(t: Seq<char>) -> nat
    decreases t.len(),
{
    if t.len() > 0 && is_digit(t.last()) {
        trailing_digits(t.drop_last()) + 1
    } else {
        0
    }
}

/// The line ends with a page number preceded by whitespace, `.` or `…`.
pub open spec fn ends_with_page(t: Seq<char>) -> bool {
    let k = trailing_digits(t);
    &&& t.len() > 0 && is_digit(t.last())
    &&& t.len() >= 5
    &&& t.len() > k
    &&& {
        let c = t[t.len() - k - 1];
        is_ws(c) || c == '.' || c == '…'
    }
}

/// The line has a dotted leader.
pub open spec fn has_leader(t: Seq<char>) -> bool {
    contains(t, "...."@) || has_char(t, '…')
}

pub open spec fn is_toc_entry(l: Seq<char>) -> bool {
    let t = trim(l);
    t.len() > 0 && (has_leader(t) || ends_with_page(t))
}

pub open spec fn toc_hits(lines: Seq<Seq<char>>) -> nat
    decreases lines.len(),
{
    if lines.len() == 0 {
        0
    } else {
        toc_hits(lines.drop_last()) + if is_toc_entry(lines.last()) {
            1nat
        } else {
            0nat
        }
    }
}

/// At least three lines, and at least 60% of them are table-of-contents
/// entries.
pub open spec fn looks_like_toc_spec(lines: Seq<Seq<char>>) -> bool {
    lines.len() >= 3 && toc_hits(lines) * 10 >= min_int((lines.len() * 6) as int, usize::MAX as int)
}

pub open spec fn min_int(a: int, b: int) -> int {
    if a <= b {
        a
    } else {
        b
    }
}

proof fn lemma_toc_hits_le(lines: Seq<Seq<char>>)
    ensures
        toc_hits(lines) <= lines.len(),
    decreases lines.len(),
{
    if lines.len() > 0 {
        lemma_toc_hits_le(lines.drop_last());
    }
}

fn trailing_digits_v(t: &Vec<char>) -> (k: usize)
    ensures
        k == trailing_digits(t@),
        k <= t.len(),
{
    let mut j = t.len();
    assert(t@.subrange(0, j as int) =~= t@);
    while j > 0 && digit(t[j - 1])
        invariant
            j <= t.len(),
            trailing_digits(t@) == trailing_digits(t@.subrange(0, j as int)) + (t.len() - j),
        decreases j,
    {
        proof {
            let s = t@.subrange(0, j as int);
            assert(s.drop_last() =~= t@.subrange(0, j - 1));
        }
        j -= 1;
    }
    t.len() - j
}

fn ends_with_page_v(t: &Vec<char>) -> (r: bool)
    ensures
        r == ends_with_page(t@),
{
    if t.len() == 0 || !digit(t[t.len() - 1]) || t.len() < 5 {
        return false;
    }
    let k = trailing_digits_v(t);
    if t.len() <= k {
        return false;
    }
    let c = t[t.len() - k - 1];
    ws(c) || c == '.' || c == '…'
}

fn is_toc_entry_v(l: &Vec<char>) -> (r: bool)
    ensures
        r == is_toc_entry(l@),
{
    let t = trim_v(l);
    if t.len() == 0 {
        return false;
    }
    let dots = chars_of("....");
    contains_v(&t, &dots) || has_char_v(&t, '…') || ends_with_page_v(&t)
}

/// Do these lines read like a table of contents?
pub fn looks_like_toc(lines: &Vec<Vec<char>>) -> (r: bool)
    ensures
        r == looks_like_toc_spec(views(lines@)),
{
    let ghost ls = views(lines@);
    if lines.len() < 3 {
        return false;
    }
    let mut hits: usize = 0;
    let mut i: usize = 0;
    while i < lines.len()
        invariant
            ls == views(lines@),
            i <= lines.len(),
            hits == toc_hits(ls.subrange(0, i as int)),
            hits <= i,
        decreases lines.len() - i,
    {
        proof {
            assert(ls.subrange(0, i + 1).drop_last() =~= ls.subrange(0, i as int));
        }
        if is_toc_entry_v(&lines[i]) {
            hits += 1;
        }
        i += 1;
    }
    assert(ls.subrange(0, lines.len() as int) =~= ls);
    let h = hits as u128 * 10;
    let n = lines.len() as u128 * 6;
    let cap = if n <= usize::MAX as u128 {
        n
    } else {
        usize::MAX as u128
    };
    h >= cap
}

// ---------------------------------------------------------------------------
// The executable segmenter
// ---------------------------------------------------------------------------

struct Splitter {
    segs: Vec<(SegKind, Vec<char>)>,
    buf: Vec<char>,
    kind: SegKind,
    in_code: bool,
    in_refs: bool,
}

pub open spec fn seg_views(v: Seq<(SegKind, Vec<char>)>) -> Seq<(SegKind, Seq<char>)> {
    v.map_values(|p: (SegKind, Vec<char>)| (p.0, p.1@))
}

impl Splitter {
    spec fn view(&self) -> SplitState {
        SplitState {
            segs: seg_views(self.segs@),
            buf: self.buf@,
            kind: self.kind,
            in_code: self.in_code,
            in_refs: self.in_refs,
        }
    }

    fn flush(&mut self)
        ensures
            final(self).view() == flush(old(self).view()),
    {
        let c = trim_end_v(&self.buf);
        if c.len() > 0 {
            let ghost before = self.segs@;
            self.segs.push((self.kind, c));
            assert(seg_views(self.segs@) =~= seg_views(before).push((self.kind, c@)));
        }
        self.buf = Vec::new();
    }

    fn add_line(&mut self, line: &Vec<char>)
        ensures
            final(self).view() == add_line(old(self).view(), line@),
    {
        append_v(&mut self.buf, line);
        self.buf.push('\n');
    }

    fn step(&mut self, line: &Vec<char>)
        ensures
            final(self).view() == step(old(self).view(), line@),
    {
        let t = trim_v(line);
        let fence = chars_of("```");
        if starts_with_v(&t, &fence) {
            self.flush();
            self.kind = SegKind::Code;
            self.in_code = !self.in_code;
            self.add_line(line);
            if !self.in_code {
                self.flush();
                self.kind = SegKind::Paragraph;
            }
            return ;
        }
        if self.in_code {
            self.add_line(line);
            return ;
        }
        let hash = chars_of("#");
        if starts_with_v(&t, &hash) {
            let was_refs = self.in_refs;
            self.flush();
            self.kind = SegKind::Heading;
            self.add_line(line);
            self.flush();
            self.kind = SegKind::Paragraph;
            let h = trim_v(&trim_end_char_v(&trim_v(&trim_start_char_v(&t, '#')), '#'));
            if !was_refs && utf8_len_lt(&h, 30) && refs_heading(&h) {
                self.in_refs = true;
            }
            return ;
        }
        let bar = chars_of("|");
        let table = chars_of("<table");
        if starts_with_v(&t, &bar) || starts_with_v(&t, &table) {
            if self.kind != SegKind::Table {
                self.flush();
                self.kind = SegKind::Table;
            }
            self.add_line(line);
            return ;
        }
        if t.len() == 0 {
            self.flush();
            return ;
        }
        if caption_start(&t) {
            self.flush();
            self.kind = SegKind::ImageCaption;
            self.add_line(line);
            self.flush();
            self.kind = SegKind::Paragraph;
            return ;
        }
        if self.kind != SegKind::Paragraph && self.kind != SegKind::Reference {
            self.flush();
            self.kind = if self.in_refs {
                SegKind::Reference
            } else {
                SegKind::Paragraph
            };
        } else if self.in_refs && self.kind != SegKind::Reference {
            self.kind = SegKind::Reference;
        }
        self.add_line(line);
    }
}

fn refs_heading(h: &Vec<char>) -> (r: bool)
    ensures
        r == is_refs_heading(h@),
{
    eq_v(h, &chars_of("References")) || eq_v(h, &chars_of("REFERENCES")) || eq_v(
        h,
        &chars_of("Reference"),
    ) || eq_v(h, &chars_of("Bibliography")) || eq_v(h, &chars_of("BIBLIOGRAPHY")) || eq_v(
        h,
        &chars_of("参考文献"),
    ) || eq_v(h, &chars_of("引用文献"))
}

fn caption_start(t: &Vec<char>) -> (r: bool)
    ensures
        r == is_caption_start(t@),
{
    starts_with_v(t, &chars_of("![")) || starts_with_v(t, &chars_of("**Figure")) || starts_with_v(
        t,
        &chars_of("**图"),
    )
}

/// Non-empty trimmed lines of `content`.
pub fn entry_lines_v(content: &Vec<char>) -> (r: Vec<Vec<char>>)
    ensures
        views(r@) == entry_lines(content@),
{
    let ls = lines_v(content);
    let ghost tl = views(ls@).map_values(|l: Seq<char>| trim(l));
    let mut r: Vec<Vec<char>> = Vec::new();
    let mut i: usize = 0;
    while i < ls.len()
        invariant
            i <= ls.len(),
            tl == views(ls@).map_values(|l: Seq<char>| trim(l)),
            views(r@) == keep_nonempty(tl.subrange(0, i as int)),
        decreases ls.len() - i,
    {
        let t = trim_v(&ls[i]);
        proof {
            let a = tl.subrange(0, i + 1);
            assert(a.drop_last() =~= tl.subrange(0, i as int));
            assert(a.last() == t@);
        }
        if t.len() > 0 {
            let ghost before = r@;
            r.push(t);
            assert(views(r@) =~= views(before).push(r@.last()@));
        }
        i += 1;
    }
    assert(tl.subrange(0, ls.len() as int) =~= tl);
    r
}

/// Split Markdown into translation units: headings, tables and code blocks
/// stand alone, figure lines stand alone, other lines merge into paragraphs
/// (references after a bibliography heading), and paragraphs that read like
/// a table of contents are tagged `toc` with one entry per line.
pub fn split_markdown(md: &str) -> (r: Vec<Segment>)
    ensures
        r.len() == split_spec(md@).len(),
        forall|i: int|
            0 <= i < r.len() ==> {
                &&& (#[trigger] r[i]).index == i
                &&& r[i].kind@ == kind_name(split_spec(md@)[i].0)
                &&& r[i].content@ == split_spec(md@)[i].1
            },
{
    let pairs = split_pairs(md);
    let mut out: Vec<Segment> = Vec::new();
    let mut k: usize = 0;
    while k < pairs.len()
        invariant
            k <= pairs.len(),
            seg_views(pairs@) == split_spec(md@),
            out.len() == k,
            forall|j: int|
                0 <= j < k ==> {
                    &&& (#[trigger] out[j]).index == j
                    &&& out[j].kind@ == kind_name(split_spec(md@)[j].0)
                    &&& out[j].content@ == split_spec(md@)[j].1
                },
        decreases pairs.len() - k,
    {
        assert(seg_views(pairs@)[k as int] == (pairs@[k as int].0, pairs@[k as int].1@));
        let mut ks = String::new();
        ks.append(kind_str(pairs[k].0));
        out.push(Segment { index: k, kind: ks, content: string_of(&pairs[k].1) });
        k += 1;
    }
    out
}

/// The segments of `md` as kind and text.
pub(crate) fn split_pairs(md: &str) -> (r: Vec<(SegKind, Vec<char>)>)
    ensures
        seg_views(r@) == split_spec(md@),
{
    let mdv = chars_of(md);
    let ls = lines_v(&mdv);
    let ghost lsv = views(ls@);
    let mut sp = Splitter {
        segs: Vec::new(),
        buf: Vec::new(),
        kind: SegKind::Paragraph,
        in_code: false,
        in_refs: false,
    };
    assert(seg_views(sp.segs@) =~= Seq::<(SegKind, Seq<char>)>::empty());
    let mut i: usize = 0;
    while i < ls.len()
        invariant
            i <= ls.len(),
            lsv == views(ls@),
            lsv == lines(md@),
            sp.view() == run(lsv.subrange(0, i as int)),
        decreases ls.len() - i,
    {
        proof {
            let a = lsv.subrange(0, i + 1);
            assert(a.drop_last() =~= lsv.subrange(0, i as int));
        }
        sp.step(&ls[i]);
        i += 1;
    }
    assert(lsv.subrange(0, ls.len() as int) =~= lsv);
    sp.flush();
    let ghost raw = sp.view().segs;
    let mut out: Vec<(SegKind, Vec<char>)> = Vec::new();
    let mut k: usize = 0;
    while k < sp.segs.len()
        invariant
            k <= sp.segs.len(),
            raw == seg_views(sp.segs@),
            split_spec(md@) == raw.map_values(|s: (SegKind, Seq<char>)| retag(s)),
            seg_views(out@) == split_spec(md@).take(k as int),
        decreases sp.segs.len() - k,
    {
        let kind = sp.segs[k].0;
        let ghost content = sp.segs@[k as int].1@;
        assert(raw[k as int] == (kind, content));
        let body = slice_v(&sp.segs[k].1, 0, sp.segs[k].1.len());
        assert(body@ =~= content);
        let mut seg_kind = kind;
        let mut text = slice_v(&body, 0, body.len());
        assert(text@ =~= content);
        if kind == SegKind::Paragraph {
            let ls2 = entry_lines_v(&body);
            if looks_like_toc(&ls2) {
                seg_kind = SegKind::Toc;
                text = join_v(&ls2, &chars_of("  \n"));
            }
        }
        assert(retag(raw[k as int]) == (seg_kind, text@));
        let ghost before = seg_views(out@);
        out.push((seg_kind, text));
        proof {
            assert(seg_views(out@) =~= before.push((seg_kind, text@)));
            assert(split_spec(md@).take(k + 1) =~= split_spec(md@).take(k as int).push(
                split_spec(md@)[k as int],
            ));
        }
        k += 1;
    }
    assert(split_spec(md@).take(sp.segs.len() as int) =~= split_spec(md@));
    out
}

} // verus!

verus! {

pub open spec fn all_nonempty(segs: Seq<(SegKind, Seq<char>)>) -> bool {
    forall|i: int| 0 <= i < segs.len() ==> (#[trigger] segs[i]).1.len() > 0
}

proof fn lemma_flush_nonempty(st: SplitState)
    requires
        all_nonempty(st.segs),
    ensures
        all_nonempty(flush(st).segs),
{
}

proof fn lemma_step_nonempty(st: SplitState, line: Seq<char>)
    requires
        all_nonempty(st.segs),
    ensures
        all_nonempty(step(st, line).segs),
{
    lemma_flush_nonempty(st);
    let t = trim(line);
    if starts_with(t, "```"@) {
        let s1 = add_line(
            SplitState { in_code: !st.in_code, ..with_kind(flush(st), SegKind::Code) },
            line,
        );
        lemma_flush_nonempty(s1);
    } else if st.in_code {
    } else if starts_with(t, "#"@) {
        lemma_flush_nonempty(add_line(with_kind(flush(st), SegKind::Heading), line));
    } else if starts_with(t, "|"@) || starts_with(t, "<table"@) {
    } else if t.len() == 0 {
    } else if is_caption_start(t) {
        lemma_flush_nonempty(add_line(with_kind(flush(st), SegKind::ImageCaption), line));
    } else {
    }
}

proof fn lemma_run_nonempty(lines: Seq<Seq<char>>)
    ensures
        all_nonempty(run(lines).segs),
    decreases lines.len(),
{
    if lines.len() > 0 {
        lemma_run_nonempty(lines.drop_last());
        lemma_step_nonempty(run(lines.drop_last()), lines.last());
    }
}

proof fn lemma_keep_nonempty(ls: Seq<Seq<char>>)
    ensures
        forall|i: int|
            0 <= i < keep_nonempty(ls).len() ==> (#[trigger] keep_nonempty(ls)[i]).len() > 0,
    decreases ls.len(),
{
    if ls.len() > 0 {
        lemma_keep_nonempty(ls.drop_last());
        let k = keep_nonempty(ls.drop_last());
        if ls.last().len() > 0 {
            assert forall|i: int| 0 <= i < k.push(ls.last()).len() implies (#[trigger] k.push(
                ls.last(),
            )[i]).len() > 0 by {
                if i < k.len() {
                    assert(k.push(ls.last())[i] == k[i]);
                }
            }
        }
    }
}

proof fn lemma_join_nonempty(parts: Seq<Seq<char>>, sep: Seq<char>)
    requires
        parts.len() > 0,
        parts.last().len() > 0,
    ensures
        join(parts, sep).len() > 0,
{
}

/// Law: no segment produced by `split_markdown` is empty.
pub proof fn law_segments_nonempty(md: Seq<char>)
    ensures
        forall|i: int| 0 <= i < split_spec(md).len() ==> (#[trigger] split_spec(md)[i]).1.len() > 0,
{
    let st = run(lines(md));
    lemma_run_nonempty(lines(md));
    lemma_flush_nonempty(st);
    let raw = flush(st).segs;
    assert forall|i: int| 0 <= i < split_spec(md).len() implies (
    #[trigger] split_spec(md)[i]).1.len() > 0 by {
        let seg = raw[i];
        let ls = entry_lines(seg.1);
        lemma_keep_nonempty(lines(seg.1).map_values(|l: Seq<char>| trim(l)));
        if seg.0 == SegKind::Paragraph && looks_like_toc_spec(ls) {
            assert(ls.last().len() > 0);
            lemma_join_nonempty(ls, "  \n"@);
        }
    }
}

/// Text that ends in a character other than white space.
pub open spec fn ends_clean(c: Seq<char>) -> bool {
    c.len() > 0 && !is_ws(c.last())
}

pub open spec fn all_clean(segs: Seq<(SegKind, Seq<char>)>) -> bool {
    forall|i: int| 0 <= i < segs.len() ==> ends_clean(#[trigger] segs[i].1)
}

proof fn lemma_trim_end_last(s: Seq<char>)
    ensures
        trim_end(s).len() > 0 ==> ends_clean(trim_end(s)),
    decreases s.len(),
{
    if s.len() > 0 && is_ws(s[s.len() - 1]) {
        lemma_trim_end_last(s.subrange(0, s.len() - 1));
    }
}

proof fn lemma_trim_end_idem(s: Seq<char>)
    ensures
        trim_end(trim_end(s)) == trim_end(s),
{
    lemma_trim_end_last(s);
}

proof fn lemma_flush_clean(st: SplitState)
    requires
        all_clean(st.segs),
    ensures
        all_clean(flush(st).segs),
{
    lemma_trim_end_last(st.buf);
    let f = flush(st).segs;
    assert forall|i: int| 0 <= i < f.len() implies ends_clean(#[trigger] f[i].1) by {
        if i < st.segs.len() {
            assert(f[i] == st.segs[i]);
        }
    }
}

proof fn lemma_step_clean(st: SplitState, line: Seq<char>)
    requires
        all_clean(st.segs),
    ensures
        all_clean(step(st, line).segs),
{
    lemma_flush_clean(st);
    let t = trim(line);
    if starts_with(t, "```"@) {
        let s1 = add_line(
            SplitState { in_code: !st.in_code, ..with_kind(flush(st), SegKind::Code) },
            line,
        );
        lemma_flush_clean(s1);
    } else if st.in_code {
    } else if starts_with(t, "#"@) {
        lemma_flush_clean(add_line(with_kind(flush(st), SegKind::Heading), line));
    } else if starts_with(t, "|"@) || starts_with(t, "<table"@) {
    } else if t.len() == 0 {
    } else if is_caption_start(t) {
        lemma_flush_clean(add_line(with_kind(flush(st), SegKind::ImageCaption), line));
    } else {
    }
}

proof fn lemma_run_clean(lines: Seq<Seq<char>>)
    ensures
        all_clean(run(lines).segs),
    decreases lines.len(),
{
    if lines.len() > 0 {
        lemma_run_clean(lines.drop_last());
        lemma_step_clean(run(lines.drop_last()), lines.last());
    }
}

proof fn lemma_join_last(parts: Seq<Seq<char>>, sep: Seq<char>)
    requires
        parts.len() > 0,
        parts.last().len() > 0,
    ensures
        join(parts, sep).len() > 0,
        join(parts, sep).last() == parts.last().last(),
{
}

/// Law: every segment of `split_markdown` ends in a character other than
/// white space, so its content equals its `trim_end`.
pub proof fn law_segments_end_clean(md: Seq<char>)
    ensures
        forall|i: int|
            0 <= i < split_spec(md).len() ==> ends_clean(#[trigger] split_spec(md)[i].1) && trim_end(
                split_spec(md)[i].1,
            ) == split_spec(md)[i].1,
{
    let st = run(lines(md));
    lemma_run_clean(lines(md));
    lemma_flush_clean(st);
    let raw = flush(st).segs;
    assert forall|i: int| 0 <= i < split_spec(md).len() implies ends_clean(#[trigger] split_spec(md)[i].1)
        && trim_end(split_spec(md)[i].1) == split_spec(md)[i].1 by {
        let seg = raw[i];
        assert(ends_clean(seg.1));
        let ls = entry_lines(seg.1);
        if seg.0 == SegKind::Paragraph && looks_like_toc_spec(ls) {
            lemma_keep_nonempty(lines(seg.1).map_values(|l: Seq<char>| trim(l)));
            assert(ls.len() > 0);
            assert(ls.last().len() > 0);
            let m = lines(seg.1).map_values(|l: Seq<char>| trim(l));
            assert forall|j: int| 0 <= j < m.len() implies trim_end(#[trigger] m[j]) == m[j] by {
                lemma_trim_end_idem(trim_start(lines(seg.1)[j]));
            }
            lemma_keep_trimmed(m);
            lemma_trim_end_last(ls.last());
            lemma_join_last(ls, "  \n"@);
        }
    }
}

/// The members kept by `keep_nonempty` of trimmed lines are trimmed.
proof fn lemma_keep_trimmed(ls: Seq<Seq<char>>)
    requires
        forall|i: int| 0 <= i < ls.len() ==> trim_end(#[trigger] ls[i]) == ls[i],
    ensures
        forall|i: int| 0 <= i < keep_nonempty(ls).len() ==> trim_end(#[trigger] keep_nonempty(ls)[i])
            == keep_nonempty(ls)[i],
    decreases ls.len(),
{
    if ls.len() > 0 {
        let init = ls.drop_last();
        assert forall|i: int| 0 <= i < init.len() implies trim_end(#[trigger] init[i]) == init[i] by {
            assert(init[i] == ls[i]);
        }
        lemma_keep_trimmed(init);
        let k = keep_nonempty(init);
        if ls.last().len() > 0 {
            assert forall|i: int| 0 <= i < k.push(ls.last()).len() implies trim_end(#[trigger] k.push(ls.last())[i])
                == k.push(ls.last())[i] by {
                if i < k.len() {
                    assert(k.push(ls.last())[i] == k[i]);
                } else {
                    assert(trim_end(ls[ls.len() - 1]) == ls[ls.len() - 1]);
                }
            }
        }
    }
}

proof fn lemma_trim_end_empty(s: Seq<char>)
    requires
        trim_end(s).len() == 0,
    ensures
        forall|i: int| 0 <= i < s.len() ==> is_ws(#[trigger] s[i]),
    decreases s.len(),
{
    if s.len() > 0 {
        let init = s.subrange(0, s.len() - 1);
        lemma_trim_end_empty(init);
        assert forall|i: int| 0 <= i < s.len() implies is_ws(#[trigger] s[i]) by {
            if i < s.len() - 1 {
                assert(s[i] == init[i]);
            }
        }
    }
}

proof fn lemma_all_ws_trim_start(s: Seq<char>)
    requires
        forall|i: int| 0 <= i < s.len() ==> is_ws(#[trigger] s[i]),
    ensures
        trim_start(s).len() == 0,
    decreases s.len(),
{
    if s.len() > 0 {
        let rest = s.subrange(1, s.len() as int);
        assert forall|i: int| 0 <= i < rest.len() implies is_ws(#[trigger] rest[i]) by {
            assert(rest[i] == s[i + 1]);
        }
        lemma_all_ws_trim_start(rest);
    }
}

/// Law: outside a code block, a line whose trimmed text starts with `#` is
/// a heading segment of its own, the line without trailing white space:
/// the text gathered before it is emitted first and nothing is left over.
pub proof fn law_heading_line(st: SplitState, line: Seq<char>)
    requires
        !st.in_code,
        starts_with(trim(line), "#"@),
    ensures
        step(st, line).segs == flush(st).segs.push((SegKind::Heading, trim_end(line))),
        step(st, line).buf.len() == 0,
{
    reveal_strlit("#");
    reveal_strlit("```");
    let t = trim(line);
    assert(t.subrange(0, 1) == "#"@);
    assert(t.subrange(0, 1)[0] == t[0]);
    assert(t[0] == '#');
    if starts_with(t, "```"@) {
        assert(t.subrange(0, 3) == "```"@);
        assert(t.subrange(0, 3)[0] == t[0]);
        assert(false);
    }
    let buf = line.push('\n');
    assert(is_ws('\n'));
    assert(buf.subrange(0, buf.len() - 1) =~= line);
    assert(trim_end(buf) == trim_end(line));
    if trim_end(line).len() == 0 {
        lemma_trim_end_empty(line);
        lemma_all_ws_trim_start(line);
        assert(trim_start(line).len() == 0);
        assert(trim(line).len() == 0);
    }
    let s1 = add_line(with_kind(flush(st), SegKind::Heading), line);
    assert(s1.buf =~= buf);
}

/// `b` starts with all of `a`.
pub open spec fn keeps(a: Seq<(SegKind, Seq<char>)>, b: Seq<(SegKind, Seq<char>)>) -> bool {
    a.len() <= b.len() && forall|i: int| 0 <= i < a.len() ==> #[trigger] b[i] == a[i]
}

proof fn lemma_keeps_trans(a: Seq<(SegKind, Seq<char>)>, b: Seq<(SegKind, Seq<char>)>, c: Seq<(SegKind, Seq<char>)>)
    requires
        keeps(a, b),
        keeps(b, c),
    ensures
        keeps(a, c),
{
    assert forall|i: int| 0 <= i < a.len() implies #[trigger] c[i] == a[i] by {
        assert(c[i] == b[i]);
    }
}

proof fn lemma_flush_keeps(st: SplitState)
    ensures
        keeps(st.segs, flush(st).segs),
{
}

proof fn lemma_step_keeps(st: SplitState, line: Seq<char>)
    ensures
        keeps(st.segs, step(st, line).segs),
{
    lemma_flush_keeps(st);
    let t = trim(line);
    if starts_with(t, "```"@) {
        let s1 = add_line(
            SplitState { in_code: !st.in_code, ..with_kind(flush(st), SegKind::Code) },
            line,
        );
        lemma_flush_keeps(s1);
        lemma_keeps_trans(st.segs, s1.segs, flush(s1).segs);
    } else if st.in_code {
    } else if starts_with(t, "#"@) {
        let s1 = add_line(with_kind(flush(st), SegKind::Heading), line);
        lemma_flush_keeps(s1);
        lemma_keeps_trans(st.segs, s1.segs, flush(s1).segs);
    } else if starts_with(t, "|"@) || starts_with(t, "<table"@) {
    } else if t.len() == 0 {
    } else if is_caption_start(t) {
        let s1 = add_line(with_kind(flush(st), SegKind::ImageCaption), line);
        lemma_flush_keeps(s1);
        lemma_keeps_trans(st.segs, s1.segs, flush(s1).segs);
    } else {
    }
}

proof fn lemma_run_keeps(ls: Seq<Seq<char>>, j: int)
    requires
        0 <= j <= ls.len(),
    ensures
        keeps(run(ls.take(j)).segs, run(ls).segs),
    decreases ls.len(),
{
    if j == ls.len() {
        assert(ls.take(j) =~= ls);
    } else {
        let init = ls.drop_last();
        assert(init.take(j) =~= ls.take(j));
        lemma_run_keeps(init, j);
        lemma_step_keeps(run(init), ls.last());
        lemma_keeps_trans(run(ls.take(j)).segs, run(init).segs, run(ls).segs);
    }
}

/// Law: every line of `md` outside a code block whose trimmed text starts
/// with `#` appears in the segmentation as a heading segment of its own,
/// the line without trailing white space.
pub proof fn law_heading_lines_are_segments(md: Seq<char>, j: int)
    requires
        0 <= j < lines(md).len(),
        !run(lines(md).take(j)).in_code,
        starts_with(trim(lines(md)[j]), "#"@),
    ensures
        exists|k: int|
            0 <= k < split_spec(md).len() && #[trigger] split_spec(md)[k] == (
                SegKind::Heading,
                trim_end(lines(md)[j]),
            ),
{
    let ls = lines(md);
    let st = run(ls.take(j));
    let t1 = ls.take(j + 1);
    assert(t1.drop_last() =~= ls.take(j));
    assert(t1.last() == ls[j]);
    assert(run(t1) == step(st, ls[j]));
    law_heading_line(st, ls[j]);
    let k = flush(st).segs.len() as int;
    let h = (SegKind::Heading, trim_end(ls[j]));
    assert(run(t1).segs[k] == h);
    lemma_run_keeps(ls, j + 1);
    lemma_flush_keeps(run(ls));
    lemma_keeps_trans(run(t1).segs, run(ls).segs, flush(run(ls)).segs);
    let raw = flush(run(ls)).segs;
    assert(raw[k] == h);
    assert(retag(raw[k]) == h);
    assert(split_spec(md)[k] == h);
}

proof fn lemma_starts_first(t: Seq<char>, p: Seq<char>)
    requires
        p.len() > 0,
        starts_with(t, p),
    ensures
        t.len() > 0,
        t[0] == p[0],
{
    assert(t.subrange(0, p.len() as int)[0] == t[0]);
}

/// A caption line starts with neither a fence, a heading mark nor a table.
proof fn lemma_caption_not_other(t: Seq<char>)
    requires
        is_caption_start(t),
    ensures
        t.len() > 0,
        !starts_with(t, "```"@),
        !starts_with(t, "#"@),
        !starts_with(t, "|"@),
        !starts_with(t, "<table"@),
{
    reveal_strlit("![");
    reveal_strlit("**Figure");
    reveal_strlit("**图");
    reveal_strlit("```");
    reveal_strlit("#");
    reveal_strlit("|");
    reveal_strlit("<table");
    if starts_with(t, "!["@) {
        lemma_starts_first(t, "!["@);
    } else if starts_with(t, "**Figure"@) {
        lemma_starts_first(t, "**Figure"@);
    } else {
        lemma_starts_first(t, "**图"@);
    }
    if starts_with(t, "```"@) {
        lemma_starts_first(t, "```"@);
    }
    if starts_with(t, "#"@) {
        lemma_starts_first(t, "#"@);
    }
    if starts_with(t, "|"@) {
        lemma_starts_first(t, "|"@);
    }
    if starts_with(t, "<table"@) {
        lemma_starts_first(t, "<table"@);
    }
}

/// Law: outside a code block, a line whose trimmed text starts with `![`,
/// `**Figure` or `**图` is an image-caption segment of its own, the line
/// without trailing white space: the text gathered before it is emitted
/// first and nothing is left over.
pub proof fn law_caption_line(st: SplitState, line: Seq<char>)
    requires
        !st.in_code,
        is_caption_start(trim(line)),
    ensures
        step(st, line).segs == flush(st).segs.push((SegKind::ImageCaption, trim_end(line))),
        step(st, line).buf.len() == 0,
{
    let t = trim(line);
    lemma_caption_not_other(t);
    let buf = line.push('\n');
    assert(is_ws('\n'));
    assert(buf.subrange(0, buf.len() - 1) =~= line);
    assert(trim_end(buf) == trim_end(line));
    if trim_end(line).len() == 0 {
        lemma_trim_end_empty(line);
        lemma_all_ws_trim_start(line);
        assert(trim_start(line).len() == 0);
        assert(trim(line).len() == 0);
    }
    let s1 = add_line(with_kind(flush(st), SegKind::ImageCaption), line);
    assert(s1.buf =~= buf);
}

/// Law: every caption line of `md` outside a code block appears in the
/// segmentation as an image-caption segment of its own, the line without
/// trailing white space, and the segments before it are those of the text
/// before it.
pub proof fn law_caption_lines_are_segments(md: Seq<char>, j: int)
    requires
        0 <= j < lines(md).len(),
        !run(lines(md).take(j)).in_code,
        is_caption_start(trim(lines(md)[j])),
    ensures
        exists|k: int|
            0 <= k < split_spec(md).len() && #[trigger] split_spec(md)[k] == (
                SegKind::ImageCaption,
                trim_end(lines(md)[j]),
            ),
{
    let ls = lines(md);
    let st = run(ls.take(j));
    let t1 = ls.take(j + 1);
    assert(t1.drop_last() =~= ls.take(j));
    assert(t1.last() == ls[j]);
    assert(run(t1) == step(st, ls[j]));
    law_caption_line(st, ls[j]);
    let k = flush(st).segs.len() as int;
    let h = (SegKind::ImageCaption, trim_end(ls[j]));
    assert(run(t1).segs[k] == h);
    lemma_run_keeps(ls, j + 1);
    lemma_flush_keeps(run(ls));
    lemma_keeps_trans(run(t1).segs, run(ls).segs, flush(run(ls)).segs);
    let raw = flush(run(ls)).segs;
    assert(raw[k] == h);
    assert(retag(raw[k]) == h);
    assert(split_spec(md)[k] == h);
}

} // verus!
