//! The document library's own rules: reading title and authors off the
//! parsed Markdown, the paper's language, the signals for paradigm
//! recognition, import checks, key masking, the `.env` fallback for the
//! service key, and the pairing of original and translated segments.
use vstd::prelude::*;
use crate::error_code::{coded, err, IMPORT_INVALID, INTERNAL_ERR};
use crate::json::{
    json_object_strings, json_pointer_node, json_string_object, member_views, node_at,
    object_strings_at, str_at, str_at_v, string_object_text, string_pair_views, JsonKind,
};
use crate::paradigm::{str_views, InputView, ParadigmInput};
use crate::notes::match_count;
use crate::rank::{first_n, first_n_v};
use crate::segment::{kind_name, split_markdown, split_pairs, split_spec, SegKind, Segment};
use crate::text::{
    append_v, chars_of, find_v, lemma_find_from_props, contains, contains_v, decimal, decimal_v, eq_v, is_digit, join, join_v, lines, lines_v,
    push_chars, slice_v, split_char, split_char_v, starts_with, starts_with_v, string_of, to_lowercase,
    trim, trim_end_char, trim_end_char_v, trim_start_char, trim_start_char_v, trim_start_str,
    trim_start_str_v, trim_v, unicode_lower, utf8_len, utf8_len_lt, views,
};

verus! {

// ---------------------------------------------------------------------------
// Title and authors
// ---------------------------------------------------------------------------

/// The title: the first line that starts with `#` (after trimming), without
/// its `#` marks, if it is not empty and at most 200 bytes long.
pub open spec fn title_from(ls: Seq<Seq<char>>) -> Option<Seq<char>>
    decreases ls.len(),
{
    if ls.len() == 0 {
        None
    } else if starts_with(trim(ls[0]), "#"@) {
        let t = trim(trim_start_char(trim(ls[0]), '#'));
        if t.len() > 0 && utf8_len(t) <= 200 {
            Some(t)
        } else {
            None
        }
    } else {
        title_from(ls.drop_first())
    }
}

/// Scan state: authors so far, whether the title was passed, whether the
/// scan stopped.
pub struct AuthorScan {
    pub authors: Seq<Seq<char>>,
    pub past_title: bool,
    pub stopped: bool,
}

/// The text before the first comma of a line.
pub open spec fn before_comma(l: Seq<char>) -> Seq<char> {
    split_char(l, ',')[0]
}

/// One line of the author scan: the short lines after the title and before
/// the first long line (an abstract), up to a blank line after some author
/// or five authors; each contributes the part before its first comma once.
pub open spec fn author_step(st: AuthorScan, line: Seq<char>) -> AuthorScan {
    let l = trim(line);
    if st.stopped {
        st
    } else if l.len() == 0 {
        if st.authors.len() > 0 {
            AuthorScan { stopped: true, ..st }
        } else {
            st
        }
    } else if starts_with(l, "#"@) {
        AuthorScan { past_title: true, ..st }
    } else if !st.past_title {
        st
    } else if utf8_len(l) > 120 {
        AuthorScan { stopped: true, ..st }
    } else {
        let name = trim(before_comma(l));
        if name.len() > 0 && utf8_len(name) <= 60 && !st.authors.contains(name) && !contains(
            name,
            "https://"@,
        ) {
            let a = st.authors.push(name);
            AuthorScan { authors: a, past_title: st.past_title, stopped: a.len() >= 5 }
        } else {
            st
        }
    }
}

pub open spec fn author_scan(ls: Seq<Seq<char>>) -> AuthorScan
    decreases ls.len(),
{
    if ls.len() == 0 {
        AuthorScan { authors: Seq::empty(), past_title: false, stopped: false }
    } else {
        author_step(author_scan(ls.drop_last()), ls.last())
    }
}

/// Title and authors (joined by ", ") read off parsed Markdown.
pub open spec fn title_and_authors(md: Seq<char>) -> (Option<Seq<char>>, Option<Seq<char>>) {
    let a = author_scan(lines(md)).authors;
    (title_from(lines(md)), if a.len() == 0 {
        None
    } else {
        Some(join(a, ", "@))
    })
}

fn seq_in(r: &Vec<Vec<char>>, t: &Vec<char>) -> (b: bool)
    ensures
        b == views(r@).contains(t@),
{
    let mut k: usize = 0;
    while k < r.len()
        invariant
            k <= r.len(),
            forall|j: int| 0 <= j < k ==> views(r@)[j] != t@,
        decreases r.len() - k,
    {
        if eq_v(&r[k], t) {
            assert(views(r@)[k as int] == t@);
            return true;
        }
        k += 1;
    }
    false
}

pub fn extract_title_and_authors(md: &str) -> (r: (Option<String>, Option<String>))
    ensures
        match r.0 {
            Some(t) => title_and_authors(md@).0 == Some(t@),
            None => title_and_authors(md@).0 is None,
        },
        match r.1 {
            Some(a) => title_and_authors(md@).1 == Some(a@),
            None => title_and_authors(md@).1 is None,
        },
{
    let ls = lines_v(&chars_of(md));
    let ghost lsv = views(ls@);
    // title
    let mut title: Option<String> = None;
    let mut i: usize = 0;
    assert(lsv.skip(0) =~= lsv);
    while i < ls.len()
        invariant_except_break
            i <= ls.len(),
            lsv == views(ls@),
            title is None,
            title_from(lsv) == title_from(lsv.skip(i as int)),
        ensures
            match title {
                Some(t) => title_from(lsv) == Some(t@),
                None => title_from(lsv) is None,
            },
        decreases ls.len() - i,
    {
        proof {
            let t = lsv.skip(i as int);
            assert(t.drop_first() =~= lsv.skip(i + 1));
            assert(t[0] == ls@[i as int]@);
        }
        let l = trim_v(&ls[i]);
        if starts_with_v(&l, &chars_of("#")) {
            let t = trim_v(&trim_start_char_v(&l, '#'));
            if t.len() > 0 && utf8_len_lt(&t, 201) {
                title = Some(string_of(&t));
            }
            break;
        }
        i += 1;
    }
    // authors
    let mut authors: Vec<Vec<char>> = Vec::new();
    let mut past_title = false;
    let mut stopped = false;
    let mut j: usize = 0;
    while j < ls.len()
        invariant
            j <= ls.len(),
            lsv == views(ls@),
            ({
                let st = author_scan(lsv.take(j as int));
                &&& views(authors@) == st.authors
                &&& past_title == st.past_title
                &&& stopped == st.stopped
            }),
        decreases ls.len() - j,
    {
        proof {
            let t = lsv.take(j + 1);
            assert(t.drop_last() =~= lsv.take(j as int));
            assert(t.last() == ls@[j as int]@);
        }
        if !stopped {
            let l = trim_v(&ls[j]);
            if l.len() == 0 {
                if authors.len() > 0 {
                    stopped = true;
                }
            } else if starts_with_v(&l, &chars_of("#")) {
                past_title = true;
            } else if past_title {
                if !utf8_len_lt(&l, 121) {
                    stopped = true;
                } else {
                    let pieces = split_char_v(&l, ',');
                    proof {
                        crate::text::lemma_split_char_nonempty(l@, ',');
                    }
                    let name = trim_v(&pieces[0]);
                    if name.len() > 0 && utf8_len_lt(&name, 61) && !seq_in(&authors, &name) && !contains_v(
                        &name,
                        &chars_of("https://"),
                    ) {
                        let ghost before = views(authors@);
                        authors.push(name);
                        assert(views(authors@) =~= before.push(name@));
                        if authors.len() >= 5 {
                            stopped = true;
                        }
                    }
                }
            }
        }
        j += 1;
    }
    assert(lsv.take(ls.len() as int) =~= lsv);
    let a = if authors.len() == 0 {
        None
    } else {
        Some(string_of(&join_v(&authors, &chars_of(", "))))
    };
    (title, a)
}

// ---------------------------------------------------------------------------
// Language
// ---------------------------------------------------------------------------

/// What whatlang detects in a text: the ISO 639-3 code of the language and
/// whether the detection is reliable (`None` when it detects nothing).
pub uninterp spec fn whatlang_detection(text: Seq<char>) -> Option<(Seq<char>, bool)>;

/// `whatlang::detect`, read as the language code (`Lang::code`) and
/// `Info::is_reliable`. The contract names the result; it states nothing of
/// how whatlang decides.
#[verifier::external_body]
fn detect_language(text: &str) -> (r: Option<(String, bool)>)
    ensures
        match r {
            Some((code, reliable)) => whatlang_detection(text@) == Some((code@, reliable)),
            None => whatlang_detection(text@) is None,
        },
{
    whatlang::detect(text).map(|info| (info.lang().code().to_string(), info.is_reliable()))
}

/// The paper's main language from a reliable detection: 中文 for Mandarin,
/// 英文 for English, 其他 otherwise.
pub open spec fn language_of(d: Option<(Seq<char>, bool)>) -> Seq<char> {
    match d {
        Some((code, reliable)) => if reliable && code == "cmn"@ {
            "中文"@
        } else if reliable && code == "eng"@ {
            "英文"@
        } else {
            "其他"@
        },
        None => "其他"@,
    }
}

pub fn detect_paper_language(text: &str) -> (r: String)
    ensures
        r@ == language_of(whatlang_detection(text@)),
{
    language_of_detection(detect_language(text))
}

/// The paper's main language from what whatlang detected: the language code
/// and whether the detection is reliable.
pub fn language_of_detection(d: Option<(String, bool)>) -> (r: String)
    ensures
        r@ == language_of(
            match d {
                Some((code, reliable)) => Some((code@, reliable)),
                None => None,
            },
        ),
{
    let mut out = String::new();
    match d {
        Some((code, reliable)) => {
            let c = chars_of(code.as_str());
            if reliable && eq_v(&c, &chars_of("cmn")) {
                out.append("中文");
            } else if reliable && eq_v(&c, &chars_of("eng")) {
                out.append("英文");
            } else {
                out.append("其他");
            }
        },
        None => out.append("其他"),
    }
    out
}

// ---------------------------------------------------------------------------
// Import checks
// ---------------------------------------------------------------------------

/// Only files with the extension `pdf` (any case) are imported.
pub fn check_extension(ext: &str) -> (r: Result<(), String>)
    ensures
        unicode_lower(ext@) == "pdf"@ <==> r is Ok,
        r matches Err(m) ==> m@ == coded(IMPORT_INVALID@, "仅支持 PDF 文件"@),
{
    let low = to_lowercase(ext);
    if eq_v(&chars_of(low.as_str()), &chars_of("pdf")) {
        Ok(())
    } else {
        Err(err(IMPORT_INVALID, "仅支持 PDF 文件"))
    }
}

/// The file starts with the PDF signature `%PDF-`.
pub open spec fn pdf_signature(head: Seq<u8>) -> bool {
    head.len() >= 5 && head[0] == 0x25u8 && head[1] == 0x50u8 && head[2] == 0x44u8 && head[3]
        == 0x46u8 && head[4] == 0x2du8
}

/// A damaged file (no PDF signature) is refused.
pub fn check_signature(head: &[u8]) -> (r: Result<(), String>)
    ensures
        pdf_signature(head@) <==> r is Ok,
        r matches Err(m) ==> m@ == coded(IMPORT_INVALID@, "文件损坏：不是有效的 PDF"@),
{
    if head.len() >= 5 && head[0] == 0x25u8 && head[1] == 0x50u8 && head[2] == 0x44u8 && head[3]
        == 0x46u8 && head[4] == 0x2du8 {
        Ok(())
    } else {
        Err(err(IMPORT_INVALID, "文件损坏：不是有效的 PDF"))
    }
}

/// The document has been parsed (possibly translated or digested since).
pub open spec fn parsed_status(status: Seq<char>) -> bool {
    status == "parsed"@ || status == "translated"@ || status == "digested"@
}

pub fn is_parsed_status(status: &str) -> (r: bool)
    ensures
        r == parsed_status(status@),
{
    let s = chars_of(status);
    eq_v(&s, &chars_of("parsed")) || eq_v(&s, &chars_of("translated")) || eq_v(&s, &chars_of("digested"))
}

// ---------------------------------------------------------------------------
// Keys
// ---------------------------------------------------------------------------

/// `n` bytes of `s` end on a character boundary after `j` characters.
pub open spec fn boundary_at(s: Seq<char>, j: int, n: nat) -> bool {
    0 <= j <= s.len() && utf8_len(s.take(j)) == n
}

/// A key shown masked: `***` for short keys, otherwise its first six bytes
/// and `***`.
pub fn mask_key(k: &str) -> (r: String)
    requires
        k@.len() > 8 ==> exists|j: int| boundary_at(k@, j, 6),
    ensures
        k@.len() <= 8 ==> r@ == "***"@,
        k@.len() > 8 ==> exists|j: int| boundary_at(k@, j, 6) && r@ == k@.take(j) + "***"@,
{
    let v = chars_of(k);
    let mut out = String::new();
    if v.len() <= 8 {
        out.append("***");
        return out;
    }
    let mut j: usize = 0;
    let mut bytes: usize = 0;
    while bytes < 6 && j < v.len()
        invariant
            j <= v.len(),
            bytes == utf8_len(v@.take(j as int)),
            bytes <= 6 ==> true,
            exists|m: int| boundary_at(v@, m, 6),
            forall|m: int| boundary_at(v@, m, 6) ==> j <= m,
        decreases v.len() - j,
    {
        proof {
            assert(v@.take(j + 1).drop_last() =~= v@.take(j as int));
            crate::text::lemma_utf8_len_bounds(v@.take(j + 1));
        }
        let c = v[j];
        let w: usize = if (c as u32) < 0x80 {
            1
        } else if (c as u32) < 0x800 {
            2
        } else if (c as u32) < 0x10000 {
            3
        } else {
            4
        };
        assert(w == crate::text::char_width(c));
        bytes = bytes + w;
        j += 1;
        proof {
            assert forall|m: int| boundary_at(v@, m, 6) implies j <= m by {
                if m < j {
                    lemma_utf8_mono(v@, m, (j - 1) as int);
                }
            }
        }
    }
    proof {
        let m = choose|m: int| boundary_at(v@, m, 6);
        if j < m {
            lemma_utf8_mono(v@, j as int, m - 1);
        }
        assert(bytes == 6);
        assert(boundary_at(v@, j as int, 6));
    }
    let head = slice_v(&v, 0, j);
    assert(head@ =~= v@.take(j as int));
    push_chars(&mut out, &head);
    out.append("***");
    out
}

proof fn lemma_utf8_mono(s: Seq<char>, a: int, b: int)
    requires
        0 <= a <= b < s.len(),
    ensures
        utf8_len(s.take(a)) < utf8_len(s.take(b + 1)),
    decreases b - a,
{
    assert(s.take(b + 1).drop_last() =~= s.take(b));
    crate::text::lemma_utf8_len_bounds(s.take(b + 1));
    if a < b {
        lemma_utf8_mono(s, a, b - 1);
    }
}

/// The value of a `MINERU_API_KEY=` line of a `.env` file: the first such
/// line whose value (trimmed, without surrounding quotes) is not empty.
pub open spec fn env_key_from(ls: Seq<Seq<char>>) -> Option<Seq<char>>
    decreases ls.len(),
{
    if ls.len() == 0 {
        None
    } else {
        let l = trim(ls[0]);
        let p = "MINERU_API_KEY="@;
        if starts_with(l, p) {
            let v = unquoted(trim(l.skip(p.len() as int)));
            if v.len() > 0 {
                Some(v)
            } else {
                env_key_from(ls.drop_first())
            }
        } else {
            env_key_from(ls.drop_first())
        }
    }
}

/// `trim_matches('"')` then `trim_matches('\'')`.
pub open spec fn unquoted(v: Seq<char>) -> Seq<char> {
    trim_end_char(trim_start_char(trim_end_char(trim_start_char(v, '"'), '"'), '\''), '\'')
}

/// The service key from the content of a `.env` file, if it holds one.
pub fn env_key(content: &str) -> (r: Option<String>)
    ensures
        match r {
            Some(k) => env_key_from(lines(content@)) == Some(k@),
            None => env_key_from(lines(content@)) is None,
        },
{
    let ls = lines_v(&chars_of(content));
    let ghost lsv = views(ls@);
    let prefix = chars_of("MINERU_API_KEY=");
    let mut i: usize = 0;
    assert(lsv.skip(0) =~= lsv);
    while i < ls.len()
        invariant
            i <= ls.len(),
            lsv == views(ls@),
            lsv == lines(content@),
            prefix@ == "MINERU_API_KEY="@,
            env_key_from(lsv) == env_key_from(lsv.skip(i as int)),
        decreases ls.len() - i,
    {
        proof {
            let t = lsv.skip(i as int);
            assert(t.drop_first() =~= lsv.skip(i + 1));
            assert(t[0] == ls@[i as int]@);
        }
        let l = trim_v(&ls[i]);
        if starts_with_v(&l, &prefix) {
            let rest = slice_v(&l, prefix.len(), l.len());
            assert(rest@ =~= l@.skip(prefix@.len() as int));
            let v = trim_end_char_v(
                &trim_start_char_v(&trim_end_char_v(&trim_start_char_v(&trim_v(&rest), '"'), '"'), '\''),
                '\'',
            );
            if v.len() > 0 {
                return Some(string_of(&v));
            }
        }
        i += 1;
    }
    None
}

// ---------------------------------------------------------------------------
// Recognition signals of a parsed paper
// ---------------------------------------------------------------------------

/// Headings (without `#` marks, empty ones dropped), paragraphs, tables and
/// figure captions of the segmented paper.
pub struct SegSignals {
    pub headings: Seq<Seq<char>>,
    pub paragraphs: Seq<Seq<char>>,
    pub tables: nat,
    pub captions: nat,
}

pub open spec fn seg_signals(segs: Seq<(SegKind, Seq<char>)>) -> SegSignals
    decreases segs.len(),
{
    if segs.len() == 0 {
        SegSignals { headings: Seq::empty(), paragraphs: Seq::empty(), tables: 0, captions: 0 }
    } else {
        let r = seg_signals(segs.drop_last());
        let (k, c) = segs.last();
        if k == SegKind::Heading {
            let h = trim(trim_start_char(c, '#'));
            if h.len() > 0 {
                SegSignals { headings: r.headings.push(h), ..r }
            } else {
                r
            }
        } else if k == SegKind::Table {
            SegSignals { tables: r.tables + 1, ..r }
        } else if k == SegKind::ImageCaption {
            SegSignals { captions: r.captions + 1, ..r }
        } else if k == SegKind::Paragraph {
            SegSignals { paragraphs: r.paragraphs.push(c), ..r }
        } else {
            r
        }
    }
}

/// The text after the first `:` or `：` of `t`, if it has one.
pub open spec fn after_first_colon(t: Seq<char>) -> Option<Seq<char>>
    decreases t.len(),
{
    if t.len() == 0 {
        None
    } else if t[0] == ':' || t[0] == '：' {
        Some(t.skip(1))
    } else {
        after_first_colon(t.skip(1))
    }
}

/// `t` after its first `:` or `：`, or all of `t` without one.
pub open spec fn after_colon(t: Seq<char>) -> Seq<char> {
    match after_first_colon(t) {
        Some(b) => b,
        None => t,
    }
}

/// The keyword list a line announces ("Keywords:", "Key words:", "关键词："),
/// if it is not empty and shorter than 400 bytes.
pub open spec fn keyword_candidate(line: Seq<char>) -> Option<Seq<char>> {
    let t = trim(trim_start_str(trim(line), "**"@));
    let low = unicode_lower(t);
    if starts_with(low, "keywords"@) || starts_with(low, "关键词"@) || starts_with(low, "key words"@) {
        let b = trim(after_colon(t));
        if b.len() > 0 && utf8_len(b) < 400 {
            Some(b)
        } else {
            None
        }
    } else {
        None
    }
}

/// The first keyword list among the lines (empty if none).
pub open spec fn keyword_line(ls: Seq<Seq<char>>) -> Seq<char>
    decreases ls.len(),
{
    if ls.len() == 0 {
        Seq::empty()
    } else {
        match keyword_candidate(ls[0]) {
            Some(k) => k,
            None => keyword_line(ls.drop_first()),
        }
    }
}

/// Number of occurrences of `c` in `s`.
pub open spec fn char_count(s: Seq<char>, c: char) -> nat
    decreases s.len(),
{
    if s.len() == 0 {
        0
    } else {
        char_count(s.drop_last(), c) + if s.last() == c {
            1nat
        } else {
            0nat
        }
    }
}

/// The recognition signals of a paper with stored title `db_title` and
/// parsed Markdown `md`: headings and counts from the segments (images also
/// counted by `![`), the abstract as the first three paragraphs plus the
/// keyword list, a body sample of the first fourteen paragraphs (at most
/// 6000 characters), and the first heading as title when none is stored.
pub open spec fn recognition_input(db_title: Seq<char>, md: Seq<char>) -> InputView {
    let sg = seg_signals(split_spec(md));
    let kw = keyword_line(lines(md));
    let refs = match_count(md, "!["@, 0);
    InputView {
        title: if trim(db_title).len() == 0 || db_title == "未命名"@ {
            if sg.headings.len() > 0 {
                sg.headings[0]
            } else {
                Seq::empty()
            }
        } else {
            db_title
        },
        abstract_text: join(first_n(sg.paragraphs, 3), " "@) + if kw.len() > 0 {
            " 关键词："@ + kw
        } else {
            Seq::empty()
        },
        headings: sg.headings,
        body_sample: first_n(join(first_n(sg.paragraphs, 14), " "@), 6000),
        keywords: kw,
        table_count: sg.tables,
        image_count: if refs > sg.captions {
            refs
        } else {
            sg.captions
        },
        math_symbols: char_count(md, '$'),
    }
}

fn after_colon_v(t: &Vec<char>) -> (r: Vec<char>)
    ensures
        r@ == after_colon(t@),
{
    let mut i: usize = 0;
    assert(t@.skip(0) =~= t@);
    while i < t.len()
        invariant
            i <= t.len(),
            after_first_colon(t@) == after_first_colon(t@.skip(i as int)),
        decreases t.len() - i,
    {
        proof {
            assert(t@.skip(i as int).skip(1) =~= t@.skip(i + 1));
        }
        if t[i] == ':' || t[i] == '：' {
            let r = slice_v(t, i + 1, t.len());
            assert(r@ =~= t@.skip(i + 1));
            return r;
        }
        i += 1;
    }
    let r = slice_v(t, 0, t.len());
    assert(r@ =~= t@);
    r
}

fn keyword_line_v(ls: &Vec<Vec<char>>) -> (r: Vec<char>)
    ensures
        r@ == keyword_line(views(ls@)),
{
    let ghost lsv = views(ls@);
    let mut i: usize = 0;
    assert(lsv.skip(0) =~= lsv);
    while i < ls.len()
        invariant
            i <= ls.len(),
            lsv == views(ls@),
            keyword_line(lsv) == keyword_line(lsv.skip(i as int)),
        decreases ls.len() - i,
    {
        proof {
            let t = lsv.skip(i as int);
            assert(t.drop_first() =~= lsv.skip(i + 1));
            assert(t[0] == ls@[i as int]@);
        }
        let t = trim_v(&trim_start_str_v(&trim_v(&ls[i]), &chars_of("**")));
        let low = chars_of(to_lowercase(string_of(&t).as_str()).as_str());
        if starts_with_v(&low, &chars_of("keywords")) || starts_with_v(&low, &chars_of("关键词"))
            || starts_with_v(&low, &chars_of("key words")) {
            let b = trim_v(&after_colon_v(&t));
            if b.len() > 0 && utf8_len_lt(&b, 400) {
                return b;
            }
        }
        i += 1;
    }
    Vec::new()
}

fn count_occurrences(s: &Vec<char>, p: &Vec<char>) -> (r: usize)
    requires
        p.len() > 0,
    ensures
        r == match_count(s@, p@, 0),
{
    let mut count: usize = 0;
    let mut start: usize = 0;
    loop
        invariant
            start <= s.len(),
            p.len() > 0,
            count <= start,
            count + match_count(s@, p@, start as int) == match_count(s@, p@, 0),
        decreases s.len() + 1 - start,
    {
        proof {
            lemma_find_from_props(s@, p@, start as int);
        }
        match find_v(s, p, start) {
            None => {
                return count;
            },
            Some(i) => {
                count += 1;
                start = i + p.len();
            },
        }
    }
}

fn join_first(paras: &Vec<Vec<char>>, n: usize) -> (r: Vec<char>)
    ensures
        r@ == join(first_n(views(paras@), n as int), " "@),
{
    let mut top: Vec<Vec<char>> = Vec::new();
    let mut i: usize = 0;
    while i < paras.len() && i < n
        invariant
            i <= paras.len(),
            i <= n,
            views(top@) == views(paras@).take(i as int),
        decreases paras.len() - i,
    {
        let ghost before = views(top@);
        top.push(slice_v(&paras[i], 0, paras[i].len()));
        proof {
            assert(paras@[i as int]@.subrange(0, paras@[i as int]@.len() as int) =~= paras@[i as int]@);
            assert(views(top@) =~= before.push(paras@[i as int]@));
            assert(views(paras@).take(i + 1) =~= views(paras@).take(i as int).push(paras@[i as int]@));
        }
        i += 1;
    }
    proof {
        if paras.len() <= n {
            assert(views(paras@).take(paras.len() as int) =~= views(paras@));
        }
        assert(views(top@) =~= first_n(views(paras@), n as int));
    }
    join_v(&top, &chars_of(" "))
}

/// Gather the recognition signals of a parsed paper.
pub fn paradigm_input_from(db_title: &str, md: &str) -> (r: ParadigmInput)
    ensures
        r@ == recognition_input(db_title@, md@),
{
    let pairs = split_pairs(md);
    let ghost segs = split_spec(md@);
    let mut headings: Vec<Vec<char>> = Vec::new();
    let mut paragraphs: Vec<Vec<char>> = Vec::new();
    let mut tables: usize = 0;
    let mut captions: usize = 0;
    let mut i: usize = 0;
    while i < pairs.len()
        invariant
            i <= pairs.len(),
            crate::segment::seg_views(pairs@) == segs,
            ({
                let sg = seg_signals(segs.take(i as int));
                &&& views(headings@) == sg.headings
                &&& views(paragraphs@) == sg.paragraphs
                &&& tables == sg.tables
                &&& captions == sg.captions
            }),
            tables <= i,
            captions <= i,
        decreases pairs.len() - i,
    {
        proof {
            let t = segs.take(i + 1);
            assert(t.drop_last() =~= segs.take(i as int));
            assert(t.last() == segs[i as int]);
            assert(segs[i as int] == (pairs@[i as int].0, pairs@[i as int].1@));
        }
        let kind = pairs[i].0;
        if kind == SegKind::Heading {
            let h = trim_v(&trim_start_char_v(&pairs[i].1, '#'));
            if h.len() > 0 {
                let ghost before = views(headings@);
                headings.push(h);
                assert(views(headings@) =~= before.push(h@));
            }
        } else if kind == SegKind::Table {
            tables += 1;
        } else if kind == SegKind::ImageCaption {
            captions += 1;
        } else if kind == SegKind::Paragraph {
            let ghost before = views(paragraphs@);
            let c = slice_v(&pairs[i].1, 0, pairs[i].1.len());
            assert(c@ =~= pairs@[i as int].1@);
            paragraphs.push(c);
            assert(views(paragraphs@) =~= before.push(pairs@[i as int].1@));
        }
        i += 1;
    }
    assert(segs.take(pairs.len() as int) =~= segs);
    let mdv = chars_of(md);
    let kw = keyword_line_v(&lines_v(&mdv));
    let bang = chars_of("![");
    proof {
        reveal_strlit("![");
    }
    assert(bang@.len() == 2);
    let refs = count_occurrences(&mdv, &bang);
    let mut dollars: usize = 0;
    let mut k: usize = 0;
    while k < mdv.len()
        invariant
            k <= mdv.len(),
            dollars <= k,
            dollars == char_count(mdv@.take(k as int), '$'),
        decreases mdv.len() - k,
    {
        proof {
            assert(mdv@.take(k + 1).drop_last() =~= mdv@.take(k as int));
        }
        if mdv[k] == '$' {
            dollars += 1;
        }
        k += 1;
    }
    assert(mdv@.take(mdv.len() as int) =~= mdv@);
    let mut abs = join_first(&paragraphs, 3);
    if kw.len() > 0 {
        crate::text::append_str(&mut abs, " 关键词：");
        append_v(&mut abs, &kw);
    }
    let body_all = join_first(&paragraphs, 14);
    let body = first_n_v(&body_all, 6000);
    let dbv = chars_of(db_title);
    let title = if trim_v(&dbv).len() == 0 || eq_v(&dbv, &chars_of("未命名")) {
        if headings.len() > 0 {
            string_of(&headings[0])
        } else {
            String::new()
        }
    } else {
        string_of(&dbv)
    };
    let mut hs: Vec<String> = Vec::new();
    let mut j: usize = 0;
    while j < headings.len()
        invariant
            j <= headings.len(),
            str_views(hs@) == views(headings@).take(j as int),
        decreases headings.len() - j,
    {
        let ghost before = str_views(hs@);
        hs.push(string_of(&headings[j]));
        proof {
            assert(str_views(hs@) =~= before.push(headings@[j as int]@));
            assert(views(headings@).take(j + 1) =~= views(headings@).take(j as int).push(headings@[j as int]@));
        }
        j += 1;
    }
    assert(views(headings@).take(headings.len() as int) =~= views(headings@));
    let r = ParadigmInput {
        title,
        abstract_text: string_of(&abs),
        headings: hs,
        body_sample: string_of(&body),
        keywords: string_of(&kw),
        table_count: tables,
        image_count: if refs > captions {
            refs
        } else {
            captions
        },
        math_symbols: dollars,
    };
    proof {
        let want = recognition_input(db_title@, md@);
        assert(r@.headings == want.headings);
        assert(r@.abstract_text == want.abstract_text);
        assert(r@.body_sample == want.body_sample);
        assert(r@.title == want.title);
    }
    r
}

/// The language of a parsed paper, judged from its first 2000 characters.
pub fn paper_language(content: &str) -> (r: String)
    ensures
        r@ == language_of(whatlang_detection(first_n(content@, 2000))),
{
    let v = chars_of(content);
    let head = first_n_v(&v, 2000);
    detect_paper_language(string_of(&head).as_str())
}

// ---------------------------------------------------------------------------
// Translation results
// ---------------------------------------------------------------------------

/// One segment beside its translation.
#[derive(Clone, Debug)]
pub struct BilingualSegment {
    pub index: usize,
    pub kind: String,
    pub original: String,
    /// Empty while the segment is not translated yet.
    pub translated: String,
}

pub struct BilingualView {
    pub index: nat,
    pub kind: Seq<char>,
    pub original: Seq<char>,
    pub translated: Seq<char>,
}

pub open spec fn bilingual_views(v: Seq<BilingualSegment>) -> Seq<BilingualView> {
    v.map_values(|b: BilingualSegment| BilingualView { index: b.index as nat, kind: b.kind@, original: b.original@, translated: b.translated@ })
}

/// The stored translation of segment `i`: the string member named by its
/// index (empty when there is none).
pub open spec fn stored_translation(json: Seq<char>, i: nat) -> Seq<char> {
    match str_at(json, "/"@ + decimal(i)) {
        Some(t) => t,
        None => Seq::empty(),
    }
}

/// Each segment of the paper with its stored translation; the stored
/// translations must form a JSON object.
pub open spec fn bilingual(md: Seq<char>, json: Seq<char>) -> Result<Seq<BilingualView>, Seq<char>> {
    if json_pointer_node(json, Seq::empty()).0 != JsonKind::Object {
        Err("译文数据格式错误"@)
    } else {
        Ok(Seq::new(split_spec(md).len(), |i: int| BilingualView {
            index: i as nat,
            kind: kind_name(split_spec(md)[i].0),
            original: split_spec(md)[i].1,
            translated: stored_translation(json, i as nat),
        }))
    }
}

pub fn bilingual_pairs(md: &str, translations: &str) -> (r: Result<Vec<BilingualSegment>, String>)
    ensures
        match r {
            Ok(v) => bilingual(md@, translations@) matches Ok(w) && bilingual_views(v@) == w,
            Err(m) => bilingual(md@, translations@) == Err::<Seq<BilingualView>, Seq<char>>(m@),
        },
{
    let e: Vec<char> = Vec::new();
    let top = node_at(translations, &e);
    if top.kind != JsonKind::Object {
        let mut m = String::new();
        m.append("译文数据格式错误");
        return Err(m);
    }
    let segs = split_markdown(md);
    let mut out: Vec<BilingualSegment> = Vec::new();
    let mut i: usize = 0;
    while i < segs.len()
        invariant
            i <= segs.len(),
            segs.len() == split_spec(md@).len(),
            forall|k: int|
                0 <= k < segs.len() ==> {
                    &&& (#[trigger] segs[k]).index == k
                    &&& segs[k].kind@ == kind_name(split_spec(md@)[k].0)
                    &&& segs[k].content@ == split_spec(md@)[k].1
                },
            out.len() == i,
            forall|k: int|
                0 <= k < i ==> #[trigger] bilingual_views(out@)[k] == (BilingualView {
                    index: k as nat,
                    kind: kind_name(split_spec(md@)[k].0),
                    original: split_spec(md@)[k].1,
                    translated: stored_translation(translations@, k as nat),
                }),
        decreases segs.len() - i,
    {
        let mut p: Vec<char> = Vec::new();
        p.push('/');
        append_v(&mut p, &decimal_v(segs[i].index as u64));
        proof {
            reveal_strlit("/");
            assert(p@ =~= "/"@ + decimal(i as nat));
        }
        let t = match str_at_v(translations, &p) {
            Some(t) => t,
            None => String::new(),
        };
        let item = BilingualSegment {
            index: segs[i].index,
            kind: segs[i].kind.clone(),
            original: segs[i].content.clone(),
            translated: t,
        };
        let ghost before = bilingual_views(out@);
        out.push(item);
        proof {
            assert(bilingual_views(out@) =~= before.push(BilingualView {
                index: i as nat,
                kind: kind_name(split_spec(md@)[i as int].0),
                original: split_spec(md@)[i as int].1,
                translated: stored_translation(translations@, i as nat),
            }));
        }
        i += 1;
    }
    assert(bilingual_views(out@) =~= Seq::new(split_spec(md@).len(), |k: int| BilingualView {
        index: k as nat,
        kind: kind_name(split_spec(md@)[k].0),
        original: split_spec(md@)[k].1,
        translated: stored_translation(translations@, k as nat),
    }));
    Ok(out)
}

/// The stored translation of segment `index`, if any (the first entry with
/// that index).
pub open spec fn done_lookup(done: Seq<(usize, String)>, index: usize) -> Option<Seq<char>>
    decreases done.len(),
{
    if done.len() == 0 {
        None
    } else if done[0].0 == index {
        Some(done[0].1@)
    } else {
        done_lookup(done.drop_first(), index)
    }
}

fn done_lookup_v(done: &Vec<(usize, String)>, index: usize) -> (r: Option<String>)
    ensures
        match r {
            Some(t) => done_lookup(done@, index) == Some(t@),
            None => done_lookup(done@, index) is None,
        },
{
    let mut k: usize = 0;
    assert(done@.skip(0) =~= done@);
    while k < done.len()
        invariant
            k <= done.len(),
            done_lookup(done@, index) == done_lookup(done@.skip(k as int), index),
        decreases done.len() - k,
    {
        proof {
            let t = done@.skip(k as int);
            assert(t.drop_first() =~= done@.skip(k + 1));
        }
        if done[k].0 == index {
            return Some(done[k].1.clone());
        }
        k += 1;
    }
    None
}

pub struct SegmentView {
    pub index: nat,
    pub kind: Seq<char>,
    pub content: Seq<char>,
}

pub open spec fn segment_views(v: Seq<Segment>) -> Seq<SegmentView> {
    v.map_values(|s: Segment| SegmentView { index: s.index as nat, kind: s.kind@, content: s.content@ })
}

/// The segments not translated yet, in order.
pub open spec fn pending(segs: Seq<Segment>, done: Seq<(usize, String)>) -> Seq<SegmentView>
    decreases segs.len(),
{
    if segs.len() == 0 {
        Seq::empty()
    } else {
        let r = pending(segs.drop_last(), done);
        let s = segs.last();
        if done_lookup(done, s.index) is None {
            r.push(SegmentView { index: s.index as nat, kind: s.kind@, content: s.content@ })
        } else {
            r
        }
    }
}

pub fn pending_segments(segs: &Vec<Segment>, done: &Vec<(usize, String)>) -> (r: Vec<Segment>)
    ensures
        segment_views(r@) == pending(segs@, done@),
{
    let mut r: Vec<Segment> = Vec::new();
    let mut i: usize = 0;
    while i < segs.len()
        invariant
            i <= segs.len(),
            segment_views(r@) == pending(segs@.take(i as int), done@),
        decreases segs.len() - i,
    {
        proof {
            let t = segs@.take(i + 1);
            assert(t.drop_last() =~= segs@.take(i as int));
        }
        if done_lookup_v(done, segs[i].index).is_none() {
            let ghost before = segment_views(r@);
            let s = Segment { index: segs[i].index, kind: segs[i].kind.clone(), content: segs[i].content.clone() };
            r.push(s);
            assert(segment_views(r@) =~= before.push(SegmentView { index: s.index as nat, kind: s.kind@, content: s.content@ }));
        }
        i += 1;
    }
    assert(segs@.take(segs.len() as int) =~= segs@);
    r
}

/// Each segment's translation, or its original when it has none.
pub open spec fn merged(segs: Seq<Segment>, done: Seq<(usize, String)>) -> Seq<Seq<char>>
    decreases segs.len(),
{
    if segs.len() == 0 {
        Seq::empty()
    } else {
        merged(segs.drop_last(), done).push(
            match done_lookup(done, segs.last().index) {
                Some(t) => t,
                None => segs.last().content@,
            },
        )
    }
}

/// The translated document: segments in their original order, joined by
/// blank lines.
pub fn assemble_translation(segs: &Vec<Segment>, done: &Vec<(usize, String)>) -> (r: String)
    ensures
        r@ == join(merged(segs@, done@), "\n\n"@),
{
    let mut parts: Vec<Vec<char>> = Vec::new();
    let mut i: usize = 0;
    while i < segs.len()
        invariant
            i <= segs.len(),
            views(parts@) == merged(segs@.take(i as int), done@),
        decreases segs.len() - i,
    {
        proof {
            let t = segs@.take(i + 1);
            assert(t.drop_last() =~= segs@.take(i as int));
        }
        let ghost before = views(parts@);
        let piece = match done_lookup_v(done, segs[i].index) {
            Some(t) => chars_of(t.as_str()),
            None => chars_of(segs[i].content.as_str()),
        };
        parts.push(piece);
        assert(views(parts@) =~= before.push(piece@));
        i += 1;
    }
    assert(segs@.take(segs.len() as int) =~= segs@);
    string_of(&join_v(&parts, &chars_of("\n\n")))
}

// ---------------------------------------------------------------------------
// The resume file of a translation
// ---------------------------------------------------------------------------

/// The value of a string of decimal digits.
pub open spec fn digits_value(d: Seq<char>) -> int
    decreases d.len(),
{
    if d.len() == 0 {
        0
    } else {
        digits_value(d.drop_last()) * 10 + (d.last() as int - 48)
    }
}

pub open spec fn all_digits(d: Seq<char>) -> bool {
    forall|i: int| 0 <= i < d.len() ==> is_digit(#[trigger] d[i])
}

/// A member key read as an index the way `str::parse::<usize>` reads it: an
/// optional `+`, then one or more ASCII digits, of value at most
/// `usize::MAX`.
pub open spec fn key_index(k: Seq<char>) -> Option<usize> {
    let d = if k.len() > 0 && k[0] == '+' {
        k.subrange(1, k.len() as int)
    } else {
        k
    };
    if d.len() > 0 && all_digits(d) && digits_value(d) <= usize::MAX {
        Some(digits_value(d) as usize)
    } else {
        None
    }
}

proof fn lemma_digits_nonneg(d: Seq<char>)
    requires
        all_digits(d),
    ensures
        digits_value(d) >= 0,
    decreases d.len(),
{
    if d.len() > 0 {
        let init = d.drop_last();
        assert forall|j: int| 0 <= j < init.len() implies is_digit(#[trigger] init[j]) by {
            assert(init[j] == d[j]);
        }
        lemma_digits_nonneg(init);
        assert(is_digit(d[d.len() - 1]));
    }
}

proof fn lemma_digits_grow(d: Seq<char>, i: int)
    requires
        all_digits(d),
        0 <= i <= d.len(),
    ensures
        0 <= digits_value(d.take(i)) <= digits_value(d),
    decreases d.len(),
{
    lemma_digits_nonneg(d);
    if i == d.len() {
        assert(d.take(i) =~= d);
    } else {
        let init = d.drop_last();
        assert forall|j: int| 0 <= j < init.len() implies is_digit(#[trigger] init[j]) by {
            assert(init[j] == d[j]);
        }
        assert(d.take(i) =~= init.take(i));
        lemma_digits_grow(init, i);
        lemma_digits_nonneg(init);
        assert(is_digit(d[d.len() - 1]));
    }
}

fn key_index_v(k: &str) -> (r: Option<usize>)
    ensures
        r == key_index(k@),
{
    let v = chars_of(k);
    let start: usize = if v.len() > 0 && v[0] == '+' {
        1
    } else {
        0
    };
    let ghost d = if v@.len() > 0 && v@[0] == '+' {
        v@.subrange(1, v@.len() as int)
    } else {
        v@
    };
    assert(d =~= v@.subrange(start as int, v@.len() as int));
    if start >= v.len() {
        return None;
    }
    let mut val: usize = 0;
    let mut i: usize = start;
    assert(d.take(0) =~= Seq::<char>::empty());
    assert(key_index(k@) == if all_digits(d) && digits_value(d) <= usize::MAX {
        Some(digits_value(d) as usize)
    } else {
        None::<usize>
    });
    while i < v.len()
        invariant
            start <= i <= v.len(),
            start < v.len(),
            key_index(k@) == if all_digits(d) && digits_value(d) <= usize::MAX {
                Some(digits_value(d) as usize)
            } else {
                None::<usize>
            },
            d =~= v@.subrange(start as int, v@.len() as int),
            all_digits(d.take(i - start)),
            val == digits_value(d.take(i - start)),
        decreases v.len() - i,
    {
        let c = v[i];
        proof {
            assert(d[i - start] == c);
        }
        if !('0' <= c && c <= '9') {
            proof {
                assert(!is_digit(d[i - start]));
            }
            return None;
        }
        let dg: usize = (c as u32 - 48) as usize;
        proof {
            let t = d.take(i - start + 1);
            assert(t.drop_last() =~= d.take(i - start));
            assert(t.last() == c);
            assert forall|j: int| 0 <= j < t.len() implies is_digit(#[trigger] t[j]) by {
                if j < t.len() - 1 {
                    assert(t[j] == d.take(i - start)[j]);
                }
            }
        }
        if val > (usize::MAX - dg) / 10 {
            proof {
                assert(val * 10 + dg > usize::MAX) by (nonlinear_arith)
                    requires
                        val > (usize::MAX - dg) / 10,
                        dg <= 9,
                ;
                let t = d.take(i - start + 1);
                assert(digits_value(t) == digits_value(d.take(i - start)) * 10 + (c as int - 48));
                if all_digits(d) {
                    lemma_digits_grow(d, i - start + 1);
                }
            }
            return None;
        }
        proof {
            assert(val * 10 + dg <= usize::MAX) by (nonlinear_arith)
                requires
                    val <= (usize::MAX - dg) / 10,
                    dg <= 9,
            ;
        }
        val = val * 10 + dg;
        i += 1;
    }
    assert(d.take(d.len() as int) =~= d);
    Some(val)
}

/// Segments translated according to the members of the resume file: each
/// member whose key reads as an index and whose value is a string, the one
/// listed last first (so that it is the one a lookup finds).
pub open spec fn resume_done(m: Seq<(Seq<char>, Option<Seq<char>>)>) -> Seq<(nat, Seq<char>)>
    decreases m.len(),
{
    if m.len() == 0 {
        Seq::empty()
    } else {
        let r = resume_done(m.drop_last());
        match (key_index(m.last().0), m.last().1) {
            (Some(i), Some(t)) => seq![(i as nat, t)] + r,
            _ => r,
        }
    }
}

pub open spec fn done_view(v: Seq<(usize, String)>) -> Seq<(nat, Seq<char>)> {
    v.map_values(|p: (usize, String)| (p.0 as nat, p.1@))
}

/// Read the resume file `text` of a translation: the segments it holds as
/// translated (none when `text` is not a JSON object).
pub fn done_from_resume(text: &str) -> (r: Vec<(usize, String)>)
    ensures
        done_view(r@) == resume_done(json_object_strings(text@)),
{
    let members = object_strings_at(text);
    let ghost mv = member_views(members@);
    let mut r: Vec<(usize, String)> = Vec::new();
    let mut i: usize = 0;
    assert(mv.take(0) =~= Seq::<(Seq<char>, Option<Seq<char>>)>::empty());
    while i < members.len()
        invariant
            i <= members.len(),
            mv == member_views(members@),
            done_view(r@) == resume_done(mv.take(i as int)),
        decreases members.len() - i,
    {
        proof {
            let t = mv.take(i + 1);
            assert(t.drop_last() =~= mv.take(i as int));
            assert(t.last() == mv[i as int]);
        }
        let idx = key_index_v(members[i].0.as_str());
        match (idx, &members[i].1) {
            (Some(k), Some(t)) => {
                let ghost before = done_view(r@);
                r.insert(0, (k, t.clone()));
                assert(done_view(r@) =~= seq![(k as nat, t@)] + before);
            },
            _ => {},
        }
        i += 1;
    }
    assert(mv.take(members.len() as int) =~= mv);
    r
}

/// The members of the resume file written for `done`: each index in
/// decimal with its translation, last entry first, so that where an index
/// repeats the entry listed first in `done` is the one kept.
pub open spec fn resume_members(done: Seq<(usize, String)>) -> Seq<(Seq<char>, Seq<char>)>
    decreases done.len(),
{
    if done.len() == 0 {
        Seq::empty()
    } else {
        seq![(decimal(done.last().0 as nat), done.last().1@)] + resume_members(done.drop_last())
    }
}

/// The resume file of a translation: a JSON object from each translated
/// segment's index to its translation.
pub fn encode_resume(done: &Vec<(usize, String)>) -> (r: String)
    ensures
        r@ == json_string_object(resume_members(done@)),
{
    let mut members: Vec<(String, String)> = Vec::new();
    let mut i: usize = 0;
    assert(done@.take(0) =~= Seq::<(usize, String)>::empty());
    while i < done.len()
        invariant
            i <= done.len(),
            string_pair_views(members@) == resume_members(done@.take(i as int)),
        decreases done.len() - i,
    {
        proof {
            let t = done@.take(i + 1);
            assert(t.drop_last() =~= done@.take(i as int));
        }
        let key = string_of(&decimal_v(done[i].0 as u64));
        let ghost before = string_pair_views(members@);
        members.insert(0, (key, done[i].1.clone()));
        assert(string_pair_views(members@) =~= seq![(key@, done@[i as int].1@)] + before);
        i += 1;
    }
    assert(done@.take(done.len() as int) =~= done@);
    string_object_text(&members)
}

/// The view of one segment.
pub open spec fn segment_view(s: Segment) -> SegmentView {
    SegmentView { index: s.index as nat, kind: s.kind@, content: s.content@ }
}

/// Resuming a translation: the segments still to be sent are exactly those
/// without a stored translation (none is sent twice, none is skipped), and
/// once none is left the assembled document consists of the stored
/// translations, one per segment in order.
pub proof fn law_resume_translation(segs: Seq<Segment>, done: Seq<(usize, String)>)
    ensures
        forall|j: int|
            #![trigger pending(segs, done)[j]]
            0 <= j < pending(segs, done).len() ==> exists|i: int|
                0 <= i < segs.len() && done_lookup(done, #[trigger] segs[i].index) is None
                    && pending(segs, done)[j] == segment_view(segs[i]),
        forall|i: int|
            0 <= i < segs.len() && done_lookup(done, #[trigger] segs[i].index) is None ==> pending(
                segs,
                done,
            ).contains(segment_view(segs[i])),
        merged(segs, done).len() == segs.len(),
        pending(segs, done).len() == 0 ==> forall|i: int|
            0 <= i < segs.len() ==> done_lookup(done, #[trigger] segs[i].index) == Some(
                merged(segs, done)[i],
            ),
    decreases segs.len(),
{
    if segs.len() > 0 {
        let init = segs.drop_last();
        law_resume_translation(init, done);
        let p0 = pending(init, done);
        let p = pending(segs, done);
        let last = segs.last();
        assert forall|j: int| #![trigger p[j]] 0 <= j < p.len() implies exists|i: int|
            0 <= i < segs.len() && done_lookup(done, #[trigger] segs[i].index) is None && p[j]
                == segment_view(segs[i]) by {
            if j < p0.len() {
                assert(p[j] == p0[j]);
                let i = choose|i: int|
                    0 <= i < init.len() && done_lookup(done, #[trigger] init[i].index) is None
                        && p0[j] == segment_view(init[i]);
                assert(segs[i] == init[i]);
                assert(done_lookup(done, segs[i].index) is None && p[j] == segment_view(segs[i]));
            } else {
                let n = segs.len() - 1;
                assert(segs[n] == last);
                assert(done_lookup(done, segs[n].index) is None && p[j] == segment_view(segs[n]));
            }
        }
        assert forall|i: int|
            0 <= i < segs.len() && done_lookup(done, #[trigger] segs[i].index) is None implies p.contains(
                segment_view(segs[i]),
            ) by {
            if i < init.len() {
                assert(segs[i] == init[i]);
                let k = choose|k: int| 0 <= k < p0.len() && p0[k] == segment_view(init[i]);
                assert(p[k] == p0[k]);
            } else {
                assert(p[p.len() - 1] == segment_view(last));
            }
        }
        if p.len() == 0 {
            assert(done_lookup(done, last.index) is Some);
            assert(p0.len() == 0);
            assert forall|i: int| 0 <= i < segs.len() implies done_lookup(done, #[trigger] segs[i].index)
                == Some(merged(segs, done)[i]) by {
                if i < init.len() {
                    assert(segs[i] == init[i]);
                    assert(merged(segs, done)[i] == merged(init, done)[i]);
                }
            }
        }
    }
}

// ---------------------------------------------------------------------------
// Settings checks
// ---------------------------------------------------------------------------

/// A document is marked `unread` or `read`; anything else is refused.
pub fn check_read_status(status: &str) -> (r: Result<(), String>)
    ensures
        (status@ == "unread"@ || status@ == "read"@) <==> r is Ok,
        r matches Err(m) ==> m@ == coded(INTERNAL_ERR@, "无效的阅读状态: "@ + status@),
{
    let s = chars_of(status);
    if eq_v(&s, &chars_of("unread")) || eq_v(&s, &chars_of("read")) {
        Ok(())
    } else {
        let mut m = String::new();
        m.append("无效的阅读状态: ");
        m.append(status);
        Err(err(INTERNAL_ERR, m.as_str()))
    }
}

/// A glossary term may not be blank.
pub fn check_glossary_term(term: &str) -> (r: Result<(), String>)
    ensures
        trim(term@).len() > 0 <==> r is Ok,
        r matches Err(m) ==> m@ == "术语不能为空"@,
{
    if trim_v(&chars_of(term)).len() > 0 {
        Ok(())
    } else {
        let mut m = String::new();
        m.append("术语不能为空");
        Err(m)
    }
}

/// An API configuration needs a base URL.
pub fn check_base_url(base_url: &str) -> (r: Result<(), String>)
    ensures
        base_url@.len() > 0 <==> r is Ok,
        r matches Err(m) ==> m@ == "Base URL 不能为空"@,
{
    if chars_of(base_url).len() > 0 {
        Ok(())
    } else {
        let mut m = String::new();
        m.append("Base URL 不能为空");
        Err(m)
    }
}

} // verus!
