//! Export: Markdown (original + translation + digest) and self-contained
//! HTML (images embedded as base64, light or sepia theme).
use vstd::prelude::*;
use crate::base64::{b64, base64_encode};
use crate::html::{escape, escape_v, inline_spec, inline_v};
use crate::text::{
    append_str, append_v, chars_of, decimal, decimal_v, digit, eq_v, find_from,
    find_v, has_char, has_char_v, is_digit, join, join_v, lemma_find_from_props, push_chars,
    slice_v, split_char, split_char_v, starts_with, starts_with_v, string_of, trim, trim_end,
    trim_end_char, trim_end_char_v, trim_end_v, trim_start_char, trim_start_char_v,
    trim_start_str, trim_start_str_v, trim_v, views,
};
use crate::translate::{words, words_v};

verus! {

/// The parts of an export.
pub struct ExportParts {
    pub title: String,
    pub original: String,
    pub translated: Option<String>,
    pub digest: Option<String>,
}

/// Which parts an export holds.
///
/// - `all`: original + translation + digest
/// - `no-original`: translation + digest
/// - `bilingual`: original + translation
/// - `translated`: translation only
/// - `digest`: digest only
#[derive(Clone, Copy, Debug)]
pub struct ExportScope {
    pub original: bool,
    pub translated: bool,
    pub digest: bool,
}

pub open spec fn scope_spec(scope: Seq<char>) -> (bool, bool, bool) {
    if scope == "no-original"@ {
        (false, true, true)
    } else if scope == "bilingual"@ {
        (true, true, false)
    } else if scope == "translated"@ {
        (false, true, false)
    } else if scope == "digest"@ {
        (false, false, true)
    } else {
        (true, true, true)
    }
}

impl ExportScope {
    /// Parse a scope name; unknown names select everything.
    pub fn parse(scope: &str) -> (r: Self)
        ensures
            (r.original, r.translated, r.digest) == scope_spec(scope@),
    {
        let s = chars_of(scope);
        if eq_v(&s, &chars_of("no-original")) {
            ExportScope { original: false, translated: true, digest: true }
        } else if eq_v(&s, &chars_of("bilingual")) {
            ExportScope { original: true, translated: true, digest: false }
        } else if eq_v(&s, &chars_of("translated")) {
            ExportScope { original: false, translated: true, digest: false }
        } else if eq_v(&s, &chars_of("digest")) {
            ExportScope { original: false, translated: false, digest: true }
        } else {
            ExportScope { original: true, translated: true, digest: true }
        }
    }
}

pub open spec fn opt_view(o: Option<String>) -> Option<Seq<char>> {
    match o {
        Some(s) => Some(s@),
        None => None,
    }
}

/// The Markdown export of `parts` for `scope`.
pub open spec fn markdown_spec(
    title: Seq<char>,
    original: Seq<char>,
    translated: Option<Seq<char>>,
    digest: Option<Seq<char>>,
    scope: Seq<char>,
) -> Seq<char> {
    let sc = scope_spec(scope);
    "# "@ + title + "\n\n"@ + "> 由 Rd学术阅读器导出\n\n"@ + (if sc.0 {
        "---\n\n## 原文\n\n"@ + original + "\n\n"@
    } else {
        Seq::empty()
    }) + (if sc.1 && translated is Some {
        "---\n\n## 译文\n\n"@ + translated->0 + "\n\n"@
    } else {
        Seq::empty()
    }) + (if sc.2 && digest is Some {
        "---\n\n## AI 拆解\n\n"@ + digest->0 + "\n"@
    } else {
        Seq::empty()
    })
}

/// Compose the Markdown export, keeping the sections the scope selects.
pub fn compose_markdown(parts: &ExportParts, scope: &str) -> (r: String)
    ensures
        starts_with(r@, "# "@ + parts.title@ + "\n\n"@),
        r@ == markdown_spec(
            parts.title@,
            parts.original@,
            opt_view(parts.translated),
            opt_view(parts.digest),
            scope@,
        ),
{
    let sc = ExportScope::parse(scope);
    let mut out = String::new();
    out.append("# ");
    out.append(parts.title.as_str());
    out.append("\n\n");
    out.append("> 由 Rd学术阅读器导出\n\n");
    let ghost head = out@;
    if sc.original {
        out.append("---\n\n## 原文\n\n");
        out.append(parts.original.as_str());
        out.append("\n\n");
    }
    let ghost a = out@;
    if sc.translated {
        if let Some(t) = &parts.translated {
            out.append("---\n\n## 译文\n\n");
            out.append(t.as_str());
            out.append("\n\n");
        }
    }
    let ghost b = out@;
    if sc.digest {
        if let Some(d) = &parts.digest {
            out.append("---\n\n## AI 拆解\n\n");
            out.append(d.as_str());
            out.append("\n");
        }
    }
    assert(out@ =~= markdown_spec(
        parts.title@,
        parts.original@,
        opt_view(parts.translated),
        opt_view(parts.digest),
        scope@,
    ));
    proof {
        let p = "# "@ + parts.title@ + "\n\n"@;
        assert(out@.subrange(0, p.len() as int) =~= p);
    }
    out
}

// ---------------------------------------------------------------------------
// Local images available to the HTML export
// ---------------------------------------------------------------------------

/// What reading one local image gave: the path as written in the Markdown
/// (without leading `./`), the extension of the file it resolves to, and
/// its bytes (`None` when it could not be read).
pub struct ImageFile {
    pub path: String,
    pub extension: String,
    pub data: Option<Vec<u8>>,
}

pub open spec fn image_view(f: ImageFile) -> (Seq<char>, Seq<char>, Option<Seq<u8>>) {
    (
        f.path@,
        f.extension@,
        match f.data {
            Some(d) => Some(d@),
            None => None,
        },
    )
}

pub open spec fn images_view(v: Seq<ImageFile>) -> Seq<(Seq<char>, Seq<char>, Option<Seq<u8>>)> {
    v.map_values(|f: ImageFile| image_view(f))
}

/// The first entry for `key`.
pub open spec fn image_lookup(
    images: Seq<(Seq<char>, Seq<char>, Option<Seq<u8>>)>,
    key: Seq<char>,
) -> Option<(Seq<char>, Option<Seq<u8>>)>
    decreases images.len(),
{
    if images.len() == 0 {
        None
    } else if images[0].0 == key {
        Some((images[0].1, images[0].2))
    } else {
        image_lookup(images.subrange(1, images.len() as int), key)
    }
}

pub const MAX_EMBED_IMAGES: usize = 25;

pub const MAX_EMBED_BYTES: usize = 15000000;

pub open spec fn embed_mime(ext: Seq<char>) -> Seq<char> {
    if ext == "png"@ {
        "image/png"@
    } else if ext == "jpg"@ || ext == "jpeg"@ {
        "image/jpeg"@
    } else if ext == "gif"@ {
        "image/gif"@
    } else if ext == "webp"@ {
        "image/webp"@
    } else {
        "application/octet-stream"@
    }
}

fn embed_mime_v(ext: &Vec<char>) -> (r: &'static str)
    ensures
        r@ == embed_mime(ext@),
{
    if eq_v(ext, &chars_of("png")) {
        "image/png"
    } else if eq_v(ext, &chars_of("jpg")) || eq_v(ext, &chars_of("jpeg")) {
        "image/jpeg"
    } else if eq_v(ext, &chars_of("gif")) {
        "image/gif"
    } else if eq_v(ext, &chars_of("webp")) {
        "image/webp"
    } else {
        "application/octet-stream"
    }
}

pub open spec fn is_quote(c: char) -> bool {
    c == '"' || c == '\''
}

pub open spec fn trim_quotes_start(s: Seq<char>) -> Seq<char>
    decreases s.len(),
{
    if s.len() > 0 && is_quote(s[0]) {
        trim_quotes_start(s.subrange(1, s.len() as int))
    } else {
        s
    }
}

pub open spec fn trim_quotes_end(s: Seq<char>) -> Seq<char>
    decreases s.len(),
{
    if s.len() > 0 && is_quote(s.last()) {
        trim_quotes_end(s.drop_last())
    } else {
        s
    }
}

fn trim_quotes_v(s: &Vec<char>) -> (r: Vec<char>)
    ensures
        r@ == trim_quotes_end(trim_quotes_start(s@)),
{
    let mut cur = slice_v(s, 0, s.len());
    assert(cur@ =~= s@);
    while cur.len() > 0 && (cur[0] == '"' || cur[0] == '\'')
        invariant
            trim_quotes_start(s@) == trim_quotes_start(cur@),
        decreases cur.len(),
    {
        cur = slice_v(&cur, 1, cur.len());
    }
    let ghost st = cur@;
    while cur.len() > 0 && (cur[cur.len() - 1] == '"' || cur[cur.len() - 1] == '\'')
        invariant
            trim_quotes_end(st) == trim_quotes_end(cur@),
            st == trim_quotes_start(s@),
        decreases cur.len(),
    {
        let n = cur.len();
        let next = slice_v(&cur, 0, n - 1);
        assert(next@ =~= cur@.drop_last());
        cur = next;
    }
    cur
}

pub open spec fn img_tag(alt: Seq<char>, src: Seq<char>) -> Seq<char> {
    "<img alt=\""@ + escape(alt) + "\" src=\""@ + escape(src) + "\"/>"@
}

pub open spec fn embed_tag(alt: Seq<char>, mime: Seq<char>, data: Seq<char>) -> Seq<char> {
    "<img alt=\""@ + escape(alt) + "\" src=\"data:"@ + mime + ";base64,"@ + data + "\"/>"@
}

/// Alt text of an image line: what follows `![` up to the first `]`.
pub open spec fn image_alt(t: Seq<char>) -> Seq<char> {
    let after = trim_start_str(t, "!["@);
    match find_from(after, "]"@, 0) {
        Some(i) => after.subrange(0, i),
        None => Seq::empty(),
    }
}

/// Source of an image line: first word between the first `(` and the next
/// `)`, without surrounding quotes.
pub open spec fn image_src(t: Seq<char>) -> Seq<char> {
    let src = match find_from(t, "("@, 0) {
        Some(o) => {
            let rest = t.subrange(o + 1, t.len() as int);
            match find_from(rest, ")"@, 0) {
                Some(c) => trim(rest.subrange(0, c)),
                None => Seq::empty(),
            }
        },
        None => Seq::empty(),
    };
    let w = words(src);
    trim_quotes_end(trim_quotes_start(if w.len() > 0 { w[0] } else { Seq::empty() }))
}

/// HTML for an image line, and the embedding counters (images, bytes)
/// afterwards.  Local images are embedded as base64 while fewer than 25
/// images and at most 15 MB have been embedded; otherwise they keep their
/// relative path.
pub open spec fn image_html_spec(
    t: Seq<char>,
    images: Seq<(Seq<char>, Seq<char>, Option<Seq<u8>>)>,
    count: nat,
    bytes: nat,
) -> (Seq<char>, nat, nat) {
    let alt = image_alt(t);
    let clean = image_src(t);
    if clean.len() == 0 {
        (Seq::empty(), count, bytes)
    } else if starts_with(clean, "data:"@) || starts_with(clean, "http"@) {
        (img_tag(alt, clean), count, bytes)
    } else {
        match image_lookup(images, trim_start_str(clean, "./"@)) {
            Some((ext, Some(data))) => if count < 25 && bytes + data.len() <= 15000000 {
                (embed_tag(alt, embed_mime(ext), b64(data)), count + 1, bytes + data.len())
            } else {
                (img_tag(alt, clean), count, bytes)
            },
            _ => (img_tag(alt, clean), count, bytes),
        }
    }
}

// ---------------------------------------------------------------------------
// Block structure
// ---------------------------------------------------------------------------

/// Number of leading `#` characters.
pub open spec fn leading_hashes(t: Seq<char>) -> nat
    decreases t.len(),
{
    if t.len() > 0 && t[0] == '#' {
        1 + leading_hashes(t.subrange(1, t.len() as int))
    } else {
        0
    }
}

/// Level of a heading line: 1 to 4 `#` followed by a space or nothing.
pub open spec fn heading_level_spec(t: Seq<char>) -> Option<nat> {
    let m = leading_hashes(t);
    if 0 < m <= 4 && (m == t.len() || t[m as int] == ' ') {
        Some(m)
    } else {
        None
    }
}

proof fn lemma_leading_hashes(t: Seq<char>)
    ensures
        leading_hashes(t) <= t.len(),
        forall|i: int| 0 <= i < leading_hashes(t) ==> t[i] == '#',
        leading_hashes(t) < t.len() ==> t[leading_hashes(t) as int] != '#',
    decreases t.len(),
{
    if t.len() > 0 && t[0] == '#' {
        let r = t.subrange(1, t.len() as int);
        lemma_leading_hashes(r);
        assert forall|i: int| 0 <= i < leading_hashes(t) implies t[i] == '#' by {
            if i > 0 {
                assert(t[i] == r[i - 1]);
            }
        }
    }
}

pub fn heading_level(t: &Vec<char>) -> (r: Option<usize>)
    ensures
        match r {
            Some(h) => heading_level_spec(t@) == Some(h as nat),
            None => heading_level_spec(t@) is None,
        },
{
    let mut m: usize = 0;
    assert(t@.subrange(0, t.len() as int) =~= t@);
    while m < t.len() && t[m] == '#'
        invariant
            m <= t.len(),
            leading_hashes(t@) == m + leading_hashes(t@.subrange(m as int, t.len() as int)),
        decreases t.len() - m,
    {
        proof {
            let s = t@.subrange(m as int, t.len() as int);
            assert(s.subrange(1, s.len() as int) =~= t@.subrange(m + 1, t.len() as int));
        }
        m += 1;
    }
    proof {
        let s = t@.subrange(m as int, t.len() as int);
        assert(leading_hashes(s) == 0);
    }
    if m > 0 && m <= 4 {
        if m == t.len() || t[m] == ' ' {
            return Some(m);
        }
    }
    None
}

pub open spec fn all_digits(s: Seq<char>) -> bool {
    forall|i: int| 0 <= i < s.len() ==> is_digit(#[trigger] s[i])
}

/// Is the line a list item, and its text.
pub open spec fn list_item_spec(t: Seq<char>) -> (bool, Seq<char>) {
    if starts_with(t, "- "@) || starts_with(t, "* "@) {
        (true, t.subrange(2, t.len() as int))
    } else if t.len() > 0 && is_digit(t[0]) && find_from(t, ". "@, 0) is Some {
        let idx = find_from(t, ". "@, 0)->0;
        if all_digits(t.subrange(0, idx)) {
            (true, t.subrange(idx + 2, t.len() as int))
        } else {
            (false, t)
        }
    } else {
        (false, t)
    }
}

pub fn list_item(t: &Vec<char>) -> (r: (bool, Vec<char>))
    ensures
        (r.0, r.1@) == list_item_spec(t@),
{
    proof {
        reveal_strlit("- ");
        reveal_strlit("* ");
        reveal_strlit(". ");
    }
    if starts_with_v(t, &chars_of("- ")) || starts_with_v(t, &chars_of("* ")) {
        return (true, slice_v(t, 2, t.len()));
    }
    let dot = chars_of(". ");
    if t.len() > 0 && digit(t[0]) {
        proof {
            lemma_find_from_props(t@, dot@, 0);
        }
        match find_v(t, &dot, 0) {
            Some(idx) => {
                let mut k: usize = 0;
                while k < idx
                    invariant
                        k <= idx,
                        idx + 2 <= t.len(),
                        dot@ == ". "@,
                        t.len() > 0 && is_digit(t@[0]),
                        !starts_with(t@, "- "@) && !starts_with(t@, "* "@),
                        find_from(t@, ". "@, 0) == Some(idx as int),
                        forall|j: int| 0 <= j < k ==> is_digit(t@[j]),
                    decreases idx - k,
                {
                    if !digit(t[k]) {
                        assert(!is_digit(t@.subrange(0, idx as int)[k as int]));
                        assert(!all_digits(t@.subrange(0, idx as int)));
                        let same = slice_v(t, 0, t.len());
                        assert(same@ =~= t@);
                        return (false, same);
                    }
                    k += 1;
                }
                assert(all_digits(t@.subrange(0, idx as int)));
                return (true, slice_v(t, idx + 2, t.len()));
            },
            None => {},
        }
    }
    let same = slice_v(t, 0, t.len());
    assert(same@ =~= t@);
    (false, same)
}

pub open spec fn is_sep_char(c: char) -> bool {
    c == '|' || c == '-' || c == ':' || c == ' '
}

pub open spec fn all_sep(s: Seq<char>) -> bool {
    forall|i: int| 0 <= i < s.len() ==> is_sep_char(#[trigger] s[i])
}

/// A Markdown table separator row (`|---|:--|`).
pub open spec fn table_sep(t: Seq<char>) -> bool {
    all_sep(trim_end_char(trim_start_char(t, '|'), '|')) && has_char(t, '-')
}

pub fn is_table_sep(t: &Vec<char>) -> (r: bool)
    ensures
        r == table_sep(t@),
{
    let inner = trim_end_char_v(&trim_start_char_v(t, '|'), '|');
    let mut k: usize = 0;
    while k < inner.len()
        invariant
            k <= inner.len(),
            inner@ == trim_end_char(trim_start_char(t@, '|'), '|'),
            forall|j: int| 0 <= j < k ==> is_sep_char(inner@[j]),
        decreases inner.len() - k,
    {
        let c = inner[k];
        if !(c == '|' || c == '-' || c == ':' || c == ' ') {
            assert(!is_sep_char(inner@[k as int]));
            assert(!all_sep(inner@));
            return false;
        }
        k += 1;
    }
    assert(all_sep(inner@));
    has_char_v(t, '-')
}

pub open spec fn row_cells(row: Seq<char>) -> Seq<Seq<char>> {
    split_char(trim_end_char(trim_start_char(trim(row), '|'), '|'), '|').map_values(
        |c: Seq<char>| trim(c),
    )
}

pub open spec fn cells_html(cells: Seq<Seq<char>>, tag: Seq<char>) -> Seq<char>
    decreases cells.len(),
{
    if cells.len() == 0 {
        Seq::empty()
    } else {
        cells_html(cells.drop_last(), tag) + "<"@ + tag + ">"@ + inline_spec(cells.last()) + "</"@ + tag
            + ">"@
    }
}

pub open spec fn rows_html(rows: Seq<Seq<char>>) -> Seq<char>
    decreases rows.len(),
{
    if rows.len() == 0 {
        Seq::empty()
    } else {
        rows_html(rows.drop_last()) + "<tr>"@ + cells_html(
            row_cells(rows.last()),
            if rows.len() == 1 {
                "th"@
            } else {
                "td"@
            },
        ) + "</tr>\n"@
    }
}

/// A table: the first row as header cells, the others as data cells.
pub open spec fn table_spec(rows: Seq<Seq<char>>) -> Seq<char> {
    "<table>\n"@ + rows_html(rows) + "</table>\n"@
}

pub fn table_html(rows: &Vec<Vec<char>>) -> (r: Vec<char>)
    ensures
        r@ == table_spec(views(rows@)),
{
    let ghost rv = views(rows@);
    let mut out: Vec<char> = Vec::new();
    append_str(&mut out, "<table>\n");
    let ghost head = out@;
    let mut i: usize = 0;
    assert(rows_html(rv.subrange(0, 0)) =~= Seq::<char>::empty());
    while i < rows.len()
        invariant
            i <= rows.len(),
            rv == views(rows@),
            head == "<table>\n"@,
            out@ == head + rows_html(rv.subrange(0, i as int)),
        decreases rows.len() - i,
    {
        let inner = trim_end_char_v(&trim_start_char_v(&trim_v(&rows[i]), '|'), '|');
        let raw_cells = split_char_v(&inner, '|');
        let tag = if i == 0 {
            "th"
        } else {
            "td"
        };
        let ghost cells = views(raw_cells@).map_values(|c: Seq<char>| trim(c));
        append_str(&mut out, "<tr>");
        let ghost before_cells = out@;
        let mut k: usize = 0;
        while k < raw_cells.len()
            invariant
                k <= raw_cells.len(),
                cells == views(raw_cells@).map_values(|c: Seq<char>| trim(c)),
                out@ == before_cells + cells_html(cells.subrange(0, k as int), tag@),
            decreases raw_cells.len() - k,
        {
            let c = trim_v(&raw_cells[k]);
            append_str(&mut out, "<");
            append_str(&mut out, tag);
            append_str(&mut out, ">");
            append_v(&mut out, &inline_v(&c));
            append_str(&mut out, "</");
            append_str(&mut out, tag);
            append_str(&mut out, ">");
            proof {
                let a = cells.subrange(0, k + 1);
                assert(a.drop_last() =~= cells.subrange(0, k as int));
                assert(a.last() == c@);
            }
            k += 1;
        }
        assert(cells.subrange(0, raw_cells.len() as int) =~= cells);
        append_str(&mut out, "</tr>\n");
        proof {
            let a = rv.subrange(0, i + 1);
            assert(a.drop_last() =~= rv.subrange(0, i as int));
            assert(a.last() == rows@[i as int]@);
            assert(row_cells(a.last()) == cells);
        }
        i += 1;
    }
    assert(rv.subrange(0, rows.len() as int) =~= rv);
    append_str(&mut out, "</table>\n");
    out
}

} // verus!

verus! {

fn image_lookup_v(images: &Vec<ImageFile>, key: &Vec<char>) -> (r: Option<usize>)
    ensures
        match r {
            Some(i) => i < images.len() && image_lookup(images_view(images@), key@) == Some(
                (image_view(images@[i as int]).1, image_view(images@[i as int]).2),
            ),
            None => image_lookup(images_view(images@), key@) is None,
        },
{
    let ghost iv = images_view(images@);
    let mut i: usize = 0;
    assert(iv.subrange(0, iv.len() as int) =~= iv);
    while i < images.len()
        invariant
            i <= images.len(),
            iv == images_view(images@),
            image_lookup(iv, key@) == image_lookup(iv.subrange(i as int, iv.len() as int), key@),
        decreases images.len() - i,
    {
        proof {
            let s = iv.subrange(i as int, iv.len() as int);
            assert(s.subrange(1, s.len() as int) =~= iv.subrange(i + 1, iv.len() as int));
            assert(s[0] == image_view(images@[i as int]));
        }
        let p = chars_of(images[i].path.as_str());
        if eq_v(&p, key) {
            return Some(i);
        }
        i += 1;
    }
    None
}

fn image_alt_v(t: &Vec<char>) -> (r: Vec<char>)
    ensures
        r@ == image_alt(t@),
{
    let after = trim_start_str_v(t, &chars_of("!["));
    let close = chars_of("]");
    proof {
        lemma_find_from_props(after@, close@, 0);
    }
    match find_v(&after, &close, 0) {
        Some(i) => slice_v(&after, 0, i),
        None => Vec::new(),
    }
}

fn image_src_v(t: &Vec<char>) -> (r: Vec<char>)
    ensures
        r@ == image_src(t@),
{
    let open = chars_of("(");
    let close = chars_of(")");
    proof {
        reveal_strlit("(");
        assert(open@.len() == 1);
        lemma_find_from_props(t@, open@, 0);
    }
    let src: Vec<char> = match find_v(t, &open, 0) {
        Some(o) => {
            assert(crate::text::occurs_at(t@, open@, o as int));
            assert(o + 1 <= t.len());
            let rest = slice_v(t, o + 1, t.len());
            proof {
                lemma_find_from_props(rest@, close@, 0);
            }
            match find_v(&rest, &close, 0) {
                Some(c) => trim_v(&slice_v(&rest, 0, c)),
                None => Vec::new(),
            }
        },
        None => Vec::new(),
    };
    let w = words_v(&src);
    let first = if w.len() > 0 {
        slice_v(&w[0], 0, w[0].len())
    } else {
        Vec::new()
    };
    proof {
        if w.len() > 0 {
            assert(first@ =~= views(w@)[0]);
        }
    }
    trim_quotes_v(&first)
}

fn image_html(t: &Vec<char>, images: &Vec<ImageFile>, count: &mut usize, bytes: &mut usize) -> (r:
    Vec<char>)
    requires
        *old(bytes) <= MAX_EMBED_BYTES,
        *old(count) <= MAX_EMBED_IMAGES,
    ensures
        (r@, *final(count) as nat, *final(bytes) as nat) == image_html_spec(
            t@,
            images_view(images@),
            *old(count) as nat,
            *old(bytes) as nat,
        ),
        *final(bytes) <= MAX_EMBED_BYTES,
        *final(count) <= MAX_EMBED_IMAGES,
{
    let alt = image_alt_v(t);
    let clean = image_src_v(t);
    if clean.len() == 0 {
        return Vec::new();
    }
    let mut tag: Vec<char> = Vec::new();
    append_str(&mut tag, "<img alt=\"");
    append_v(&mut tag, &escape_v(&alt));
    append_str(&mut tag, "\" src=\"");
    append_v(&mut tag, &escape_v(&clean));
    append_str(&mut tag, "\"/>");
    if starts_with_v(&clean, &chars_of("data:")) || starts_with_v(&clean, &chars_of("http")) {
        return tag;
    }
    let key = trim_start_str_v(&clean, &chars_of("./"));
    match image_lookup_v(images, &key) {
        Some(i) => {
            match &images[i].data {
                Some(data) => {
                    if *count < MAX_EMBED_IMAGES && data.len() <= MAX_EMBED_BYTES - *bytes {
                        let encoded = base64_encode(data.as_slice());
                        let ext = chars_of(images[i].extension.as_str());
                        let mime = embed_mime_v(&ext);
                        let mut r: Vec<char> = Vec::new();
                        append_str(&mut r, "<img alt=\"");
                        append_v(&mut r, &escape_v(&alt));
                        append_str(&mut r, "\" src=\"data:");
                        append_str(&mut r, mime);
                        append_str(&mut r, ";base64,");
                        append_str(&mut r, encoded.as_str());
                        append_str(&mut r, "\"/>");
                        *count = *count + 1;
                        *bytes = *bytes + data.len();
                        return r;
                    }
                    tag
                },
                None => tag,
            }
        },
        None => tag,
    }
}

// ---------------------------------------------------------------------------
// Markdown → HTML
// ---------------------------------------------------------------------------

/// The converter's state after some lines.
pub struct HtmlState {
    pub out: Seq<char>,
    pub in_code: bool,
    pub in_list: bool,
    pub code: Seq<Seq<char>>,
    pub para: Seq<Seq<char>>,
    pub started: bool,
    pub rows: Seq<Seq<char>>,
    pub count: nat,
    pub bytes: nat,
}

pub open spec fn html_initial() -> HtmlState {
    HtmlState {
        out: Seq::empty(),
        in_code: false,
        in_list: false,
        code: Seq::empty(),
        para: Seq::empty(),
        started: false,
        rows: Seq::empty(),
        count: 0,
        bytes: 0,
    }
}

/// Emit the pending paragraph (lines joined by spaces) if one is open.
pub open spec fn flush_para(st: HtmlState) -> HtmlState {
    if st.started {
        HtmlState {
            out: st.out + "<p>"@ + inline_spec(join(st.para, " "@)) + "</p>\n"@,
            para: Seq::empty(),
            started: false,
            ..st
        }
    } else {
        st
    }
}

/// Close an open list.
pub open spec fn close_list(st: HtmlState) -> HtmlState {
    if st.in_list {
        HtmlState { out: st.out + "</ul>\n"@, in_list: false, ..st }
    } else {
        st
    }
}

pub open spec fn code_block(code: Seq<Seq<char>>) -> Seq<char> {
    "<pre><code>"@ + escape(join(code, "\n"@)) + "</code></pre>\n"@
}

pub open spec fn emit(st: HtmlState, s: Seq<char>) -> HtmlState {
    HtmlState { out: st.out + s, ..st }
}

pub open spec fn is_rule(t: Seq<char>) -> bool {
    t == "---"@ || t == "***"@ || t == "___"@
}

/// One input line (as split at `'\n'`).
pub open spec fn html_step(
    st: HtmlState,
    images: Seq<(Seq<char>, Seq<char>, Option<Seq<u8>>)>,
    raw: Seq<char>,
) -> HtmlState {
    let line = trim_end(raw);
    let t = trim(line);
    if st.in_code {
        if starts_with(t, "```"@) {
            HtmlState {
                in_code: false,
                out: st.out + code_block(st.code),
                code: Seq::empty(),
                ..st
            }
        } else {
            HtmlState { code: st.code.push(line), ..st }
        }
    } else if starts_with(t, "```"@) {
        HtmlState { rows: Seq::empty(), in_code: true, ..close_list(flush_para(st)) }
    } else if starts_with(t, "|"@) {
        let s1 = if st.rows.len() > 0 && st.started {
            flush_para(st)
        } else {
            st
        };
        let s2 = close_list(s1);
        if table_sep(t) {
            s2
        } else {
            HtmlState { rows: s2.rows.push(line), ..s2 }
        }
    } else {
        let s0 = if st.rows.len() > 0 {
            HtmlState { out: st.out + table_spec(st.rows), rows: Seq::empty(), ..st }
        } else {
            st
        };
        html_block(s0, images, line, t)
    }
}

/// A line that is neither code nor table, once pending table rows are out.
pub open spec fn html_block(
    s0: HtmlState,
    images: Seq<(Seq<char>, Seq<char>, Option<Seq<u8>>)>,
    line: Seq<char>,
    t: Seq<char>,
) -> HtmlState {
    match heading_level_spec(t) {
        Some(h) => emit(
            close_list(flush_para(s0)),
            "<h"@ + decimal(h) + ">"@ + inline_spec(trim(t.subrange(h as int, t.len() as int)))
                + "</h"@ + decimal(h) + ">\n"@,
        ),
        None => if starts_with(t, ">"@) {
            emit(
                close_list(flush_para(s0)),
                "<blockquote>"@ + inline_spec(trim(trim_start_char(t, '>'))) + "</blockquote>\n"@,
            )
        } else if starts_with(t, "!["@) {
            let s1 = close_list(flush_para(s0));
            let im = image_html_spec(t, images, s1.count, s1.bytes);
            HtmlState { out: s1.out + im.0, count: im.1, bytes: im.2, ..s1 }
        } else if is_rule(t) {
            emit(close_list(flush_para(s0)), "<hr/>\n"@)
        } else {
            html_list_para(s0, line, t)
        },
    }
}

/// A list item, a blank line or paragraph text.
pub open spec fn html_list_para(s0: HtmlState, line: Seq<char>, t: Seq<char>) -> HtmlState {
    if list_item_spec(t).0 {
        let s1 = flush_para(s0);
        let s2 = if !s1.in_list {
            HtmlState { out: s1.out + "<ul>\n"@, in_list: true, ..s1 }
        } else {
            s1
        };
        emit(s2, "<li>"@ + inline_spec(list_item_spec(t).1) + "</li>\n"@)
    } else {
        let s1 = close_list(s0);
        if t.len() == 0 {
            flush_para(s1)
        } else {
            HtmlState { started: true, para: s1.para.push(line), ..s1 }
        }
    }
}

pub open spec fn html_run(
    lines: Seq<Seq<char>>,
    images: Seq<(Seq<char>, Seq<char>, Option<Seq<u8>>)>,
) -> HtmlState
    decreases lines.len(),
{
    if lines.len() == 0 {
        html_initial()
    } else {
        html_step(html_run(lines.drop_last(), images), images, lines.last())
    }
}

/// End of input: an unterminated code block is emitted, the paragraph and
/// list are closed, and pending table rows are emitted.
pub open spec fn html_finish(st: HtmlState) -> Seq<char> {
    let s1 = if st.in_code {
        emit(st, code_block(st.code))
    } else {
        st
    };
    let s2 = close_list(flush_para(s1));
    if s2.rows.len() > 0 {
        s2.out + table_spec(s2.rows)
    } else {
        s2.out
    }
}

/// The HTML of Markdown `md` (headings, tables, code, images, quotes,
/// lists, paragraphs, inline styles).
pub open spec fn md_html(md: Seq<char>, images: Seq<(Seq<char>, Seq<char>, Option<Seq<u8>>)>) -> Seq<char> {
    html_finish(html_run(split_char(md, '\n'), images))
}

struct HtmlBuilder {
    out: Vec<char>,
    in_code: bool,
    in_list: bool,
    code: Vec<Vec<char>>,
    para: Vec<Vec<char>>,
    started: bool,
    rows: Vec<Vec<char>>,
    count: usize,
    bytes: usize,
}

impl HtmlBuilder {
    spec fn view(&self) -> HtmlState {
        HtmlState {
            out: self.out@,
            in_code: self.in_code,
            in_list: self.in_list,
            code: views(self.code@),
            para: views(self.para@),
            started: self.started,
            rows: views(self.rows@),
            count: self.count as nat,
            bytes: self.bytes as nat,
        }
    }

    spec fn inv(&self) -> bool {
        self.bytes <= MAX_EMBED_BYTES && self.count <= MAX_EMBED_IMAGES
    }

    fn flush_para(&mut self)
        requires
            old(self).inv(),
        ensures
            final(self).view() == flush_para(old(self).view()),
            final(self).inv(),
    {
        if self.started {
            append_str(&mut self.out, "<p>");
            let joined = join_v(&self.para, &chars_of(" "));
            append_v(&mut self.out, &inline_v(&joined));
            append_str(&mut self.out, "</p>\n");
            self.para = Vec::new();
            self.started = false;
            assert(views(self.para@) =~= Seq::<Seq<char>>::empty());
        }
    }

    fn close_list(&mut self)
        requires
            old(self).inv(),
        ensures
            final(self).view() == close_list(old(self).view()),
            final(self).inv(),
    {
        if self.in_list {
            append_str(&mut self.out, "</ul>\n");
            self.in_list = false;
        }
    }

    fn emit_code(&mut self)
        requires
            old(self).inv(),
        ensures
            final(self).view() == emit(old(self).view(), code_block(old(self).view().code)),
            final(self).inv(),
    {
        let ghost before = self.out@;
        append_str(&mut self.out, "<pre><code>");
        let joined = join_v(&self.code, &chars_of("\n"));
        append_v(&mut self.out, &escape_v(&joined));
        append_str(&mut self.out, "</code></pre>\n");
        assert(self.out@ =~= before + code_block(views(self.code@)));
    }

    #[verifier::rlimit(60)]
    #[verifier::spinoff_prover]
    fn step(&mut self, raw: &Vec<char>, images: &Vec<ImageFile>)
        requires
            old(self).inv(),
        ensures
            final(self).view() == html_step(old(self).view(), images_view(images@), raw@),
            final(self).inv(),
    {
        let line = trim_end_v(raw);
        let t = trim_v(&line);
        let fence = chars_of("```");
        if self.in_code {
            if starts_with_v(&t, &fence) {
                self.emit_code();
                self.in_code = false;
                self.code = Vec::new();
                assert(views(self.code@) =~= Seq::<Seq<char>>::empty());
            } else {
                let ghost before = self.code@;
                self.code.push(line);
                assert(views(self.code@) =~= views(before).push(line@));
            }
            return ;
        }
        if starts_with_v(&t, &fence) {
            self.flush_para();
            self.close_list();
            self.rows = Vec::new();
            assert(views(self.rows@) =~= Seq::<Seq<char>>::empty());
            self.in_code = true;
            return ;
        }
        if starts_with_v(&t, &chars_of("|")) {
            if self.rows.len() > 0 && self.started {
                self.flush_para();
            }
            self.close_list();
            if is_table_sep(&t) {
                return ;
            }
            let ghost before = self.rows@;
            self.rows.push(line);
            assert(views(self.rows@) =~= views(before).push(line@));
            return ;
        }
        if self.rows.len() > 0 {
            let tbl = table_html(&self.rows);
            append_v(&mut self.out, &tbl);
            self.rows = Vec::new();
            assert(views(self.rows@) =~= Seq::<Seq<char>>::empty());
        }
        self.block(&line, &t, images);
    }

    #[verifier::rlimit(40)]
    fn block(&mut self, line: &Vec<char>, t: &Vec<char>, images: &Vec<ImageFile>)
        requires
            old(self).inv(),
        ensures
            final(self).view() == html_block(old(self).view(), images_view(images@), line@, t@),
            final(self).inv(),
    {
        proof {
            lemma_leading_hashes(t@);
        }
        match heading_level(t) {
            Some(h) => {
                self.flush_para();
                self.close_list();
                let ghost mid = self.out@;
                let d = decimal_v(h as u64);
                append_str(&mut self.out, "<h");
                append_v(&mut self.out, &d);
                append_str(&mut self.out, ">");
                let body = trim_v(&slice_v(t, h, t.len()));
                append_v(&mut self.out, &inline_v(&body));
                append_str(&mut self.out, "</h");
                append_v(&mut self.out, &d);
                append_str(&mut self.out, ">\n");
                assert(self.out@ =~= mid + ("<h"@ + decimal(h as nat) + ">"@ + inline_spec(
                    trim(t@.subrange(h as int, t@.len() as int)),
                ) + "</h"@ + decimal(h as nat) + ">\n"@));
                return ;
            },
            None => {},
        }
        if starts_with_v(t, &chars_of(">")) {
            self.flush_para();
            self.close_list();
            let ghost mid = self.out@;
            append_str(&mut self.out, "<blockquote>");
            let body = trim_v(&trim_start_char_v(t, '>'));
            append_v(&mut self.out, &inline_v(&body));
            append_str(&mut self.out, "</blockquote>\n");
            assert(self.out@ =~= mid + ("<blockquote>"@ + inline_spec(body@) + "</blockquote>\n"@));
            return ;
        }
        if starts_with_v(t, &chars_of("![")) {
            self.flush_para();
            self.close_list();
            let mut count = self.count;
            let mut bytes = self.bytes;
            let im = image_html(t, images, &mut count, &mut bytes);
            append_v(&mut self.out, &im);
            self.count = count;
            self.bytes = bytes;
            return ;
        }
        if eq_v(t, &chars_of("---")) || eq_v(t, &chars_of("***")) || eq_v(t, &chars_of("___")) {
            self.flush_para();
            self.close_list();
            append_str(&mut self.out, "<hr/>\n");
            return ;
        }
        self.list_para(line, t);
    }

    fn list_para(&mut self, line: &Vec<char>, t: &Vec<char>)
        requires
            old(self).inv(),
        ensures
            final(self).view() == html_list_para(old(self).view(), line@, t@),
            final(self).inv(),
    {
        let (is_li, li_text) = list_item(t);
        if is_li {
            self.flush_para();
            if !self.in_list {
                append_str(&mut self.out, "<ul>\n");
                self.in_list = true;
            }
            let ghost mid = self.out@;
            append_str(&mut self.out, "<li>");
            append_v(&mut self.out, &inline_v(&li_text));
            append_str(&mut self.out, "</li>\n");
            assert(self.out@ =~= mid + ("<li>"@ + inline_spec(li_text@) + "</li>\n"@));
            return ;
        }
        self.close_list();
        if t.len() == 0 {
            self.flush_para();
            return ;
        }
        self.started = true;
        let ghost before = self.para@;
        let copy = slice_v(line, 0, line.len());
        assert(copy@ =~= line@);
        self.para.push(copy);
        assert(views(self.para@) =~= views(before).push(line@));
    }
}

/// Markdown → HTML for the export (headings, tables, code blocks, images,
/// quotes, lists, paragraphs, inline styles).  Local images are looked up
/// in `images`.
pub fn md_to_html(md: &str, images: &Vec<ImageFile>) -> (r: String)
    ensures
        r@ == md_html(md@, images_view(images@)),
{
    let m = chars_of(md);
    let ls = split_char_v(&m, '\n');
    let ghost lv = views(ls@);
    let mut b = HtmlBuilder {
        out: Vec::new(),
        in_code: false,
        in_list: false,
        code: Vec::new(),
        para: Vec::new(),
        started: false,
        rows: Vec::new(),
        count: 0,
        bytes: 0,
    };
    assert(views(b.code@) =~= Seq::<Seq<char>>::empty());
    assert(views(b.para@) =~= Seq::<Seq<char>>::empty());
    assert(views(b.rows@) =~= Seq::<Seq<char>>::empty());
    assert(b.view() == html_initial());
    let mut i: usize = 0;
    while i < ls.len()
        invariant
            i <= ls.len(),
            lv == views(ls@),
            lv == split_char(md@, '\n'),
            b.inv(),
            b.view() == html_run(lv.subrange(0, i as int), images_view(images@)),
        decreases ls.len() - i,
    {
        proof {
            let a = lv.subrange(0, i + 1);
            assert(a.drop_last() =~= lv.subrange(0, i as int));
        }
        b.step(&ls[i], images);
        i += 1;
    }
    assert(lv.subrange(0, ls.len() as int) =~= lv);
    if b.in_code {
        b.emit_code();
    }
    b.flush_para();
    b.close_list();
    if b.rows.len() > 0 {
        let tbl = table_html(&b.rows);
        append_v(&mut b.out, &tbl);
    }
    string_of(&b.out)
}

/// The file an image line refers to when it is local: its source without a
/// leading `./`, unless the source is empty, a `data:` URL or a web address.
pub open spec fn local_image_key(t: Seq<char>) -> Option<Seq<char>> {
    let clean = image_src(t);
    if starts_with(t, "!["@) && clean.len() > 0 && !starts_with(clean, "data:"@) && !starts_with(
        clean,
        "http"@,
    ) {
        Some(trim_start_str(clean, "./"@))
    } else {
        None
    }
}

/// The local image files of the image lines among `lines`, in order.
pub open spec fn local_image_keys_spec(lines: Seq<Seq<char>>) -> Seq<Seq<char>>
    decreases lines.len(),
{
    if lines.len() == 0 {
        Seq::empty()
    } else {
        let r = local_image_keys_spec(lines.drop_last());
        match local_image_key(trim(trim_end(lines.last()))) {
            Some(k) => r.push(k),
            None => r,
        }
    }
}

/// The local image files that an HTML export of `md` looks up: the caller
/// reads them into `ImageFile`s before rendering.
pub fn local_image_keys(md: &str) -> (r: Vec<String>)
    ensures
        crate::paradigm::str_views(r@) == local_image_keys_spec(split_char(md@, '\n')),
{
    let ls = split_char_v(&chars_of(md), '\n');
    let ghost lv = views(ls@);
    let bang = chars_of("![");
    let data = chars_of("data:");
    let http = chars_of("http");
    let dot = chars_of("./");
    let mut out: Vec<String> = Vec::new();
    let mut i: usize = 0;
    assert(lv.subrange(0, 0) =~= Seq::<Seq<char>>::empty());
    assert(crate::paradigm::str_views(out@) =~= Seq::<Seq<char>>::empty());
    while i < ls.len()
        invariant
            i <= ls.len(),
            lv == views(ls@),
            lv == split_char(md@, '\n'),
            bang@ == "!["@,
            data@ == "data:"@,
            http@ == "http"@,
            dot@ == "./"@,
            crate::paradigm::str_views(out@) == local_image_keys_spec(lv.subrange(0, i as int)),
        decreases ls.len() - i,
    {
        let t = trim_v(&trim_end_v(&ls[i]));
        let clean = image_src_v(&t);
        proof {
            let a = lv.subrange(0, i + 1);
            assert(a.drop_last() =~= lv.subrange(0, i as int));
            assert(a.last() == ls@[i as int]@);
        }
        if starts_with_v(&t, &bang) && clean.len() > 0 && !starts_with_v(&clean, &data)
            && !starts_with_v(&clean, &http) {
            let k = trim_start_str_v(&clean, &dot);
            let ghost before = out@;
            out.push(string_of(&k));
            assert(crate::paradigm::str_views(out@) =~= crate::paradigm::str_views(before).push(k@));
        }
        i += 1;
    }
    assert(lv.subrange(0, ls.len() as int) =~= lv);
    out
}

} // verus!

verus! {

/// Theme colours: background, text, muted text, borders, headings, code
/// background.
pub open spec fn theme_colors(theme: Seq<char>) -> (Seq<char>, Seq<char>, Seq<char>, Seq<char>, Seq<char>, Seq<char>) {
    if theme == "sepia"@ {
        ("#f5ecd9"@, "#3a3226"@, "#8a7f6a"@, "#ddd0b4"@, "#2b2418"@, "#efe4c9"@)
    } else {
        ("#ffffff"@, "#1f2937"@, "#6b7280"@, "#e5e7eb"@, "#111827"@, "#f3f4f6"@)
    }
}

/// The style sheet of the HTML export for `theme` (`sepia` or light).
pub open spec fn theme_css_spec(theme: Seq<char>) -> Seq<char> {
    let (bg, fg, muted, border, head, code_bg) = theme_colors(theme);
    "body{margin:0;background:"@ + bg + ";color:"@ + fg
        + ";font-family:-apple-system,'PingFang SC','Microsoft YaHei',sans-serif;line-height:1.75}main{max-width:820px;margin:0 auto;padding:40px 24px}h1{font-size:1.6em;border-bottom:2px solid "@
        + border + ";padding-bottom:.3em}h2{font-size:1.3em;border-bottom:1px solid "@ + border
        + ";padding-bottom:.2em;margin-top:1.6em}h3{font-size:1.1em;color:"@ + head + "}h4{color:"@
        + head + "}.meta{color:"@ + muted
        + ";font-size:.85em}table{border-collapse:collapse;width:100%;margin:1em 0;font-size:.92em}th,td{border:1px solid "@
        + border + ";padding:6px 10px;text-align:left}th{background:"@ + code_bg
        + "}code{background:"@ + code_bg + ";border-radius:4px;padding:1px 5px;font-size:.9em}pre{background:"@
        + code_bg
        + ";border-radius:8px;padding:12px;overflow-x:auto}pre code{background:transparent;padding:0}img{max-width:100%;border-radius:8px;margin:.5em 0}blockquote{border-left:3px solid "@
        + border + ";margin:.8em 0;padding:.2em 1em;color:"@ + muted
        + "}hr{border:none;border-top:1px solid "@ + border + ";margin:2em 0}"@
}

pub fn theme_css(theme: &str) -> (r: String)
    ensures
        r@ == theme_css_spec(theme@),
{
    let sepia = eq_v(&chars_of(theme), &chars_of("sepia"));
    let (bg, fg, muted, border, head, code_bg) = if sepia {
        ("#f5ecd9", "#3a3226", "#8a7f6a", "#ddd0b4", "#2b2418", "#efe4c9")
    } else {
        ("#ffffff", "#1f2937", "#6b7280", "#e5e7eb", "#111827", "#f3f4f6")
    };
    let mut s = String::new();
    s.append("body{margin:0;background:");
    s.append(bg);
    s.append(";color:");
    s.append(fg);
    s.append(";font-family:-apple-system,'PingFang SC','Microsoft YaHei',sans-serif;line-height:1.75}main{max-width:820px;margin:0 auto;padding:40px 24px}h1{font-size:1.6em;border-bottom:2px solid ");
    s.append(border);
    s.append(";padding-bottom:.3em}h2{font-size:1.3em;border-bottom:1px solid ");
    s.append(border);
    s.append(";padding-bottom:.2em;margin-top:1.6em}h3{font-size:1.1em;color:");
    s.append(head);
    s.append("}h4{color:");
    s.append(head);
    s.append("}.meta{color:");
    s.append(muted);
    s.append(";font-size:.85em}table{border-collapse:collapse;width:100%;margin:1em 0;font-size:.92em}th,td{border:1px solid ");
    s.append(border);
    s.append(";padding:6px 10px;text-align:left}th{background:");
    s.append(code_bg);
    s.append("}code{background:");
    s.append(code_bg);
    s.append(";border-radius:4px;padding:1px 5px;font-size:.9em}pre{background:");
    s.append(code_bg);
    s.append(";border-radius:8px;padding:12px;overflow-x:auto}pre code{background:transparent;padding:0}img{max-width:100%;border-radius:8px;margin:.5em 0}blockquote{border-left:3px solid ");
    s.append(border);
    s.append(";margin:.8em 0;padding:.2em 1em;color:");
    s.append(muted);
    s.append("}hr{border:none;border-top:1px solid ");
    s.append(border);
    s.append(";margin:2em 0}");
    assert(s@ =~= theme_css_spec(theme@));
    s
}

pub open spec fn section_spec(
    title: Seq<char>,
    md: Seq<char>,
    images: Seq<(Seq<char>, Seq<char>, Option<Seq<u8>>)>,
) -> Seq<char> {
    "<section><h2>"@ + title + "</h2>"@ + md_html(md, images) + "</section>"@
}

pub fn section_html(title: &str, md: &str, images: &Vec<ImageFile>) -> (r: String)
    ensures
        r@ == section_spec(title@, md@, images_view(images@)),
{
    let mut s = String::new();
    s.append("<section><h2>");
    s.append(title);
    s.append("</h2>");
    let body = md_to_html(md, images);
    s.append(body.as_str());
    s.append("</section>");
    assert(s@ =~= section_spec(title@, md@, images_view(images@)));
    s
}

/// The sections of the HTML export, in order.
pub open spec fn html_sections(
    original: Seq<char>,
    translated: Option<Seq<char>>,
    digest: Option<Seq<char>>,
    images: Seq<(Seq<char>, Seq<char>, Option<Seq<u8>>)>,
    scope: Seq<char>,
) -> Seq<Seq<char>> {
    let sc = scope_spec(scope);
    (if sc.0 {
        seq![section_spec("原文"@, original, images)]
    } else {
        Seq::empty()
    }) + (if sc.1 && translated is Some {
        seq![section_spec("译文"@, translated->0, images)]
    } else {
        Seq::empty()
    }) + (if sc.2 && digest is Some {
        seq![section_spec("AI 拆解"@, digest->0, images)]
    } else {
        Seq::empty()
    })
}

/// The self-contained HTML export.
pub open spec fn html_spec(
    title: Seq<char>,
    original: Seq<char>,
    translated: Option<Seq<char>>,
    digest: Option<Seq<char>>,
    images: Seq<(Seq<char>, Seq<char>, Option<Seq<u8>>)>,
    theme: Seq<char>,
    scope: Seq<char>,
) -> Seq<char> {
    let body = "<h1>"@ + escape(title) + "</h1>\n<p class=\"meta\">由 Rd学术阅读器导出</p>\n"@ + join(
        html_sections(original, translated, digest, images, scope),
        "\n<hr/>\n"@,
    );
    "<!DOCTYPE html><html lang=\"zh-CN\"><head><meta charset=\"utf-8\"/><meta name=\"viewport\" content=\"width=device-width, initial-scale=1\"/><title>"@
        + escape(title) + "</title><style>"@ + theme_css_spec(theme) + "</style></head><body><main>"@
        + body + "</main></body></html>"@
}

/// Compose the self-contained HTML export (images embedded, theme applied,
/// sections chosen by the scope).
pub fn compose_html(parts: &ExportParts, images: &Vec<ImageFile>, theme: &str, scope: &str) -> (r:
    String)
    ensures
        r@ == html_spec(
            parts.title@,
            parts.original@,
            opt_view(parts.translated),
            opt_view(parts.digest),
            images_view(images@),
            theme@,
            scope@,
        ),
{
    let sc = ExportScope::parse(scope);
    let ghost iv = images_view(images@);
    let mut sections: Vec<Vec<char>> = Vec::new();
    if sc.original {
        let s = section_html("原文", parts.original.as_str(), images);
        sections.push(chars_of(s.as_str()));
    }
    let ghost a = views(sections@);
    if sc.translated {
        if let Some(t) = &parts.translated {
            let s = section_html("译文", t.as_str(), images);
            sections.push(chars_of(s.as_str()));
        }
    }
    let ghost b = views(sections@);
    if sc.digest {
        if let Some(d) = &parts.digest {
            let s = section_html("AI 拆解", d.as_str(), images);
            sections.push(chars_of(s.as_str()));
        }
    }
    assert(views(sections@) =~= html_sections(
        parts.original@,
        opt_view(parts.translated),
        opt_view(parts.digest),
        iv,
        scope@,
    ));
    let title = chars_of(parts.title.as_str());
    let esc_title = escape_v(&title);
    let mut body: Vec<char> = Vec::new();
    append_str(&mut body, "<h1>");
    append_v(&mut body, &esc_title);
    append_str(&mut body, "</h1>\n<p class=\"meta\">由 Rd学术阅读器导出</p>\n");
    append_v(&mut body, &join_v(&sections, &chars_of("\n<hr/>\n")));
    let mut out = String::new();
    out.append("<!DOCTYPE html><html lang=\"zh-CN\"><head><meta charset=\"utf-8\"/><meta name=\"viewport\" content=\"width=device-width, initial-scale=1\"/><title>");
    push_chars(&mut out, &esc_title);
    out.append("</title><style>");
    let css = theme_css(theme);
    out.append(css.as_str());
    out.append("</style></head><body><main>");
    push_chars(&mut out, &body);
    out.append("</main></body></html>");
    assert(out@ =~= html_spec(
        parts.title@,
        parts.original@,
        opt_view(parts.translated),
        opt_view(parts.digest),
        iv,
        theme@,
        scope@,
    ));
    out
}

/// Base64 encoding used for embedded images.
pub fn b64_encode(bytes: &[u8]) -> (r: String)
    ensures
        r@ == b64(bytes@),
{
    base64_encode(bytes)
}

proof fn lemma_prefix_plus(a: Seq<char>, b: Seq<char>)
    ensures
        starts_with(a + b, a),
{
    assert((a + b).subrange(0, a.len() as int) =~= a);
}

proof fn lemma_prefix_chain(a: Seq<char>, b: Seq<char>, c: Seq<char>)
    requires
        starts_with(b, a),
        starts_with(c, b),
    ensures
        starts_with(c, a),
{
    assert(c.subrange(0, a.len() as int) =~= b.subrange(0, a.len() as int));
}

/// Law: whatever the scope, the Markdown export begins with the paper's
/// title as a level-one heading and the export note, and the HTML export's
/// page title is the paper's title, escaped.
pub proof fn law_export_title(
    title: Seq<char>,
    original: Seq<char>,
    translated: Option<Seq<char>>,
    digest: Option<Seq<char>>,
    images: Seq<(Seq<char>, Seq<char>, Option<Seq<u8>>)>,
    theme: Seq<char>,
    scope: Seq<char>,
)
    ensures
        starts_with(
            markdown_spec(title, original, translated, digest, scope),
            "# "@ + title + "\n\n"@ + "> 由 Rd学术阅读器导出\n\n"@,
        ),
        starts_with(
            html_spec(title, original, translated, digest, images, theme, scope),
            "<!DOCTYPE html><html lang=\"zh-CN\"><head><meta charset=\"utf-8\"/><meta name=\"viewport\" content=\"width=device-width, initial-scale=1\"/><title>"@
                + escape(title) + "</title><style>"@,
        ),
{
    let m = markdown_spec(title, original, translated, digest, scope);
    let p = "# "@ + title + "\n\n"@ + "> 由 Rd学术阅读器导出\n\n"@;
    assert(m.subrange(0, p.len() as int) =~= p);
    let q = "<!DOCTYPE html><html lang=\"zh-CN\"><head><meta charset=\"utf-8\"/><meta name=\"viewport\" content=\"width=device-width, initial-scale=1\"/><title>"@
        + escape(title) + "</title><style>"@;
    let css = theme_css_spec(theme);
    let body = "<h1>"@ + escape(title) + "</h1>\n<p class=\"meta\">由 Rd学术阅读器导出</p>\n"@ + join(
        html_sections(original, translated, digest, images, scope),
        "\n<hr/>\n"@,
    );
    let h2 = q + css;
    let h3 = h2 + "</style></head><body><main>"@;
    let h4 = h3 + body;
    let h5 = h4 + "</main></body></html>"@;
    lemma_prefix_plus(q, css);
    lemma_prefix_plus(h2, "</style></head><body><main>"@);
    lemma_prefix_chain(q, h2, h3);
    lemma_prefix_plus(h3, body);
    lemma_prefix_chain(q, h3, h4);
    lemma_prefix_plus(h4, "</main></body></html>"@);
    lemma_prefix_chain(q, h4, h5);
    assert(html_spec(title, original, translated, digest, images, theme, scope) == h5);
}

} // verus!
