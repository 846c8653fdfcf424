//! Notes: file-name rules, the HTML wrapper of an exported note, renaming
//! decisions and find-and-replace. Notes are plain `.md` files that the
//! application reads and writes.
use vstd::prelude::*;
use crate::export::{md_to_html, ImageFile, images_view, md_html};
use crate::html::{escape, escape_v};
use crate::rank::first_n;
use crate::text::{
    append_str, ascii_upper, trim_start, trim_end, upper_char, chars_of, eq_v, find_from, find_v, is_control, lemma_find_from_props,
    push_chars, slice_v, string_of, trim, trim_v, trim_start_v, upper_v, is_ws,
};

verus! {

/// Characters no file name may hold on Windows or macOS.
pub open spec fn illegal(c: char) -> bool {
    c == '/' || c == '\\' || c == ':' || c == '*' || c == '?' || c == '"' || c == '<' || c == '>'
        || c == '|' || c == '\0'
}

/// The characters of `s` that may stand in a file name.
pub open spec fn kept_chars(s: Seq<char>) -> Seq<char>
    decreases s.len(),
{
    if s.len() == 0 {
        Seq::empty()
    } else {
        let r = kept_chars(s.drop_last());
        if !illegal(s.last()) && !is_control(s.last()) {
            r.push(s.last())
        } else {
            r
        }
    }
}

/// `s` without its trailing dots and white space (Windows drops trailing
/// dots and spaces from file names silently).
pub open spec fn trim_end_dots(s: Seq<char>) -> Seq<char>
    decreases s.len(),
{
    if s.len() > 0 && (s.last() == '.' || is_ws(s.last())) {
        trim_end_dots(s.drop_last())
    } else {
        s
    }
}

/// Device names Windows reserves.
pub open spec fn reserved_names() -> Seq<&'static str> {
    seq![
        "CON", "PRN", "AUX", "NUL", "COM1", "COM2", "COM3", "COM4", "COM5", "COM6", "COM7",
        "COM8", "COM9", "LPT1", "LPT2", "LPT3", "LPT4", "LPT5", "LPT6", "LPT7", "LPT8", "LPT9",
    ]
}

pub open spec fn is_reserved(s: Seq<char>) -> bool {
    exists|k: int| 0 <= k < reserved_names().len() && (#[trigger] reserved_names()[k])@ == ascii_upper(s)
}

/// The cleaned name before the fallback: at most 120 admissible characters,
/// without leading white space and without trailing dots and white space.
pub open spec fn name_core(name: Seq<char>) -> Seq<char> {
    trim_start(trim_end_dots(first_n(kept_chars(name), 120)))
}

/// The file name a note is stored under.
pub open spec fn sanitized(name: Seq<char>) -> Seq<char> {
    let c = name_core(name);
    if c.len() == 0 {
        "未命名笔记"@
    } else if is_reserved(c) {
        c + "_"@
    } else {
        c
    }
}

/// Normalize a note's name into a file name valid on Windows and macOS:
/// illegal and control characters go, at most 120 characters stay, leading
/// white space and trailing dots and white space go, an empty name becomes
/// "未命名笔记", and a reserved device name gets a trailing `_`.
pub fn sanitize_name(name: &str) -> (r: String)
    ensures
        r@ == sanitized(name@),
        r@.len() > 0,
        r@.last() != '.',
        !is_ws(r@.last()),
{
    proof {
        law_sanitized_name_is_valid(name@);
    }
    let v = chars_of(name);
    let mut kept: Vec<char> = Vec::new();
    let mut i: usize = 0;
    while i < v.len()
        invariant
            i <= v.len(),
            kept@ == kept_chars(v@.take(i as int)),
        decreases v.len() - i,
    {
        proof {
            let t = v@.take(i + 1);
            assert(t.drop_last() =~= v@.take(i as int));
        }
        let c = v[i];
        let bad = c == '/' || c == '\\' || c == ':' || c == '*' || c == '?' || c == '"' || c == '<'
            || c == '>' || c == '|' || c == '\0';
        if !bad && !crate::text::control(c) {
            kept.push(c);
        }
        i += 1;
    }
    assert(v@.take(v.len() as int) =~= v@);
    let head = crate::rank::first_n_v(&kept, 120);
    let mut n = head.len();
    assert(head@.take(n as int) =~= head@);
    while n > 0 && (head[n - 1] == '.' || crate::text::ws(head[n - 1]))
        invariant
            n <= head.len(),
            trim_end_dots(head@) == trim_end_dots(head@.take(n as int)),
        decreases n,
    {
        proof {
            assert(head@.take(n as int).drop_last() =~= head@.take(n - 1));
        }
        n -= 1;
    }
    let t2 = slice_v(&head, 0, n);
    assert(t2@ =~= head@.take(n as int));
    let core = trim_start_v(&t2);
    if core.len() == 0 {
        let mut s = String::new();
        s.append("未命名笔记");
        return s;
    }
    let up = upper_v(&core);
    let names: Vec<&'static str> = vec![
        "CON", "PRN", "AUX", "NUL", "COM1", "COM2", "COM3", "COM4", "COM5", "COM6", "COM7",
        "COM8", "COM9", "LPT1", "LPT2", "LPT3", "LPT4", "LPT5", "LPT6", "LPT7", "LPT8", "LPT9",
    ];
    assert(names@ == reserved_names());
    let mut k: usize = 0;
    let mut reserved = false;
    while k < names.len()
        invariant
            k <= names.len(),
            names@ == reserved_names(),
            !reserved ==> forall|j: int| 0 <= j < k ==> (#[trigger] reserved_names()[j])@ != up@,
            reserved ==> is_reserved(core@),
            up@ == ascii_upper(core@),
        decreases names.len() - k,
    {
        if !reserved && eq_v(&chars_of(names[k]), &up) {
            reserved = true;
        }
        k += 1;
    }
    let mut s = string_of(&core);
    if reserved {
        s.append("_");
    }
    s
}

/// The title of an exported note, escaped, in its HTML page.
pub open spec fn wrapped(title: Seq<char>, body: Seq<char>) -> Seq<char> {
    let t = escape(title);
    "<!DOCTYPE html><html lang=\"zh\"><head><meta charset=\"utf-8\"><title>"@ + t + "</title><style>\nbody{max-width:800px;margin:40px auto;padding:0 24px;font-family:-apple-system,\"PingFang SC\",\"Hiragino Sans GB\",\"Microsoft YaHei\",sans-serif;line-height:1.75;color:#2d3748}\nh1{font-size:1.6em;border-bottom:1px solid #e2e8f0;padding-bottom:.4em}\nblockquote{border-left:3px solid #cbd5e0;margin:1em 0;padding:.3em 1em;color:#4a5568;background:#f7fafc}\npre{background:#f7fafc;padding:1em;overflow-x:auto;border-radius:6px}\ncode{background:#f7fafc;padding:.15em .4em;border-radius:4px}\nimg{max-width:100%}\ntable{border-collapse:collapse} td,th{border:1px solid #e2e8f0;padding:.4em .7em}\n@media (prefers-color-scheme:dark){body{background:#1a202c;color:#e2e8f0}blockquote,pre,code{background:#2d3748}h1{border-color:#4a5568}td,th{border-color:#4a5568}}\n</style></head><body><h1>"@ + t + "</h1>"@ + body + "</body></html>"@
}

/// Wrap a note's HTML body into a complete page (light and dark schemes).
pub fn wrap_html(title: &str, body: &str) -> (r: String)
    ensures
        r@ == wrapped(title@, body@),
{
    let t = escape_v(&chars_of(title));
    let mut s = String::new();
    s.append("<!DOCTYPE html><html lang=\"zh\"><head><meta charset=\"utf-8\"><title>");
    push_chars(&mut s, &t);
    s.append("</title><style>\nbody{max-width:800px;margin:40px auto;padding:0 24px;font-family:-apple-system,\"PingFang SC\",\"Hiragino Sans GB\",\"Microsoft YaHei\",sans-serif;line-height:1.75;color:#2d3748}\nh1{font-size:1.6em;border-bottom:1px solid #e2e8f0;padding-bottom:.4em}\nblockquote{border-left:3px solid #cbd5e0;margin:1em 0;padding:.3em 1em;color:#4a5568;background:#f7fafc}\npre{background:#f7fafc;padding:1em;overflow-x:auto;border-radius:6px}\ncode{background:#f7fafc;padding:.15em .4em;border-radius:4px}\nimg{max-width:100%}\ntable{border-collapse:collapse} td,th{border:1px solid #e2e8f0;padding:.4em .7em}\n@media (prefers-color-scheme:dark){body{background:#1a202c;color:#e2e8f0}blockquote,pre,code{background:#2d3748}h1{border-color:#4a5568}td,th{border-color:#4a5568}}\n</style></head><body><h1>");
    push_chars(&mut s, &t);
    s.append("</h1>");
    s.append(body);
    s.append("</body></html>");
    s
}

/// A note in the note list.
#[derive(Clone, Debug)]
pub struct NoteMeta {
    pub name: String,
    pub updated_at: String,
    pub size: u64,
}

/// The file content of an exported note: the Markdown itself, or for
/// `html` the rendered page.
pub open spec fn export_body(name: Seq<char>, content: Seq<char>, format: Seq<char>, images: Seq<(Seq<char>, Seq<char>, Option<Seq<u8>>)>) -> Seq<char> {
    if format == "html"@ {
        wrapped(name, md_html(content, images))
    } else {
        content
    }
}

pub fn note_export_body(name: &str, content: &str, format: &str, images: &Vec<ImageFile>) -> (r: String)
    ensures
        r@ == export_body(name@, content@, format@, images_view(images@)),
{
    if eq_v(&chars_of(format), &chars_of("html")) {
        let body = md_to_html(content, images);
        wrap_html(name, body.as_str())
    } else {
        let mut s = String::new();
        s.append(content);
        s
    }
}

/// What renaming a note comes to.
pub enum RenameStep {
    /// The note does not exist: the error message.
    Missing(String),
    /// Old and new name are the same file: nothing to do.
    Same(String),
    /// Another note already has the new name: the error message.
    Taken(String),
    /// Move the file from the first name to the second.
    Move(String, String),
}

/// Decide a rename from the two cleaned names and whether their files
/// exist; an existing note is never overwritten.
pub fn rename_step(old_name: &str, new_name: &str, src_exists: bool, dst_exists: bool) -> (r: RenameStep)
    ensures
        !src_exists ==> (r matches RenameStep::Missing(m) && m@ == "笔记「"@ + old_name@ + "」不存在"@),
        src_exists && sanitized(old_name@) == sanitized(new_name@) ==> (r matches RenameStep::Same(n)
            && n@ == sanitized(new_name@)),
        src_exists && sanitized(old_name@) != sanitized(new_name@) && dst_exists ==> (r matches RenameStep::Taken(m)
            && m@ == "已存在同名笔记「"@ + sanitized(new_name@) + "」，请换一个名称"@),
        src_exists && sanitized(old_name@) != sanitized(new_name@) && !dst_exists ==> (r matches RenameStep::Move(a, b)
            && a@ == sanitized(old_name@) && b@ == sanitized(new_name@)),
{
    let from = sanitize_name(old_name);
    let to = sanitize_name(new_name);
    if !src_exists {
        let mut m = String::new();
        m.append("笔记「");
        m.append(old_name);
        m.append("」不存在");
        return RenameStep::Missing(m);
    }
    if eq_v(&chars_of(from.as_str()), &chars_of(to.as_str())) {
        return RenameStep::Same(to);
    }
    if dst_exists {
        let mut m = String::new();
        m.append("已存在同名笔记「");
        m.append(to.as_str());
        m.append("」，请换一个名称");
        return RenameStep::Taken(m);
    }
    RenameStep::Move(from, to)
}

/// Number of non-overlapping occurrences of `p` in `s` from `start`,
/// scanning left to right.
pub open spec fn match_count(s: Seq<char>, p: Seq<char>, start: int) -> nat
    decreases s.len() + 1 - start,
{
    if p.len() == 0 || start < 0 {
        0
    } else {
        match find_from(s, p, start) {
            None => 0,
            Some(i) => {
                proof {
                    lemma_find_from_props(s, p, start);
                }
                1 + match_count(s, p, i + p.len())
            },
        }
    }
}

/// `s[start..]` with every non-overlapping occurrence of `p` replaced by `r`.
pub open spec fn replaced(s: Seq<char>, p: Seq<char>, r: Seq<char>, start: int) -> Seq<char>
    decreases s.len() + 1 - start,
{
    if p.len() == 0 || start < 0 || start > s.len() {
        Seq::empty()
    } else {
        match find_from(s, p, start) {
            None => s.subrange(start, s.len() as int),
            Some(i) => {
                proof {
                    lemma_find_from_props(s, p, start);
                }
                s.subrange(start, i) + r + replaced(s, p, r, i + p.len())
            },
        }
    }
}

/// Find and replace in one note: the number of occurrences of `search` and
/// the new content; an empty `search` is refused.
pub fn replace_in_note(content: &str, search: &str, replace: &str) -> (r: Result<(usize, String), String>)
    ensures
        search@.len() == 0 <==> r is Err,
        r matches Err(m) ==> m@ == "查找内容不能为空"@,
        r matches Ok((n, t)) ==> n == match_count(content@, search@, 0) && t@ == replaced(
            content@,
            search@,
            replace@,
            0,
        ),
{
    let s = chars_of(content);
    let p = chars_of(search);
    let rep = chars_of(replace);
    if p.len() == 0 {
        let mut m = String::new();
        m.append("查找内容不能为空");
        return Err(m);
    }
    let mut out: Vec<char> = Vec::new();
    let mut count: usize = 0;
    let mut start: usize = 0;
    loop
        invariant_except_break
            start <= s.len(),
            p.len() > 0,
            count <= start,
            count + match_count(s@, p@, start as int) == match_count(s@, p@, 0),
            out@ + replaced(s@, p@, rep@, start as int) == replaced(s@, p@, rep@, 0),
        ensures
            count == match_count(s@, p@, 0),
            out@ == replaced(s@, p@, rep@, 0),
        decreases s.len() + 1 - start,
    {
        proof {
            lemma_find_from_props(s@, p@, start as int);
        }
        match find_v(&s, &p, start) {
            None => {
                let tail = slice_v(&s, start, s.len());
                let ghost before = out@;
                crate::text::append_v(&mut out, &tail);
                assert(out@ =~= before + replaced(s@, p@, rep@, start as int));
                break;
            },
            Some(i) => {
                let mid = slice_v(&s, start, i);
                let ghost before = out@;
                crate::text::append_v(&mut out, &mid);
                crate::text::append_v(&mut out, &rep);
                assert(before + replaced(s@, p@, rep@, start as int) =~= out@ + replaced(s@, p@, rep@, i + p.len()));
                count += 1;
                start = i + p.len();
            },
        }
    }
    Ok((count, string_of(&out)))
}

/// No character of `s` is illegal in a file name or a control character.
pub open spec fn clean_chars(s: Seq<char>) -> bool {
    forall|i: int| 0 <= i < s.len() ==> !illegal(#[trigger] s[i]) && !is_control(s[i])
}

proof fn lemma_clean_sub(s: Seq<char>, a: int, b: int)
    requires
        clean_chars(s),
        0 <= a <= b <= s.len(),
    ensures
        clean_chars(s.subrange(a, b)),
{
    assert forall|i: int| 0 <= i < s.subrange(a, b).len() implies !illegal(#[trigger] s.subrange(a, b)[i])
        && !is_control(s.subrange(a, b)[i]) by {
        assert(s.subrange(a, b)[i] == s[a + i]);
    }
}

proof fn lemma_kept_clean(s: Seq<char>)
    ensures
        clean_chars(kept_chars(s)),
    decreases s.len(),
{
    if s.len() > 0 {
        lemma_kept_clean(s.drop_last());
    }
}

proof fn lemma_trim_start_clean(s: Seq<char>)
    requires
        clean_chars(s),
    ensures
        clean_chars(trim_start(s)),
    decreases s.len(),
{
    if s.len() > 0 && crate::text::is_ws(s[0]) {
        lemma_clean_sub(s, 1, s.len() as int);
        lemma_trim_start_clean(s.subrange(1, s.len() as int));
    }
}

proof fn lemma_dots_clean(s: Seq<char>)
    requires
        clean_chars(s),
    ensures
        clean_chars(trim_end_dots(s)),
    decreases s.len(),
{
    if s.len() > 0 && (s.last() == '.' || is_ws(s.last())) {
        lemma_clean_sub(s, 0, s.len() - 1);
        assert(s.drop_last() =~= s.subrange(0, s.len() - 1));
        lemma_dots_clean(s.drop_last());
    }
}

proof fn lemma_dots_end(s: Seq<char>)
    ensures
        trim_end_dots(s).len() <= s.len(),
        trim_end_dots(s).len() > 0 ==> trim_end_dots(s).last() != '.' && !is_ws(
            trim_end_dots(s).last(),
        ),
    decreases s.len(),
{
    if s.len() > 0 && (s.last() == '.' || is_ws(s.last())) {
        lemma_dots_end(s.drop_last());
    }
}

proof fn lemma_trim_start_suffix(s: Seq<char>)
    ensures
        trim_start(s).len() <= s.len(),
        trim_start(s).len() > 0 ==> trim_start(s).last() == s.last(),
    decreases s.len(),
{
    if s.len() > 0 && crate::text::is_ws(s[0]) {
        let t = s.subrange(1, s.len() as int);
        lemma_trim_start_suffix(t);
    }
}

/// The last character of every reserved device name is a letter or a digit.
proof fn lemma_reserved_shape(x: Seq<char>)
    requires
        is_reserved(x),
    ensures
        3 <= x.len() <= 4,
        x.last() != '_',
{
    reveal_strlit("CON");
    reveal_strlit("PRN");
    reveal_strlit("AUX");
    reveal_strlit("NUL");
    reveal_strlit("COM1");
    reveal_strlit("COM2");
    reveal_strlit("COM3");
    reveal_strlit("COM4");
    reveal_strlit("COM5");
    reveal_strlit("COM6");
    reveal_strlit("COM7");
    reveal_strlit("COM8");
    reveal_strlit("COM9");
    reveal_strlit("LPT1");
    reveal_strlit("LPT2");
    reveal_strlit("LPT3");
    reveal_strlit("LPT4");
    reveal_strlit("LPT5");
    reveal_strlit("LPT6");
    reveal_strlit("LPT7");
    reveal_strlit("LPT8");
    reveal_strlit("LPT9");
    let k = choose|k: int| 0 <= k < reserved_names().len() && (#[trigger] reserved_names()[k])@ == ascii_upper(x);
    assert(ascii_upper(x).len() == x.len());
    assert(ascii_upper(x).last() == upper_char(x.last()));
}

/// A stored note name is never empty, holds no character that Windows or
/// macOS refuse in a file name nor a control character, has at most 121
/// characters, does not end with a dot or white space, and is not a device
/// name Windows reserves.
pub proof fn law_sanitized_name_is_valid(name: Seq<char>)
    ensures
        sanitized(name).len() > 0,
        clean_chars(sanitized(name)),
        sanitized(name).len() <= 121,
        sanitized(name).last() != '.',
        !is_ws(sanitized(name).last()),
        !is_reserved(sanitized(name)),
{
    let k = kept_chars(name);
    lemma_kept_clean(name);
    let f = first_n(k, 120);
    if k.len() > 120 {
        lemma_clean_sub(k, 0, 120);
        assert(f =~= k.subrange(0, 120));
    }
    lemma_dots_clean(f);
    lemma_dots_end(f);
    let d = trim_end_dots(f);
    lemma_trim_start_clean(d);
    lemma_trim_start_suffix(d);
    let c = name_core(name);
    assert(c == trim_start(d));
    if c.len() == 0 {
        reveal_strlit("未命名笔记");
        let r = "未命名笔记"@;
        assert(clean_chars(r));
        if is_reserved(r) {
            lemma_reserved_shape(r);
        }
    } else if is_reserved(c) {
        reveal_strlit("_");
        let r = c + "_"@;
        assert forall|i: int| 0 <= i < r.len() implies !illegal(#[trigger] r[i]) && !is_control(r[i]) by {
            if i < c.len() {
                assert(r[i] == c[i]);
            } else {
                assert(r[i] == '_');
            }
        }
        assert(r.last() == '_');
        if is_reserved(r) {
            lemma_reserved_shape(r);
        }
    }
}

proof fn lemma_kept_clean_identity(s: Seq<char>)
    requires
        clean_chars(s),
    ensures
        kept_chars(s) == s,
    decreases s.len(),
{
    if s.len() > 0 {
        lemma_clean_sub(s, 0, s.len() - 1);
        assert(s.drop_last() =~= s.subrange(0, s.len() - 1));
        lemma_kept_clean_identity(s.drop_last());
        assert(s.drop_last().push(s.last()) =~= s);
    }
}

/// Law: a name that is already a valid file name is stored as it is. Every
/// character that is neither illegal in a file name nor a control
/// character is kept, so a name of at most 120 such characters that starts
/// with no white space, ends with neither a dot nor white space, and is not
/// a reserved device name comes back unchanged.
pub proof fn law_valid_name_unchanged(name: Seq<char>)
    requires
        0 < name.len() <= 120,
        clean_chars(name),
        !is_ws(name[0]),
        name.last() != '.',
        !is_ws(name.last()),
        !is_reserved(name),
    ensures
        sanitized(name) == name,
{
    lemma_kept_clean_identity(name);
    assert(first_n(kept_chars(name), 120) == name);
    assert(trim_end_dots(name) == name);
    assert(trim_start(name) == name);
    assert(name_core(name) == name);
}

} // verus!
