//! HTML escaping and inline Markdown (code spans, bold, italics).
use vstd::prelude::*;
use crate::text::{
    append_str, append_v, chars_of, split_char, split_char_v, split_str, split_str_v, string_of,
    views,
};

verus! {

pub open spec fn esc_char(c: char) -> Seq<char> {
    if c == '&' {
        "&amp;"@
    } else if c == '<' {
        "&lt;"@
    } else if c == '>' {
        "&gt;"@
    } else if c == '"' {
        "&quot;"@
    } else {
        seq![c]
    }
}

/// `&`, `<`, `>` and `"` replaced by their entities (the same as replacing
/// them one after the other, `&` first).
pub open spec fn escape(s: Seq<char>) -> Seq<char>
    decreases s.len(),
{
    if s.len() == 0 {
        Seq::empty()
    } else {
        escape(s.drop_last()) + esc_char(s.last())
    }
}

pub fn escape_v(s: &Vec<char>) -> (r: Vec<char>)
    ensures
        r@ == escape(s@),
{
    let mut r: Vec<char> = Vec::new();
    let mut i: usize = 0;
    while i < s.len()
        invariant
            i <= s.len(),
            r@ == escape(s@.subrange(0, i as int)),
        decreases s.len() - i,
    {
        let c = s[i];
        proof {
            assert(s@.subrange(0, i + 1).drop_last() =~= s@.subrange(0, i as int));
        }
        if c == '&' {
            append_str(&mut r, "&amp;");
        } else if c == '<' {
            append_str(&mut r, "&lt;");
        } else if c == '>' {
            append_str(&mut r, "&gt;");
        } else if c == '"' {
            append_str(&mut r, "&quot;");
        } else {
            r.push(c);
        }
        i += 1;
    }
    assert(s@.subrange(0, s.len() as int) =~= s@);
    r
}

/// Escape text for HTML.
pub fn escape_html(s: &str) -> (r: String)
    ensures
        r@ == escape(s@),
{
    string_of(&escape_v(&chars_of(s)))
}

/// Concatenation of `parts`, the odd-numbered ones wrapped in `open` ..
/// `close` (empty ones left bare when `skip_empty`).
pub open spec fn alt_wrap(parts: Seq<Seq<char>>, open: Seq<char>, close: Seq<char>, skip_empty: bool) -> Seq<char>
    decreases parts.len(),
{
    if parts.len() == 0 {
        Seq::empty()
    } else {
        let k = parts.len() - 1;
        let p = parts.last();
        alt_wrap(parts.drop_last(), open, close, skip_empty) + if k % 2 == 1 && !(skip_empty
            && p.len() == 0) {
            open + p + close
        } else {
            p
        }
    }
}

fn alt_wrap_v(parts: &Vec<Vec<char>>, open: &str, close: &str, skip_empty: bool) -> (r: Vec<char>)
    ensures
        r@ == alt_wrap(views(parts@), open@, close@, skip_empty),
{
    let ghost pv = views(parts@);
    let mut r: Vec<char> = Vec::new();
    let mut i: usize = 0;
    while i < parts.len()
        invariant
            i <= parts.len(),
            pv == views(parts@),
            r@ == alt_wrap(pv.subrange(0, i as int), open@, close@, skip_empty),
        decreases parts.len() - i,
    {
        proof {
            let a = pv.subrange(0, i + 1);
            assert(a.drop_last() =~= pv.subrange(0, i as int));
            assert(a.last() == parts@[i as int]@);
        }
        if i % 2 == 1 && !(skip_empty && parts[i].len() == 0) {
            append_str(&mut r, open);
            append_v(&mut r, &parts[i]);
            append_str(&mut r, close);
        } else {
            append_v(&mut r, &parts[i]);
        }
        i += 1;
    }
    assert(pv.subrange(0, parts.len() as int) =~= pv);
    r
}

/// Inline Markdown of escaped text: `` `code` ``, then `**bold**`, then
/// `*italics*` (non-empty ones).
pub open spec fn inline_spec(s: Seq<char>) -> Seq<char> {
    let a = alt_wrap(split_char(escape(s), '`'), "<code>"@, "</code>"@, false);
    let b = alt_wrap(split_str(a, "**"@), "<strong>"@, "</strong>"@, false);
    alt_wrap(split_char(b, '*'), "<em>"@, "</em>"@, true)
}

pub fn inline_v(s: &Vec<char>) -> (r: Vec<char>)
    ensures
        r@ == inline_spec(s@),
{
    let e = escape_v(s);
    let a = alt_wrap_v(&split_char_v(&e, '`'), "<code>", "</code>", false);
    let star2 = chars_of("**");
    proof {
        reveal_strlit("**");
    }
    let b = alt_wrap_v(&split_str_v(&a, &star2), "<strong>", "</strong>", false);
    alt_wrap_v(&split_char_v(&b, '*'), "<em>", "</em>", true)
}

/// Inline Markdown (bold, italics, code spans) of a line, HTML-escaped.
pub fn inline_html(s: &str) -> (r: String)
    ensures
        r@ == inline_spec(s@),
{
    string_of(&inline_v(&chars_of(s)))
}

} // verus!
