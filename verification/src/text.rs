//! Character-level text model shared by every module.
//!
//! Text is modelled as `Seq<char>` (the view of `str` and `String`).  The
//! spec functions below state what the standard string operations used by
//! the library mean; the executable functions compute them over `Vec<char>`.
use vstd::prelude::*;

verus! {

// ---------------------------------------------------------------------------
// Character classes
// ---------------------------------------------------------------------------

/// Unicode `White_Space` (what `char::is_whitespace` tests).
pub open spec fn is_ws(c: char) -> bool {
    let u = c as u32;
    (9 <= u && u <= 13) || u == 32 || u == 0x85 || u == 0xA0 || u == 0x1680 || (0x2000 <= u
        && u <= 0x200A) || u == 0x2028 || u == 0x2029 || u == 0x202F || u == 0x205F || u
        == 0x3000
}

/// Unicode general category `Cc` (what `char::is_control` tests).
pub open spec fn is_control(c: char) -> bool {
    let u = c as u32;
    u <= 0x1F || (0x7F <= u && u <= 0x9F)
}

pub open spec fn is_digit(c: char) -> bool {
    '0' <= c && c <= '9'
}

pub open spec fn is_lower(c: char) -> bool {
    'a' <= c && c <= 'z'
}

pub open spec fn is_upper(c: char) -> bool {
    'A' <= c && c <= 'Z'
}

pub open spec fn is_alpha(c: char) -> bool {
    is_lower(c) || is_upper(c)
}

pub open spec fn is_alnum(c: char) -> bool {
    is_alpha(c) || is_digit(c)
}

pub open spec fn is_ascii_char(c: char) -> bool {
    (c as u32) < 128
}

pub fn ws(c: char) -> (r: bool)
    ensures
        r == is_ws(c),
{
    let u = c as u32;
    (9 <= u && u <= 13) || u == 32 || u == 0x85 || u == 0xA0 || u == 0x1680 || (0x2000 <= u
        && u <= 0x200A) || u == 0x2028 || u == 0x2029 || u == 0x202F || u == 0x205F || u
        == 0x3000
}

pub fn control(c: char) -> (r: bool)
    ensures
        r == is_control(c),
{
    let u = c as u32;
    u <= 0x1F || (0x7F <= u && u <= 0x9F)
}

pub fn digit(c: char) -> (r: bool)
    ensures
        r == is_digit(c),
{
    '0' <= c && c <= '9'
}

pub fn alnum(c: char) -> (r: bool)
    ensures
        r == is_alnum(c),
{
    ('a' <= c && c <= 'z') || ('A' <= c && c <= 'Z') || ('0' <= c && c <= '9')
}

pub fn ascii_char(c: char) -> (r: bool)
    ensures
        r == is_ascii_char(c),
{
    (c as u32) < 128
}

/// ASCII lower-casing of one character (`char::to_ascii_lowercase`).
pub open spec fn lower_char(c: char) -> char {
    if is_upper(c) {
        ((c as u32) + 32) as char
    } else {
        c
    }
}

/// ASCII upper-casing of one character (`char::to_ascii_uppercase`).
pub open spec fn upper_char(c: char) -> char {
    if is_lower(c) {
        ((c as u32) - 32) as char
    } else {
        c
    }
}

pub fn to_lower_char(c: char) -> (r: char)
    ensures
        r == lower_char(c),
{
    if 'A' <= c && c <= 'Z' {
        let u = c as u32 + 32;
        assert(u < 0xD800);
        char_of_u32(u)
    } else {
        c
    }
}

pub fn to_upper_char(c: char) -> (r: char)
    ensures
        r == upper_char(c),
{
    if 'a' <= c && c <= 'z' {
        let u = c as u32 - 32;
        char_of_u32(u)
    } else {
        c
    }
}

/// `char::from_u32` on a value known to be a scalar value below the surrogates.
#[verifier::external_body]
pub(crate) fn char_of_u32(u: u32) -> (c: char)
    requires
        u < 0xD800,
    ensures
        c == u as char,
        c as u32 == u,
{
    char::from_u32(u).unwrap()
}

pub open spec fn ascii_lower(s: Seq<char>) -> Seq<char> {
    s.map_values(|c: char| lower_char(c))
}

pub open spec fn ascii_upper(s: Seq<char>) -> Seq<char> {
    s.map_values(|c: char| upper_char(c))
}

// ---------------------------------------------------------------------------
// Trimming
// ---------------------------------------------------------------------------

pub open spec fn trim_start(s: Seq<char>) -> Seq<char>
    decreases s.len(),
{
    if s.len() > 0 && is_ws(s[0]) {
        trim_start(s.subrange(1, s.len() as int))
    } else {
        s
    }
}

pub open spec fn trim_end(s: Seq<char>) -> Seq<char>
    decreases s.len(),
{
    if s.len() > 0 && is_ws(s[s.len() - 1]) {
        trim_end(s.subrange(0, s.len() - 1))
    } else {
        s
    }
}

/// `str::trim`.
pub open spec fn trim(s: Seq<char>) -> Seq<char> {
    trim_end(trim_start(s))
}

/// `str::trim_start_matches(c)` for a single character.
pub open spec fn trim_start_char(s: Seq<char>, c: char) -> Seq<char>
    decreases s.len(),
{
    if s.len() > 0 && s[0] == c {
        trim_start_char(s.subrange(1, s.len() as int), c)
    } else {
        s
    }
}

/// `str::trim_end_matches(c)` for a single character.
pub open spec fn trim_end_char(s: Seq<char>, c: char) -> Seq<char>
    decreases s.len(),
{
    if s.len() > 0 && s[s.len() - 1] == c {
        trim_end_char(s.subrange(0, s.len() - 1), c)
    } else {
        s
    }
}

proof fn lemma_trim_start_sub(s: Seq<char>, i: int)
    requires
        0 <= i < s.len(),
        is_ws(s[i]),
    ensures
        trim_start(s.subrange(i, s.len() as int)) == trim_start(s.subrange(i + 1, s.len() as int)),
{
    let t = s.subrange(i, s.len() as int);
    assert(t.subrange(1, t.len() as int) =~= s.subrange(i + 1, s.len() as int));
}

proof fn lemma_trim_end_sub(s: Seq<char>, j: int)
    requires
        0 < j <= s.len(),
        is_ws(s[j - 1]),
    ensures
        trim_end(s.subrange(0, j)) == trim_end(s.subrange(0, j - 1)),
{
    let t = s.subrange(0, j);
    assert(t.subrange(0, t.len() - 1) =~= s.subrange(0, j - 1));
}

proof fn lemma_trim_start_char_sub(s: Seq<char>, c: char, i: int)
    requires
        0 <= i < s.len(),
        s[i] == c,
    ensures
        trim_start_char(s.subrange(i, s.len() as int), c) == trim_start_char(
            s.subrange(i + 1, s.len() as int),
            c,
        ),
{
    let t = s.subrange(i, s.len() as int);
    assert(t.subrange(1, t.len() as int) =~= s.subrange(i + 1, s.len() as int));
}

proof fn lemma_trim_end_char_sub(s: Seq<char>, c: char, j: int)
    requires
        0 < j <= s.len(),
        s[j - 1] == c,
    ensures
        trim_end_char(s.subrange(0, j), c) == trim_end_char(s.subrange(0, j - 1), c),
{
    let t = s.subrange(0, j);
    assert(t.subrange(0, t.len() - 1) =~= s.subrange(0, j - 1));
}

/// Copy of `v[lo..hi]`.
pub fn slice_v(v: &Vec<char>, lo: usize, hi: usize) -> (r: Vec<char>)
    requires
        lo <= hi <= v.len(),
    ensures
        r@ == v@.subrange(lo as int, hi as int),
{
    let mut r: Vec<char> = Vec::new();
    let mut i = lo;
    while i < hi
        invariant
            lo <= i <= hi <= v.len(),
            r@ == v@.subrange(lo as int, i as int),
        decreases hi - i,
    {
        r.push(v[i]);
        i += 1;
    }
    r
}

pub fn trim_start_v(v: &Vec<char>) -> (r: Vec<char>)
    ensures
        r@ == trim_start(v@),
{
    let n = v.len();
    let mut i: usize = 0;
    assert(v@.subrange(0, n as int) =~= v@);
    while i < n && ws(v[i])
        invariant
            i <= n == v.len(),
            trim_start(v@) == trim_start(v@.subrange(i as int, n as int)),
        decreases n - i,
    {
        proof {
            lemma_trim_start_sub(v@, i as int);
        }
        i += 1;
    }
    slice_v(v, i, n)
}

pub fn trim_end_v(v: &Vec<char>) -> (r: Vec<char>)
    ensures
        r@ == trim_end(v@),
{
    let mut j: usize = v.len();
    assert(v@.subrange(0, j as int) =~= v@);
    while j > 0 && ws(v[j - 1])
        invariant
            j <= v.len(),
            trim_end(v@) == trim_end(v@.subrange(0, j as int)),
        decreases j,
    {
        proof {
            lemma_trim_end_sub(v@, j as int);
        }
        j -= 1;
    }
    slice_v(v, 0, j)
}

pub fn trim_v(v: &Vec<char>) -> (r: Vec<char>)
    ensures
        r@ == trim(v@),
{
    let a = trim_start_v(v);
    trim_end_v(&a)
}

pub fn trim_start_char_v(v: &Vec<char>, c: char) -> (r: Vec<char>)
    ensures
        r@ == trim_start_char(v@, c),
{
    let n = v.len();
    let mut i: usize = 0;
    assert(v@.subrange(0, n as int) =~= v@);
    while i < n && v[i] == c
        invariant
            i <= n == v.len(),
            trim_start_char(v@, c) == trim_start_char(v@.subrange(i as int, n as int), c),
        decreases n - i,
    {
        proof {
            lemma_trim_start_char_sub(v@, c, i as int);
        }
        i += 1;
    }
    slice_v(v, i, n)
}

pub fn trim_end_char_v(v: &Vec<char>, c: char) -> (r: Vec<char>)
    ensures
        r@ == trim_end_char(v@, c),
{
    let mut j: usize = v.len();
    assert(v@.subrange(0, j as int) =~= v@);
    while j > 0 && v[j - 1] == c
        invariant
            j <= v.len(),
            trim_end_char(v@, c) == trim_end_char(v@.subrange(0, j as int), c),
        decreases j,
    {
        proof {
            lemma_trim_end_char_sub(v@, c, j as int);
        }
        j -= 1;
    }
    slice_v(v, 0, j)
}

// ---------------------------------------------------------------------------
// Prefixes, suffixes, occurrences
// ---------------------------------------------------------------------------

pub open spec fn starts_with(s: Seq<char>, p: Seq<char>) -> bool {
    p.len() <= s.len() && s.subrange(0, p.len() as int) == p
}

pub open spec fn ends_with(s: Seq<char>, p: Seq<char>) -> bool {
    p.len() <= s.len() && s.subrange(s.len() - p.len(), s.len() as int) == p
}

/// `p` occurs in `s` at position `i`.
pub open spec fn occurs_at(s: Seq<char>, p: Seq<char>, i: int) -> bool {
    0 <= i && i + p.len() <= s.len() && s.subrange(i, i + p.len()) == p
}

/// `str::contains` with a string pattern.
pub open spec fn contains(s: Seq<char>, p: Seq<char>) -> bool {
    exists|i: int| occurs_at(s, p, i)
}

/// First position `>= start` where `p` occurs (`str::find` on `s[start..]`).
pub open spec fn find_from(s: Seq<char>, p: Seq<char>, start: int) -> Option<int>
    decreases s.len() + 1 - start,
{
    if start < 0 || start + p.len() > s.len() {
        None
    } else if occurs_at(s, p, start) {
        Some(start)
    } else {
        find_from(s, p, start + 1)
    }
}

pub open spec fn has_char(s: Seq<char>, c: char) -> bool {
    s.contains(c)
}

pub proof fn lemma_find_from_props(s: Seq<char>, p: Seq<char>, start: int)
    requires
        0 <= start,
    ensures
        find_from(s, p, start) matches Some(i) ==> start <= i && occurs_at(s, p, i) && forall|
            j: int,
        | start <= j < i ==> !occurs_at(s, p, j),
        find_from(s, p, start) is None ==> forall|j: int| start <= j ==> !occurs_at(s, p, j),
    decreases s.len() + 1 - start,
{
    if start + p.len() > s.len() {
    } else if occurs_at(s, p, start) {
    } else {
        lemma_find_from_props(s, p, start + 1);
    }
}

pub proof fn lemma_contains_find(s: Seq<char>, p: Seq<char>)
    ensures
        contains(s, p) <==> find_from(s, p, 0) is Some,
{
    lemma_find_from_props(s, p, 0);
}

pub fn eq_v(a: &Vec<char>, b: &Vec<char>) -> (r: bool)
    ensures
        r == (a@ == b@),
{
    if a.len() != b.len() {
        return false;
    }
    let mut i: usize = 0;
    while i < a.len()
        invariant
            a.len() == b.len(),
            i <= a.len(),
            forall|k: int| 0 <= k < i ==> a@[k] == b@[k],
        decreases a.len() - i,
    {
        if a[i] != b[i] {
            return false;
        }
        i += 1;
    }
    assert(a@ =~= b@);
    true
}

/// Does `p` occur in `s` at `i`?
pub fn match_at(s: &Vec<char>, p: &Vec<char>, i: usize) -> (r: bool)
    ensures
        r == occurs_at(s@, p@, i as int),
{
    if i > s.len() || p.len() > s.len() - i {
        return false;
    }
    let mut k: usize = 0;
    while k < p.len()
        invariant
            i + p.len() <= s.len(),
            k <= p.len(),
            forall|m: int| 0 <= m < k ==> s@[i + m] == p@[m],
        decreases p.len() - k,
    {
        if s[i + k] != p[k] {
            assert(s@.subrange(i as int, i + p.len())[k as int] != p@[k as int]);
            return false;
        }
        k += 1;
    }
    assert(s@.subrange(i as int, i + p.len()) =~= p@);
    true
}

pub fn starts_with_v(s: &Vec<char>, p: &Vec<char>) -> (r: bool)
    ensures
        r == starts_with(s@, p@),
{
    match_at(s, p, 0)
}

pub fn ends_with_v(s: &Vec<char>, p: &Vec<char>) -> (r: bool)
    ensures
        r == ends_with(s@, p@),
{
    if p.len() > s.len() {
        return false;
    }
    match_at(s, p, s.len() - p.len())
}

/// `str::find` from `start`.
pub fn find_v(s: &Vec<char>, p: &Vec<char>, start: usize) -> (r: Option<usize>)
    ensures
        match r {
            Some(i) => find_from(s@, p@, start as int) == Some(i as int),
            None => find_from(s@, p@, start as int) is None,
        },
{
    let mut i = start;
    while i <= s.len() && p.len() <= s.len() - i
        invariant
            start <= i,
            find_from(s@, p@, start as int) == find_from(s@, p@, i as int),
        decreases s.len() + 1 - i,
    {
        if match_at(s, p, i) {
            return Some(i);
        }
        proof {
            if p.len() == 0 {
                assert(s@.subrange(i as int, i as int) =~= p@);
            }
        }
        i += 1;
    }
    None
}

pub fn contains_v(s: &Vec<char>, p: &Vec<char>) -> (r: bool)
    ensures
        r == contains(s@, p@),
{
    proof {
        lemma_contains_find(s@, p@);
    }
    find_v(s, p, 0).is_some()
}

pub fn has_char_v(s: &Vec<char>, c: char) -> (r: bool)
    ensures
        r == has_char(s@, c),
{
    let mut i: usize = 0;
    while i < s.len()
        invariant
            i <= s.len(),
            forall|k: int| 0 <= k < i ==> s@[k] != c,
        decreases s.len() - i,
    {
        if s[i] == c {
            return true;
        }
        i += 1;
    }
    false
}

// ---------------------------------------------------------------------------
// Conversions between `str`/`String` and `Vec<char>`
// ---------------------------------------------------------------------------

/// `String::push` (std gives it no specification in vstd).
#[verifier::external_body]
pub(crate) fn push_char(s: &mut String, c: char)
    ensures
        final(s)@ == old(s)@.push(c),
{
    s.push(c);
}

/// What `str::to_lowercase` gives for a string: full Unicode lower-casing,
/// which may change the length of the text.
pub uninterp spec fn unicode_lower(s: Seq<char>) -> Seq<char>;

/// `str::to_lowercase`.
#[verifier::external_body]
pub(crate) fn to_lowercase(s: &str) -> (r: String)
    ensures
        r@ == unicode_lower(s@),
{
    s.to_lowercase()
}

pub fn chars_of(s: &str) -> (v: Vec<char>)
    ensures
        v@ == s@,
{
    let mut v: Vec<char> = Vec::new();
    for c in it: s.chars()
        invariant
            v@ == it.seq().take(it.index() as int),
    {
        v.push(c);
    }
    v
}

pub fn push_chars(s: &mut String, v: &Vec<char>)
    ensures
        final(s)@ == old(s)@ + v@,
{
    let mut i: usize = 0;
    while i < v.len()
        invariant
            i <= v.len(),
            s@ == old(s)@ + v@.subrange(0, i as int),
        decreases v.len() - i,
    {
        push_char(s, v[i]);
        i += 1;
    }
    assert(v@.subrange(0, v.len() as int) =~= v@);
}

pub fn string_of(v: &Vec<char>) -> (s: String)
    ensures
        s@ == v@,
{
    let mut s = String::new();
    push_chars(&mut s, v);
    s
}

pub fn append_v(v: &mut Vec<char>, w: &Vec<char>)
    ensures
        final(v)@ == old(v)@ + w@,
{
    let mut i: usize = 0;
    while i < w.len()
        invariant
            i <= w.len(),
            v@ == old(v)@ + w@.subrange(0, i as int),
        decreases w.len() - i,
    {
        v.push(w[i]);
        i += 1;
    }
    assert(w@.subrange(0, w.len() as int) =~= w@);
}

pub fn append_str(v: &mut Vec<char>, s: &str)
    ensures
        final(v)@ == old(v)@ + s@,
{
    let w = chars_of(s);
    append_v(v, &w);
}

pub fn lower_v(v: &Vec<char>) -> (r: Vec<char>)
    ensures
        r@ == ascii_lower(v@),
{
    let mut r: Vec<char> = Vec::new();
    let mut i: usize = 0;
    while i < v.len()
        invariant
            i <= v.len(),
            r@ == ascii_lower(v@.subrange(0, i as int)),
        decreases v.len() - i,
    {
        r.push(to_lower_char(v[i]));
        proof {
            assert(ascii_lower(v@.subrange(0, i + 1)) =~= ascii_lower(v@.subrange(0, i as int)).push(
                lower_char(v@[i as int]),
            ));
        }
        i += 1;
    }
    assert(v@.subrange(0, v.len() as int) =~= v@);
    r
}

pub fn upper_v(v: &Vec<char>) -> (r: Vec<char>)
    ensures
        r@ == ascii_upper(v@),
{
    let mut r: Vec<char> = Vec::new();
    let mut i: usize = 0;
    while i < v.len()
        invariant
            i <= v.len(),
            r@ == ascii_upper(v@.subrange(0, i as int)),
        decreases v.len() - i,
    {
        r.push(to_upper_char(v[i]));
        proof {
            assert(ascii_upper(v@.subrange(0, i + 1)) =~= ascii_upper(v@.subrange(0, i as int)).push(
                upper_char(v@[i as int]),
            ));
        }
        i += 1;
    }
    assert(v@.subrange(0, v.len() as int) =~= v@);
    r
}

// ---------------------------------------------------------------------------
// Byte length of the UTF-8 encoding (what `str::len` returns)
// ---------------------------------------------------------------------------

pub open spec fn char_width(c: char) -> nat {
    let u = c as u32;
    if u < 0x80 {
        1
    } else if u < 0x800 {
        2
    } else if u < 0x10000 {
        3
    } else {
        4
    }
}

pub open spec fn utf8_len(s: Seq<char>) -> nat
    decreases s.len(),
{
    if s.len() == 0 {
        0
    } else {
        utf8_len(s.drop_last()) + char_width(s.last())
    }
}

pub proof fn lemma_utf8_len_bounds(s: Seq<char>)
    ensures
        s.len() <= utf8_len(s) <= 4 * s.len(),
    decreases s.len(),
{
    if s.len() > 0 {
        lemma_utf8_len_bounds(s.drop_last());
    }
}

/// `utf8_len(v) < limit`, computed without overflow.
pub fn utf8_len_lt(v: &Vec<char>, limit: usize) -> (r: bool)
    requires
        limit <= 1024,
    ensures
        r == (utf8_len(v@) < limit),
{
    proof {
        lemma_utf8_len_bounds(v@);
    }
    if v.len() >= limit {
        return false;
    }
    utf8_len_v(v) < limit
}

/// Byte length of `v` encoded as UTF-8; saturates at `limit + 1` so that
/// comparisons against `limit` never overflow.
pub fn utf8_len_v(v: &Vec<char>) -> (r: usize)
    requires
        v.len() <= usize::MAX / 4,
    ensures
        r == utf8_len(v@),
{
    let mut n: usize = 0;
    let mut i: usize = 0;
    while i < v.len()
        invariant
            i <= v.len() <= usize::MAX / 4,
            n == utf8_len(v@.subrange(0, i as int)),
            n <= 4 * i,
        decreases v.len() - i,
    {
        let u = v[i] as u32;
        let w: usize = if u < 0x80 {
            1
        } else if u < 0x800 {
            2
        } else if u < 0x10000 {
            3
        } else {
            4
        };
        proof {
            assert(v@.subrange(0, i + 1).drop_last() =~= v@.subrange(0, i as int));
        }
        n = n + w;
        i += 1;
    }
    assert(v@.subrange(0, v.len() as int) =~= v@);
    n
}

// ---------------------------------------------------------------------------
// Decimal rendering of unsigned integers (`usize::to_string`)
// ---------------------------------------------------------------------------

pub open spec fn digit_char(d: nat) -> char {
    ((d + 48) as u32) as char
}

pub open spec fn decimal(n: nat) -> Seq<char>
    decreases n,
{
    if n < 10 {
        seq![digit_char(n)]
    } else {
        decimal(n / 10).push(digit_char(n % 10))
    }
}

pub fn decimal_v(n: u64) -> (r: Vec<char>)
    ensures
        r@ == decimal(n as nat),
    decreases n,
{
    let d = (n % 10) as u32;
    let c = char_of_u32(d + 48);
    if n < 10 {
        let mut r = Vec::new();
        r.push(c);
        assert(r@ =~= decimal(n as nat));
        r
    } else {
        let mut r = decimal_v(n / 10);
        r.push(c);
        r
    }
}

// ---------------------------------------------------------------------------
// Joining
// ---------------------------------------------------------------------------

/// `parts.join(sep)`.
pub open spec fn join(parts: Seq<Seq<char>>, sep: Seq<char>) -> Seq<char>
    decreases parts.len(),
{
    if parts.len() == 0 {
        Seq::empty()
    } else if parts.len() == 1 {
        parts[0]
    } else {
        join(parts.drop_last(), sep) + sep + parts.last()
    }
}

pub open spec fn views(v: Seq<Vec<char>>) -> Seq<Seq<char>> {
    v.map_values(|x: Vec<char>| x@)
}

pub fn join_v(parts: &Vec<Vec<char>>, sep: &Vec<char>) -> (r: Vec<char>)
    ensures
        r@ == join(views(parts@), sep@),
{
    let mut r: Vec<char> = Vec::new();
    let mut i: usize = 0;
    while i < parts.len()
        invariant
            i <= parts.len(),
            r@ == join(views(parts@.subrange(0, i as int)), sep@),
        decreases parts.len() - i,
    {
        proof {
            let a = views(parts@.subrange(0, i + 1));
            assert(a.drop_last() =~= views(parts@.subrange(0, i as int)));
            assert(a.last() == parts@[i as int]@);
        }
        if i > 0 {
            append_v(&mut r, sep);
        }
        append_v(&mut r, &parts[i]);
        proof {
            if i == 0 {
                assert(r@ =~= views(parts@.subrange(0, 1))[0]);
            }
        }
        i += 1;
    }
    assert(parts@.subrange(0, parts.len() as int) =~= parts@);
    r
}

// ---------------------------------------------------------------------------
// Splitting
// ---------------------------------------------------------------------------

/// `str::split(c)` for a single character: the pieces between occurrences of
/// `c` (always at least one piece).
pub open spec fn split_char(s: Seq<char>, c: char) -> Seq<Seq<char>>
    decreases s.len(),
{
    split_char_acc(s, c, 0, 0)
}

/// Pieces of `s[from..]` where the current piece started at `start`.
pub open spec fn split_char_acc(s: Seq<char>, c: char, start: int, from: int) -> Seq<Seq<char>>
    decreases s.len() - from,
{
    if from < 0 || start < 0 || start > from || from >= s.len() {
        seq![s.subrange(start, s.len() as int)]
    } else if s[from] == c {
        seq![s.subrange(start, from)] + split_char_acc(s, c, from + 1, from + 1)
    } else {
        split_char_acc(s, c, start, from + 1)
    }
}

proof fn lemma_split_char_acc_nonempty(s: Seq<char>, c: char, start: int, from: int)
    ensures
        split_char_acc(s, c, start, from).len() >= 1,
    decreases s.len() - from,
{
    if from < 0 || start < 0 || start > from || from >= s.len() {
    } else if s[from] == c {
        lemma_split_char_acc_nonempty(s, c, from + 1, from + 1);
    } else {
        lemma_split_char_acc_nonempty(s, c, start, from + 1);
    }
}

/// Splitting always yields at least one piece.
pub proof fn lemma_split_char_nonempty(s: Seq<char>, c: char)
    ensures
        split_char(s, c).len() >= 1,
{
    lemma_split_char_acc_nonempty(s, c, 0, 0);
}

/// The lines of `s` as `str::lines` yields them: pieces ended by `'\n'`, a
/// final `'\n'` adds no empty line, and a `'\r'` just before a `'\n'` is
/// dropped.
pub open spec fn lines(s: Seq<char>) -> Seq<Seq<char>> {
    let raw = if s.len() > 0 && s.last() == '\n' {
        split_char(s.drop_last(), '\n')
    } else if s.len() == 0 {
        Seq::empty()
    } else {
        split_char(s, '\n')
    };
    raw.map_values(|l: Seq<char>| strip_cr(l))
}

pub open spec fn strip_cr(l: Seq<char>) -> Seq<char> {
    if l.len() > 0 && l.last() == '\r' {
        l.drop_last()
    } else {
        l
    }
}

pub fn split_char_v(s: &Vec<char>, c: char) -> (r: Vec<Vec<char>>)
    ensures
        views(r@) == split_char(s@, c),
{
    let mut r: Vec<Vec<char>> = Vec::new();
    let mut start: usize = 0;
    let mut i: usize = 0;
    while i < s.len()
        invariant
            start <= i <= s.len(),
            views(r@) + split_char_acc(s@, c, start as int, i as int) == split_char(s@, c),
        decreases s.len() - i,
    {
        if s[i] == c {
            let piece = slice_v(s, start, i);
            proof {
                let rest = split_char_acc(s@, c, (i + 1) as int, (i + 1) as int);
                assert(split_char_acc(s@, c, start as int, i as int) == seq![s@.subrange(
                    start as int,
                    i as int,
                )] + rest);
                assert(views(r@.push(piece)) =~= views(r@).push(piece@));
                assert(views(r@) + (seq![piece@] + rest) =~= views(r@).push(piece@) + rest);
            }
            r.push(piece);
            start = i + 1;
        }
        i += 1;
    }
    let piece = slice_v(s, start, s.len());
    proof {
        assert(views(r@.push(piece)) =~= views(r@).push(piece@));
        assert(split_char_acc(s@, c, start as int, i as int) =~= seq![piece@]);
        assert(views(r@) + seq![piece@] =~= views(r@).push(piece@));
    }
    r.push(piece);
    r
}

pub fn strip_cr_v(l: &Vec<char>) -> (r: Vec<char>)
    ensures
        r@ == strip_cr(l@),
{
    if l.len() > 0 && l[l.len() - 1] == '\r' {
        slice_v(l, 0, l.len() - 1)
    } else {
        slice_v(l, 0, l.len())
    }
}

pub fn lines_v(s: &Vec<char>) -> (r: Vec<Vec<char>>)
    ensures
        views(r@) == lines(s@),
{
    let raw: Vec<Vec<char>> = if s.len() > 0 && s[s.len() - 1] == '\n' {
        let t = slice_v(s, 0, s.len() - 1);
        assert(t@ =~= s@.drop_last());
        split_char_v(&t, '\n')
    } else if s.len() == 0 {
        Vec::new()
    } else {
        split_char_v(s, '\n')
    };
    let ghost rv = views(raw@);
    assert(rv.map_values(|l: Seq<char>| strip_cr(l)) == lines(s@));
    let mut r: Vec<Vec<char>> = Vec::new();
    let mut i: usize = 0;
    while i < raw.len()
        invariant
            i <= raw.len(),
            rv == views(raw@),
            views(r@) =~= rv.subrange(0, i as int).map_values(|l: Seq<char>| strip_cr(l)),
        decreases raw.len() - i,
    {
        let l = strip_cr_v(&raw[i]);
        proof {
            assert(views(r@.push(l)) =~= views(r@).push(l@));
        }
        r.push(l);
        i += 1;
    }
    assert(rv.subrange(0, raw.len() as int) =~= rv);
    r
}


/// `str::split` with a non-empty string pattern: the pieces of `s[start..]`
/// between non-overlapping occurrences of `p`, scanning left to right.
pub open spec fn split_str_acc(s: Seq<char>, p: Seq<char>, start: int) -> Seq<Seq<char>>
    decreases s.len() + 1 - start,
{
    if p.len() == 0 || start < 0 || start > s.len() {
        seq![s.subrange(start, s.len() as int)]
    } else {
        match find_from(s, p, start) {
            None => seq![s.subrange(start, s.len() as int)],
            Some(i) => if i < start || i + p.len() > s.len() {
                seq![s.subrange(start, s.len() as int)]
            } else {
                seq![s.subrange(start, i)] + split_str_acc(s, p, i + p.len())
            },
        }
    }
}

pub open spec fn split_str(s: Seq<char>, p: Seq<char>) -> Seq<Seq<char>> {
    split_str_acc(s, p, 0)
}

pub fn split_str_v(s: &Vec<char>, p: &Vec<char>) -> (r: Vec<Vec<char>>)
    requires
        p.len() > 0,
    ensures
        views(r@) == split_str(s@, p@),
{
    let mut r: Vec<Vec<char>> = Vec::new();
    let mut start: usize = 0;
    loop
        invariant_except_break
            views(r@) + split_str_acc(s@, p@, start as int) == split_str(s@, p@),
        invariant
            start <= s.len(),
            p.len() > 0,
        ensures
            views(r@) == split_str(s@, p@),
        decreases s.len() + 1 - start,
    {
        proof {
            lemma_find_from_props(s@, p@, start as int);
        }
        match find_v(s, p, start) {
            None => {
                let piece = slice_v(s, start, s.len());
                let ghost before = r@;
                r.push(piece);
                assert(views(r@) =~= views(before) + seq![piece@]);
                break ;
            },
            Some(i) => {
                let piece = slice_v(s, start, i);
                let ghost before = r@;
                r.push(piece);
                proof {
                    let rest = split_str_acc(s@, p@, i + p@.len());
                    assert(views(r@) =~= views(before).push(piece@));
                    assert(views(before) + (seq![piece@] + rest) =~= views(r@) + rest);
                }
                start = i + p.len();
            },
        }
    }
    r
}

/// `str::trim_start_matches` with a non-empty string pattern.
pub open spec fn trim_start_str(s: Seq<char>, p: Seq<char>) -> Seq<char>
    decreases s.len(),
{
    if p.len() > 0 && starts_with(s, p) {
        trim_start_str(s.subrange(p.len() as int, s.len() as int), p)
    } else {
        s
    }
}

pub fn trim_start_str_v(s: &Vec<char>, p: &Vec<char>) -> (r: Vec<char>)
    ensures
        r@ == trim_start_str(s@, p@),
{
    let mut cur = slice_v(s, 0, s.len());
    assert(cur@ =~= s@);
    while p.len() > 0 && starts_with_v(&cur, p)
        invariant
            trim_start_str(s@, p@) == trim_start_str(cur@, p@),
        decreases cur.len(),
    {
        cur = slice_v(&cur, p.len(), cur.len());
    }
    cur
}

/// `str::trim_end_matches` with a non-empty string pattern: remove `p` from
/// the end as long as `s` ends with it.
pub open spec fn trim_end_str(s: Seq<char>, p: Seq<char>) -> Seq<char>
    decreases s.len(),
{
    if p.len() > 0 && ends_with(s, p) {
        trim_end_str(s.subrange(0, s.len() - p.len()), p)
    } else {
        s
    }
}

pub fn trim_end_str_v(s: &Vec<char>, p: &Vec<char>) -> (r: Vec<char>)
    ensures
        r@ == trim_end_str(s@, p@),
{
    let mut cur = slice_v(s, 0, s.len());
    assert(cur@ =~= s@);
    while p.len() > 0 && ends_with_v(&cur, p)
        invariant
            trim_end_str(s@, p@) == trim_end_str(cur@, p@),
        decreases cur.len(),
    {
        cur = slice_v(&cur, 0, cur.len() - p.len());
    }
    cur
}

/// Does every character of `s` satisfy `f`?
pub open spec fn all_chars(s: Seq<char>, f: spec_fn(char) -> bool) -> bool {
    forall|i: int| 0 <= i < s.len() ==> f(#[trigger] s[i])
}

} // verus!
